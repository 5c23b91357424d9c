//! A directory tree held in memory, and a scan over it.
//!
//! A listing holds the entries of a tree in the order in which a
//! depth-first walk meets them, parents before their children, each with
//! its depth below the root. The entries that follow an entry and lie
//! deeper than it, up to the first that does not, are its descendants.

use crate::classify::{breaks_rule, looks_binary, sampled, LF};
use crate::fix::{add_newline, with_newline};
use crate::pattern::{excluded, is_excluded, rule_texts, ExclusionRule};
use crate::report::{exit_code, exit_code_of, output, output_of, paths_of, texts};
use crate::target::LintTarget;
use vstd::prelude::*;

verus! {

/// One entry of a directory tree.
#[derive(Debug)]
pub struct Entry {
    /// The full path of the entry.
    pub path: String,
    /// How many directories lie between the root and the entry; the root
    /// itself has depth 0.
    pub depth: usize,
    /// Whether the entry is a regular file.
    pub is_file: bool,
    /// The bytes of a regular file; empty for anything else.
    pub content: Vec<u8>,
}

/// What an entry holds, as plain mathematical values.
pub struct EntryView {
    /// The characters of the path.
    pub path: Seq<char>,
    /// The depth below the root.
    pub depth: nat,
    /// Whether the entry is a regular file.
    pub is_file: bool,
    /// The bytes of the file.
    pub content: Seq<u8>,
}

impl View for Entry {
    type V = EntryView;

    open spec fn view(&self) -> EntryView {
        EntryView {
            path: self.path@,
            depth: self.depth as nat,
            is_file: self.is_file,
            content: self.content@,
        }
    }
}

/// The views of the entries of `listing`, in their order.
pub open spec fn views(listing: Seq<Entry>) -> Seq<EntryView> {
    listing.map_values(|entry: Entry| entry@)
}

/// Entry `at` is entry `top` or one of its descendants.
pub open spec fn under(listing: Seq<EntryView>, top: int, at: int) -> bool {
    &&& 0 <= top <= at < listing.len()
    &&& forall|k: int| top < k <= at ==> (#[trigger] listing[k]).depth > listing[top].depth
}

/// For each entry of `listing`, whether one of `rules` matches its path.
pub open spec fn exclusions(listing: Seq<EntryView>, rules: Seq<Seq<char>>) -> Seq<bool> {
    Seq::new(listing.len(), |at: int| is_excluded(listing[at].path, rules))
}

/// Entry `at` is left out of the walk, where `matched` says of each entry
/// whether an exclusion rule matches it: the entry is matched itself, or
/// lies below one that is.
pub open spec fn pruned(listing: Seq<EntryView>, matched: Seq<bool>, at: int) -> bool {
    exists|top: int| #[trigger] under(listing, top, at) && matched[top]
}

/// A file with this content breaks the rule: it is not empty, its sampled
/// start is not binary, and its last byte is no line feed.
pub open spec fn violates(content: Seq<u8>) -> bool {
    content.len() > 0 && !looks_binary(sampled(content)) && content.last() != LF
}

/// Entry `at` is a violation: a regular file that the walk reaches and whose
/// content breaks the rule.
pub open spec fn flagged(listing: Seq<EntryView>, matched: Seq<bool>, at: int) -> bool {
    &&& 0 <= at < listing.len()
    &&& !pruned(listing, matched, at)
    &&& listing[at].is_file
    &&& violates(listing[at].content)
}

/// The indices of the violations among the first `n` entries, in rising
/// order.
pub open spec fn flagged_below(listing: Seq<EntryView>, matched: Seq<bool>, n: int) -> Seq<int>
    decreases n,
{
    if n <= 0 {
        Seq::empty()
    } else if flagged(listing, matched, n - 1) {
        flagged_below(listing, matched, n - 1).push(n - 1)
    } else {
        flagged_below(listing, matched, n - 1)
    }
}

/// The indices of all violations of `listing`, in rising order.
pub open spec fn violations(listing: Seq<EntryView>, matched: Seq<bool>) -> Seq<int> {
    flagged_below(listing, matched, listing.len() as int)
}

/// The numbers of `entries` as mathematical integers.
pub open spec fn indices_of(entries: Seq<usize>) -> Seq<int> {
    entries.map_values(|entry: usize| entry as int)
}

/// What a scan found: the violations in the order of the listing.
#[derive(Debug)]
pub struct Findings {
    /// The files that break the rule.
    pub targets: Vec<LintTarget>,
    /// For each of them, its index in the listing.
    pub entries: Vec<usize>,
}

impl Findings {
    /// The indices of the entries that were found.
    pub open spec fn indices(&self) -> Seq<int> {
        indices_of(self.entries@)
    }

    /// The findings are those of a scan of `listing` under `matched`: the
    /// entries are exactly its violations, and each target carries the path
    /// and the size of its entry.
    pub open spec fn found_in(&self, listing: Seq<EntryView>, matched: Seq<bool>) -> bool {
        &&& self.indices() == violations(listing, matched)
        &&& self.targets@.len() == self.entries@.len()
        &&& forall|k: int|
            0 <= k < self.targets@.len() ==> {
                &&& (#[trigger] self.targets@[k]).spec_path() == listing[self.entries@[k] as int].path
                &&& self.targets@[k].spec_size() == listing[self.entries@[k] as int].content.len()
            }
    }
}

/// The entry with one newline sequence appended to its content.
pub open spec fn mend(entry: EntryView) -> EntryView {
    EntryView { content: with_newline(entry.content), ..entry }
}

/// The listing in which the entries at the indices `marked` are mended and
/// the others are as they were.
pub open spec fn mended(listing: Seq<EntryView>, marked: Seq<int>) -> Seq<EntryView> {
    Seq::new(
        listing.len(),
        |at: int|
            if marked.contains(at) {
                mend(listing[at])
            } else {
                listing[at]
            },
    )
}

/// An excluded entry `top` still covers the entries before `at`.
spec fn open_at(listing: Seq<EntryView>, matched: Seq<bool>, top: int, at: int) -> bool {
    &&& 0 <= top < at
    &&& matched[top]
    &&& forall|k: int| top < k < at ==> (#[trigger] listing[k]).depth > listing[top].depth
}

/// The depth that a cut stands for.
spec fn depth_of(cut: Option<usize>) -> Option<nat> {
    match cut {
        Some(depth) => Some(depth as nat),
        None => None,
    }
}

/// `cut` is the depth of the outermost excluded entry that covers position
/// `at`, if there is one.
spec fn cut_at(listing: Seq<EntryView>, matched: Seq<bool>, cut: Option<nat>, at: int) -> bool {
    match cut {
        None => forall|top: int| !#[trigger] open_at(listing, matched, top, at),
        Some(depth) => {
            &&& exists|top: int| #[trigger] open_at(listing, matched, top, at) && listing[top].depth == depth
            &&& forall|top: int| #[trigger] open_at(listing, matched, top, at) ==> listing[top].depth >= depth
        },
    }
}

/// Says of each entry of `listing` whether one of `rules` matches its path.
pub fn marks(listing: &[Entry], rules: &[ExclusionRule]) -> (matched: Vec<bool>)
    ensures
        matched@ == exclusions(views(listing@), rule_texts(rules@)),
{
    let mut matched: Vec<bool> = Vec::new();
    let n: usize = listing.len();
    let mut i: usize = 0;
    while i < n
        invariant
            i <= n,
            n == listing@.len(),
            matched@.len() == i,
            forall|k: int|
                0 <= k < i ==> #[trigger] matched@[k] == is_excluded(
                    listing@[k].path@,
                    rule_texts(rules@),
                ),
        decreases n - i,
    {
        matched.push(excluded(listing[i].path.as_str(), rules));
        i = i + 1;
    }
    assert(matched@ =~= exclusions(views(listing@), rule_texts(rules@)));
    matched
}

/// Scans a tree held in memory. The walk leaves out every entry that
/// matches a rule and everything below it; of what it reaches it keeps the
/// regular files that are not empty, and of those it reports the ones that
/// are not binary and do not end with a line feed.
pub fn scan(listing: &[Entry], rules: &[ExclusionRule]) -> (found: Findings)
    ensures
        found.found_in(views(listing@), exclusions(views(listing@), rule_texts(rules@))),
{
    let matched = marks(listing, rules);
    scan_marked(listing, matched.as_slice())
}

/// Scans a tree held in memory, given for each entry whether an exclusion
/// rule matches it. The walk leaves out every matched entry and everything
/// below it; of what it reaches it keeps the regular files that are not
/// empty, and of those it reports the ones that are not binary and do not
/// end with a line feed.
pub fn scan_marked(listing: &[Entry], matched: &[bool]) -> (found: Findings)
    requires
        matched@.len() == listing@.len(),
    ensures
        found.found_in(views(listing@), matched@),
{
    let ghost model = views(listing@);
    let ghost hits = matched@;
    let mut targets: Vec<LintTarget> = Vec::new();
    let mut entries: Vec<usize> = Vec::new();
    let mut cut: Option<usize> = None;
    let n: usize = listing.len();
    let mut i: usize = 0;
    assert(indices_of(entries@) =~= flagged_below(model, hits, 0));
    while i < n
        invariant
            i <= n,
            n == listing@.len(),
            model == views(listing@),
            hits == matched@,
            hits.len() == n,
            cut_at(model, hits, depth_of(cut), i as int),
            indices_of(entries@) == flagged_below(model, hits, i as int),
            targets@.len() == entries@.len(),
            model.len() == n,
            forall|k: int| 0 <= k < entries@.len() ==> #[trigger] entries@[k] < n,
            forall|k: int|
                0 <= k < targets@.len() ==> {
                    &&& (#[trigger] targets@[k]).spec_path() == model[entries@[k] as int].path
                    &&& targets@[k].spec_size() == model[entries@[k] as int].content.len()
                },
        decreases n - i,
    {
        let entry = &listing[i];
        let covered = match cut {
            Some(depth) => entry.depth > depth,
            None => false,
        };
        if covered {
            proof {
                lemma_covered(model, hits, depth_of(cut), i as int);
            }
        } else if matched[i] {
            proof {
                lemma_excluded(model, hits, depth_of(cut), i as int);
            }
            cut = Some(entry.depth);
        } else {
            proof {
                lemma_reached(model, hits, depth_of(cut), i as int);
            }
            cut = None;
            if let Some(target) = LintTarget::new(
                entry.path.clone(),
                entry.is_file,
                Some(entry.content.len() as u64),
            ) {
                let content = entry.content.as_slice();
                if breaks_rule(content, content[content.len() - 1]) {
                    targets.push(target);
                    entries.push(i);
                }
            }
        }
        assert(indices_of(entries@) =~= flagged_below(model, hits, i + 1));
        i = i + 1;
    }
    Findings { targets, entries }
}

/// An entry that lies deeper than the cut is pruned, and the cut stays.
proof fn lemma_covered(listing: Seq<EntryView>, matched: Seq<bool>, cut: Option<nat>, at: int)
    requires
        0 <= at < listing.len(),
        cut_at(listing, matched, cut, at),
        cut matches Some(depth) && listing[at].depth > depth,
    ensures
        pruned(listing, matched, at),
        cut_at(listing, matched, cut, at + 1),
{
    let depth = cut->0;
    let top = choose|top: int| #[trigger] open_at(listing, matched, top, at) && listing[top].depth == depth;
    assert(under(listing, top, at));
    assert(open_at(listing, matched, top, at + 1));
    assert forall|other: int| #[trigger] open_at(listing, matched, other, at + 1) implies listing[other].depth
        >= depth by {
        if other < at {
            assert(open_at(listing, matched, other, at));
        }
    }
}

/// An excluded entry that no cut covers is pruned and opens a cut of its own.
proof fn lemma_excluded(listing: Seq<EntryView>, matched: Seq<bool>, cut: Option<nat>, at: int)
    requires
        0 <= at < listing.len(),
        cut_at(listing, matched, cut, at),
        cut matches Some(depth) ==> listing[at].depth <= depth,
        matched[at],
    ensures
        pruned(listing, matched, at),
        cut_at(listing, matched, Some(listing[at].depth), at + 1),
{
    assert(under(listing, at, at));
    assert(open_at(listing, matched, at, at + 1));
    assert forall|other: int| #[trigger] open_at(listing, matched, other, at + 1) implies listing[other].depth
        >= listing[at].depth by {
        if other < at {
            assert(open_at(listing, matched, other, at));
            assert(listing[at].depth > listing[other].depth);
        }
    }
}

/// An entry that matches no rule and that no cut covers is reached, and no
/// cut is open after it.
proof fn lemma_reached(listing: Seq<EntryView>, matched: Seq<bool>, cut: Option<nat>, at: int)
    requires
        0 <= at < listing.len(),
        cut_at(listing, matched, cut, at),
        cut matches Some(depth) ==> listing[at].depth <= depth,
        !matched[at],
    ensures
        !pruned(listing, matched, at),
        cut_at(listing, matched, None, at + 1),
{
    assert forall|top: int| !(#[trigger] under(listing, top, at) && matched[top]) by {
        if under(listing, top, at) && matched[top] {
            assert(top < at);
            assert(open_at(listing, matched, top, at));
            assert(listing[at].depth > listing[top].depth);
        }
    }
    assert forall|top: int| !#[trigger] open_at(listing, matched, top, at + 1) by {
        if open_at(listing, matched, top, at + 1) {
            assert(top < at);
            assert(open_at(listing, matched, top, at));
            assert(listing[at].depth > listing[top].depth);
        }
    }
}

/// The indices of the violations among the first `n` entries rise, and each
/// of them is the index of one of those entries.
pub proof fn lemma_flagged_below_rises(listing: Seq<EntryView>, matched: Seq<bool>, n: int)
    ensures
        forall|k: int|
            0 <= k < flagged_below(listing, matched, n).len() ==> 0 <= #[trigger] flagged_below(
                listing,
                matched,
                n,
            )[k] < n,
        forall|a: int, b: int|
            0 <= a < b < flagged_below(listing, matched, n).len() ==> flagged_below(listing, matched, n)[a]
                < flagged_below(listing, matched, n)[b],
    decreases n,
{
    if n > 0 {
        lemma_flagged_below_rises(listing, matched, n - 1);
        let before = flagged_below(listing, matched, n - 1);
        let now = flagged_below(listing, matched, n);
        assert forall|k: int| 0 <= k < now.len() implies 0 <= #[trigger] now[k] < n by {
            if k < before.len() {
                assert(now[k] == before[k]);
            }
        }
        assert forall|a: int, b: int| 0 <= a < b < now.len() implies now[a] < now[b] by {
            assert(now[a] == before[a]);
            if b < before.len() {
                assert(now[b] == before[b]);
            }
        }
    }
}

/// An index is among the violations of the first `n` entries exactly when it
/// is below `n` and the entry there is flagged.
pub proof fn lemma_flagged_below_holds(listing: Seq<EntryView>, matched: Seq<bool>, n: int, at: int)
    ensures
        flagged_below(listing, matched, n).contains(at) <==> at < n && flagged(listing, matched, at),
    decreases n,
{
    if n > 0 {
        lemma_flagged_below_holds(listing, matched, n - 1, at);
        let before = flagged_below(listing, matched, n - 1);
        if flagged(listing, matched, n - 1) {
            let now = before.push(n - 1);
            assert(now[before.len() as int] == n - 1);
            if before.contains(at) {
                let k = choose|k: int| 0 <= k < before.len() && before[k] == at;
                assert(now[k] == at);
            }
        }
    }
}

/// Appends a newline sequence to the content of each entry whose index is
/// in `entries`; the other entries stay as they are.
pub fn fix_all(listing: &mut Vec<Entry>, entries: &[usize])
    requires
        forall|k: int| 0 <= k < entries@.len() ==> #[trigger] entries@[k] < old(listing)@.len(),
        indices_of(entries@).no_duplicates(),
    ensures
        views(final(listing)@) == mended(views(old(listing)@), indices_of(entries@)),
{
    let ghost before = views(listing@);
    let ghost marked = indices_of(entries@);
    let n: usize = entries.len();
    let mut k: usize = 0;
    while k < n
        invariant
            k <= n,
            n == entries@.len(),
            marked == indices_of(entries@),
            marked.no_duplicates(),
            listing@.len() == before.len(),
            forall|j: int| 0 <= j < entries@.len() ==> #[trigger] entries@[j] < before.len(),
            views(listing@) == mended(before, marked.take(k as int)),
        decreases n - k,
    {
        let at: usize = entries[k];
        let ghost previous = listing@;
        let entry = &listing[at];
        let mut content = entry.content.clone();
        add_newline(&mut content);
        let mended_entry = Entry {
            path: entry.path.clone(),
            depth: entry.depth,
            is_file: entry.is_file,
            content,
        };
        listing.set(at, mended_entry);
        proof {
            let earlier = marked.take(k as int);
            let now = marked.take(k + 1);
            assert(!earlier.contains(at as int)) by {
                if earlier.contains(at as int) {
                    let j = choose|j: int| 0 <= j < earlier.len() && earlier[j] == at;
                    assert(marked[j] == marked[k as int]);
                }
            }
            assert forall|i: int| 0 <= i < before.len() implies views(listing@)[i] == mended(before, now)[i] by {
                if i == at {
                    assert(now[k as int] == at);
                    assert(views(previous)[i] == mended(before, earlier)[i]);
                    assert(previous[i]@ == before[i]);
                } else {
                    if earlier.contains(i) {
                        let j = choose|j: int| 0 <= j < earlier.len() && earlier[j] == i;
                        assert(now[j] == i);
                    }
                    if now.contains(i) {
                        let j = choose|j: int| 0 <= j < now.len() && now[j] == i;
                        assert(earlier[j] == i);
                    }
                    assert(listing@[i] == previous[i]);
                    assert(views(previous)[i] == mended(before, earlier)[i]);
                }
            }
        }
        k = k + 1;
    }
    assert(marked.take(n as int) =~= marked);
}

/// The paths of the violations of `listing`, in the order of the listing.
pub open spec fn violation_paths(listing: Seq<EntryView>, matched: Seq<bool>) -> Seq<Seq<char>> {
    violations(listing, matched).map_values(|at: int| listing[at].path)
}

/// How a run ended and what it printed.
#[derive(Debug)]
pub struct Outcome {
    /// The exit code of the run.
    pub exit_code: u8,
    /// The lines that the run printed.
    pub output: Vec<String>,
}

/// Runs the linter on a tree held in memory. The tree is scanned first.
/// Without `fix`, the violations are reported and the run fails if there
/// are any; the tree stays as it is. With `fix`, each violation gets its
/// newline, nothing is printed and the run succeeds.
pub fn run(listing: &mut Vec<Entry>, fix: bool, rules: &[ExclusionRule]) -> (outcome: Outcome)
    ensures
        outcome.exit_code == exit_code_of(
            fix,
            violations(
                views(old(listing)@),
                exclusions(views(old(listing)@), rule_texts(rules@)),
            ).len(),
        ),
        texts(outcome.output@) == output_of(
            fix,
            violation_paths(
                views(old(listing)@),
                exclusions(views(old(listing)@), rule_texts(rules@)),
            ),
        ),
        views(final(listing)@) == if fix {
            mended(
                views(old(listing)@),
                violations(
                    views(old(listing)@),
                    exclusions(views(old(listing)@), rule_texts(rules@)),
                ),
            )
        } else {
            views(old(listing)@)
        },
{
    let matched = marks(listing.as_slice(), rules);
    run_marked(listing, fix, matched.as_slice())
}

/// Runs the linter on a tree held in memory, given for each entry whether
/// an exclusion rule matches it. What `run` does, it does here.
pub fn run_marked(listing: &mut Vec<Entry>, fix: bool, matched: &[bool]) -> (outcome: Outcome)
    requires
        matched@.len() == old(listing)@.len(),
    ensures
        outcome.exit_code == exit_code_of(fix, violations(views(old(listing)@), matched@).len()),
        texts(outcome.output@) == output_of(fix, violation_paths(views(old(listing)@), matched@)),
        views(final(listing)@) == if fix {
            mended(views(old(listing)@), violations(views(old(listing)@), matched@))
        } else {
            views(old(listing)@)
        },
{
    let ghost model = views(listing@);
    let ghost hits = matched@;
    let found = scan_marked(listing.as_slice(), matched);
    proof {
        lemma_flagged_below_rises(model, hits, model.len() as int);
        assert(paths_of(found.targets@) =~= violation_paths(model, hits)) by {
            assert forall|k: int| 0 <= k < found.targets@.len() implies paths_of(found.targets@)[k]
                == violation_paths(model, hits)[k] by {
                assert(found.indices()[k] == found.entries@[k]);
            }
        }
        assert forall|k: int| 0 <= k < found.entries@.len() implies #[trigger] found.entries@[k]
            < listing@.len() by {
            assert(found.indices()[k] == found.entries@[k]);
        }
    }
    let lines = output(fix, found.targets.as_slice());
    let code = exit_code(fix, found.targets.len());
    if fix {
        fix_all(listing, found.entries.as_slice());
    }
    Outcome { exit_code: code, output: lines }
}

} // verus!
