//! What holds of every scan and of every fix, proved from the definitions
//! that the contracts of the library use.
//!
//! Where a statement speaks of `matched`, it holds whatever the exclusion
//! rules match: `matched` says of each entry of the listing whether a rule
//! matches its path. For a given set of rules it is `exclusions`.

use crate::classify::{has_crlf, holds_nul, looks_binary, sampled, CR, LF};
use crate::fix::{newline_for, with_newline};
use crate::listing::{
    exclusions, flagged, lemma_flagged_below_holds, mended, pruned, under, violates, violations,
    EntryView,
};
use crate::pattern::is_excluded;
use vstd::prelude::*;

verus! {

/// An index is among the violations of a listing exactly when the entry
/// there is flagged.
pub proof fn violations_are_the_flagged(listing: Seq<EntryView>, matched: Seq<bool>, at: int)
    ensures
        violations(listing, matched).contains(at) <==> flagged(listing, matched, at),
{
    lemma_flagged_below_holds(listing, matched, listing.len() as int, at);
}

/// An empty file is never a violation, and a fix leaves it as it is.
pub proof fn empty_files_are_left_alone(listing: Seq<EntryView>, matched: Seq<bool>, at: int)
    requires
        0 <= at < listing.len(),
        listing[at].content.len() == 0,
    ensures
        !violations(listing, matched).contains(at),
        mended(listing, violations(listing, matched))[at] == listing[at],
{
    violations_are_the_flagged(listing, matched, at);
}

/// A sample that holds a NUL byte is classified as binary.
pub proof fn nul_means_binary(content: Seq<u8>)
    requires
        holds_nul(sampled(content)),
    ensures
        looks_binary(sampled(content)),
{
}

/// A file whose sample holds a NUL byte is never a violation, whatever its
/// last byte is, and a fix leaves it as it is.
pub proof fn files_with_nul_are_left_alone(listing: Seq<EntryView>, matched: Seq<bool>, at: int)
    requires
        0 <= at < listing.len(),
        holds_nul(sampled(listing[at].content)),
    ensures
        !violations(listing, matched).contains(at),
        mended(listing, violations(listing, matched))[at] == listing[at],
{
    violations_are_the_flagged(listing, matched, at);
}

/// A file whose sample is classified as binary is never a violation,
/// whatever its last byte is, and a fix leaves it as it is.
pub proof fn binary_files_are_left_alone(listing: Seq<EntryView>, matched: Seq<bool>, at: int)
    requires
        0 <= at < listing.len(),
        looks_binary(sampled(listing[at].content)),
    ensures
        !violations(listing, matched).contains(at),
        mended(listing, violations(listing, matched))[at] == listing[at],
{
    violations_are_the_flagged(listing, matched, at);
}

/// A file that ends with a line feed is never a violation, and a fix leaves
/// it as it is.
pub proof fn terminated_files_are_left_alone(listing: Seq<EntryView>, matched: Seq<bool>, at: int)
    requires
        0 <= at < listing.len(),
        listing[at].content.len() > 0,
        listing[at].content.last() == LF,
    ensures
        !violations(listing, matched).contains(at),
        mended(listing, violations(listing, matched))[at] == listing[at],
{
    violations_are_the_flagged(listing, matched, at);
}

/// A regular file that the walk reaches, that is not empty, not binary and
/// does not end with a line feed is a violation. A fix appends exactly one
/// newline sequence to it: CR LF if its sample holds a CR LF pair, a single
/// LF otherwise.
pub proof fn unterminated_text_is_flagged_and_mended(
    listing: Seq<EntryView>,
    matched: Seq<bool>,
    at: int,
)
    requires
        0 <= at < listing.len(),
        listing[at].is_file,
        !pruned(listing, matched, at),
        listing[at].content.len() > 0,
        !looks_binary(sampled(listing[at].content)),
        listing[at].content.last() != LF,
    ensures
        violations(listing, matched).contains(at),
        mended(listing, violations(listing, matched))[at].content == listing[at].content + (
        if has_crlf(sampled(listing[at].content)) {
            seq![CR, LF]
        } else {
            seq![LF]
        }),
        mended(listing, violations(listing, matched))[at].path == listing[at].path,
{
    violations_are_the_flagged(listing, matched, at);
}

/// Content with its newline appended ends with a line feed, so it breaks the
/// rule no longer.
pub proof fn mended_content_is_terminated(content: Seq<u8>)
    ensures
        with_newline(content).len() > 0,
        with_newline(content).last() == LF,
        !violates(with_newline(content)),
{
    let ending = newline_for(content);
    assert(ending.last() == LF);
    assert(with_newline(content).last() == ending.last());
}

/// A fix changes no path, so the rules match the same entries afterwards.
pub proof fn mending_keeps_the_exclusions(
    listing: Seq<EntryView>,
    rules: Seq<Seq<char>>,
    marked: Seq<int>,
)
    ensures
        exclusions(mended(listing, marked), rules) == exclusions(listing, rules),
{
    assert(exclusions(mended(listing, marked), rules) =~= exclusions(listing, rules));
}

/// A fix changes neither the depths nor what is matched, so the walk
/// reaches the same entries afterwards.
pub proof fn mending_keeps_the_walk(
    listing: Seq<EntryView>,
    matched: Seq<bool>,
    marked: Seq<int>,
    at: int,
)
    ensures
        pruned(mended(listing, marked), matched, at) <==> pruned(listing, matched, at),
{
    let after = mended(listing, marked);
    assert forall|top: int| #[trigger] under(after, top, at) <==> under(listing, top, at) by {
        if 0 <= top <= at < listing.len() {
            assert(after[top].depth == listing[top].depth);
            if under(listing, top, at) {
                assert forall|k: int| top < k <= at implies (#[trigger] after[k]).depth
                    > after[top].depth by {
                    assert(after[k].depth == listing[k].depth);
                }
            }
            if under(after, top, at) {
                assert forall|k: int| top < k <= at implies (#[trigger] listing[k]).depth
                    > listing[top].depth by {
                    assert(after[k].depth == listing[k].depth);
                }
            }
        }
    }
    if pruned(listing, matched, at) {
        let top = choose|top: int| #[trigger] under(listing, top, at) && matched[top];
        assert(under(after, top, at));
    }
    if pruned(after, matched, at) {
        let top = choose|top: int| #[trigger] under(after, top, at) && matched[top];
        assert(under(listing, top, at));
    }
}

/// After a fix a scan under the same marks finds no violation, so a second
/// fix changes nothing.
pub proof fn fix_leaves_no_violation(listing: Seq<EntryView>, matched: Seq<bool>)
    ensures
        violations(mended(listing, violations(listing, matched)), matched) == Seq::<int>::empty(),
        mended(
            mended(listing, violations(listing, matched)),
            violations(mended(listing, violations(listing, matched)), matched),
        ) == mended(listing, violations(listing, matched)),
{
    let found = violations(listing, matched);
    let after = mended(listing, found);
    let again = violations(after, matched);
    assert forall|at: int| !flagged(after, matched, at) by {
        if 0 <= at < listing.len() {
            violations_are_the_flagged(listing, matched, at);
            mending_keeps_the_walk(listing, matched, found, at);
            if found.contains(at) {
                mended_content_is_terminated(listing[at].content);
            }
        }
    }
    if again.len() > 0 {
        assert(again.contains(again[0]));
        violations_are_the_flagged(after, matched, again[0]);
    }
    assert(again =~= Seq::<int>::empty());
    assert(mended(after, again) =~= after);
}

/// Fixing is idempotent: after a fix under a set of rules, a scan under the
/// same rules finds no violation, so a second fix changes nothing.
pub proof fn fix_is_idempotent(listing: Seq<EntryView>, rules: Seq<Seq<char>>)
    ensures
        ({
            let after = mended(listing, violations(listing, exclusions(listing, rules)));
            let again = violations(after, exclusions(after, rules));
            again == Seq::<int>::empty() && mended(after, again) == after
        }),
{
    let matched = exclusions(listing, rules);
    mending_keeps_the_exclusions(listing, rules, violations(listing, matched));
    fix_leaves_no_violation(listing, matched);
}

/// A matched entry is never a violation, and neither is anything below it:
/// the walk does not reach them, and a fix leaves them as they are.
pub proof fn matched_entries_are_never_reached(
    listing: Seq<EntryView>,
    matched: Seq<bool>,
    top: int,
    at: int,
)
    requires
        under(listing, top, at),
        matched[top],
    ensures
        pruned(listing, matched, at),
        !violations(listing, matched).contains(at),
        mended(listing, violations(listing, matched))[at] == listing[at],
{
    violations_are_the_flagged(listing, matched, at);
}

/// An entry whose path matches an exclusion rule is never a violation, and
/// neither is anything below it.
pub proof fn excluded_entries_are_never_reached(
    listing: Seq<EntryView>,
    rules: Seq<Seq<char>>,
    top: int,
    at: int,
)
    requires
        under(listing, top, at),
        is_excluded(listing[top].path, rules),
    ensures
        pruned(listing, exclusions(listing, rules), at),
        !violations(listing, exclusions(listing, rules)).contains(at),
        mended(listing, violations(listing, exclusions(listing, rules)))[at] == listing[at],
{
    matched_entries_are_never_reached(listing, exclusions(listing, rules), top, at);
}

/// With no rules nothing is excluded, and the walk reaches every entry.
pub proof fn no_rules_exclude_nothing(listing: Seq<EntryView>, path: Seq<char>, at: int)
    ensures
        !is_excluded(path, Seq::empty()),
        !pruned(listing, exclusions(listing, Seq::empty()), at),
{
}

} // verus!
