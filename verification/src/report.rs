//! What a run prints and how it ends.

use crate::target::LintTarget;
use vstd::prelude::*;
use vstd::string::StringExecFns;

verus! {

/// The exit code of a run that found nothing to complain about, or mended it.
pub const EXIT_SUCCESS: u8 = 0;

/// The exit code of a run that found files without a final newline and left
/// them as they were.
pub const EXIT_FAILURE: u8 = 1;

/// The line that introduces the list of files.
pub open spec fn header() -> Seq<char> {
    "Following files missing newline at EOF"@
}

/// What stands in front of each path in the list.
pub open spec fn indent() -> Seq<char> {
    "  "@
}

/// The lines of a report on the files at `paths`: an empty line, the
/// header, an empty line, each path indented, and an empty line.
pub open spec fn report_lines(paths: Seq<Seq<char>>) -> Seq<Seq<char>> {
    seq![Seq::<char>::empty(), header(), Seq::<char>::empty()] + paths.map_values(
        |path: Seq<char>| indent() + path,
    ) + seq![Seq::<char>::empty()]
}

/// The paths of `targets`, in their order.
pub open spec fn paths_of(targets: Seq<LintTarget>) -> Seq<Seq<char>> {
    targets.map_values(|target: LintTarget| target.spec_path())
}

/// The text of each line of `lines`.
pub open spec fn texts(lines: Seq<String>) -> Seq<Seq<char>> {
    lines.map_values(|line: String| line@)
}

/// What a run prints. Without the fix flag and with violations it is the
/// report on them; otherwise nothing.
pub open spec fn output_of(fix: bool, paths: Seq<Seq<char>>) -> Seq<Seq<char>> {
    if !fix && paths.len() > 0 {
        report_lines(paths)
    } else {
        Seq::empty()
    }
}

/// How a run ends. It fails only if it found violations and was not asked
/// to fix them.
pub open spec fn exit_code_of(fix: bool, violations: nat) -> u8 {
    if !fix && violations > 0 {
        EXIT_FAILURE
    } else {
        EXIT_SUCCESS
    }
}

/// Writes the report on `violations`, line by line.
pub fn report(violations: &[LintTarget]) -> (lines: Vec<String>)
    ensures
        texts(lines@) == report_lines(paths_of(violations@)),
{
    let mut lines: Vec<String> = Vec::new();
    lines.push(String::new());
    lines.push(String::from_str("Following files missing newline at EOF"));
    lines.push(String::new());
    let n: usize = violations.len();
    let mut i: usize = 0;
    while i < n
        invariant
            i <= n,
            n == violations@.len(),
            lines@.len() == 3 + i,
            lines@[0]@ == Seq::<char>::empty(),
            lines@[1]@ == header(),
            lines@[2]@ == Seq::<char>::empty(),
            forall|k: int| 0 <= k < i ==> (#[trigger] lines@[3 + k])@ == indent() + violations@[k].spec_path(),
        decreases n - i,
    {
        let line = String::from_str("  ").concat(violations[i].path());
        lines.push(line);
        i = i + 1;
    }
    lines.push(String::new());
    proof {
        let expected = report_lines(paths_of(violations@));
        assert(expected.len() == n + 4);
        assert forall|k: int| 0 <= k < n + 4 implies texts(lines@)[k] == expected[k] by {
            if 3 <= k < n + 3 {
                assert(lines@[3 + (k - 3)]@ == indent() + violations@[k - 3].spec_path());
            }
        }
        assert(texts(lines@) =~= expected);
    }
    lines
}

/// The lines that a run prints, given whether it was asked to fix and what
/// the scan found.
pub fn output(fix: bool, violations: &[LintTarget]) -> (lines: Vec<String>)
    ensures
        texts(lines@) == output_of(fix, paths_of(violations@)),
{
    if !fix && violations.len() > 0 {
        report(violations)
    } else {
        let lines: Vec<String> = Vec::new();
        assert(texts(lines@) =~= Seq::<Seq<char>>::empty());
        lines
    }
}

/// The exit code of a run, given whether it was asked to fix and how many
/// violations the scan found.
pub fn exit_code(fix: bool, violations: usize) -> (code: u8)
    ensures
        code == exit_code_of(fix, violations as nat),
{
    if !fix && violations > 0 {
        EXIT_FAILURE
    } else {
        EXIT_SUCCESS
    }
}

} // verus!
