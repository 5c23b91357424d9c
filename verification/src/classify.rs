//! Classification of a file by a sample of its first bytes and by its last byte.

use vstd::prelude::*;
use vstd::slice::slice_subrange;

verus! {

/// How many bytes from the start of a file are looked at.
pub const SAMPLE_SIZE: usize = 1024;

/// Carriage return.
pub const CR: u8 = 0x0D;

/// Line feed.
pub const LF: u8 = 0x0A;

/// The first `limit` bytes of `content`, or all of it if it is shorter.
pub open spec fn prefix(content: Seq<u8>, limit: nat) -> Seq<u8> {
    if content.len() <= limit {
        content
    } else {
        content.subrange(0, limit as int)
    }
}

/// The part of `content` that classification looks at.
pub open spec fn sampled(content: Seq<u8>) -> Seq<u8> {
    prefix(content, SAMPLE_SIZE as nat)
}

/// `bytes` holds a carriage return directly followed by a line feed.
pub open spec fn has_crlf(bytes: Seq<u8>) -> bool {
    exists|i: int| 0 <= i && i + 1 < bytes.len() && bytes[i] == CR && #[trigger] bytes[i + 1] == LF
}

/// One of the bytes of `bytes` is NUL.
pub open spec fn holds_nul(bytes: Seq<u8>) -> bool {
    exists|i: int| 0 <= i < bytes.len() && #[trigger] bytes[i] == 0u8
}

/// `bytes` begins with `mark`.
pub open spec fn starts_with(bytes: Seq<u8>, mark: Seq<u8>) -> bool {
    mark.len() <= bytes.len() && bytes.subrange(0, mark.len() as int) == mark
}

/// `bytes` begins with a byte order mark of UTF-8, UTF-16 or UTF-32.
pub open spec fn has_byte_order_mark(bytes: Seq<u8>) -> bool {
    ||| starts_with(bytes, seq![0xEFu8, 0xBBu8, 0xBFu8])
    ||| starts_with(bytes, seq![0x00u8, 0x00u8, 0xFEu8, 0xFFu8])
    ||| starts_with(bytes, seq![0xFFu8, 0xFEu8, 0x00u8, 0x00u8])
    ||| starts_with(bytes, seq![0xFEu8, 0xFFu8])
    ||| starts_with(bytes, seq![0xFFu8, 0xFEu8])
}

/// One of the first 1024 bytes of `bytes` is NUL.
pub open spec fn has_nul(bytes: Seq<u8>) -> bool {
    exists|i: int| 0 <= i < bytes.len() && i < 1024 && #[trigger] bytes[i] == 0u8
}

/// `bytes` begins like a PDF file (`%PDF`) or like a PNG image (`\x89PNG`).
pub open spec fn has_binary_magic(bytes: Seq<u8>) -> bool {
    ||| starts_with(bytes, seq![0x25u8, 0x50u8, 0x44u8, 0x46u8])
    ||| starts_with(bytes, seq![0x89u8, 0x50u8, 0x4Eu8, 0x47u8])
}

/// What the content inspector makes of `bytes`: a byte order mark means
/// text in that encoding; without one, a NUL byte or a known magic number
/// means binary data; anything else is taken for UTF-8 text.
pub open spec fn inspected_binary(bytes: Seq<u8>) -> bool {
    !has_byte_order_mark(bytes) && (has_nul(bytes) || has_binary_magic(bytes))
}

/// `bytes` is taken for binary data: it holds a NUL byte, or the content
/// inspector takes it for binary. A NUL byte decides, also behind a byte
/// order mark.
pub open spec fn looks_binary(bytes: Seq<u8>) -> bool {
    holds_nul(bytes) || inspected_binary(bytes)
}

/// Calls `content_inspector::inspect` on `bytes` and asks the content type
/// it returns, with `ContentType::is_binary`, whether it is `BINARY`.
/// Trusted: the contract restates the inspector's rules, in the order in which it applies them. It first
/// compares the start of the buffer with five byte order marks and returns
/// the matching text encoding; then it searches the first 1024 bytes for a
/// NUL byte and returns `BINARY` if there is one; then it returns `BINARY`
/// if the buffer starts with `%PDF` or `\x89PNG`; otherwise it returns
/// `UTF_8`.
#[verifier::external_body]
fn inspect_is_binary(bytes: &[u8]) -> (binary: bool)
    ensures
        binary == inspected_binary(bytes@),
{
    content_inspector::inspect(bytes).is_binary()
}

/// Cuts `content` down to its first `limit` bytes.
pub fn sample(content: &[u8], limit: usize) -> (head: &[u8])
    ensures
        head@ == prefix(content@, limit as nat),
{
    if content.len() <= limit {
        content
    } else {
        slice_subrange(content, 0, limit)
    }
}

/// Whether `bytes` holds a NUL byte.
pub fn contains_nul(bytes: &[u8]) -> (found: bool)
    ensures
        found == holds_nul(bytes@),
{
    let n: usize = bytes.len();
    let mut i: usize = 0;
    while i < n
        invariant
            i <= n,
            n == bytes@.len(),
            forall|k: int| 0 <= k < i ==> #[trigger] bytes@[k] != 0u8,
        decreases n - i,
    {
        if bytes[i] == 0 {
            return true;
        }
        i = i + 1;
    }
    false
}

/// Whether the sampled start of `content` is binary data. A NUL byte among
/// the first `SAMPLE_SIZE` bytes makes it binary; without one, the content
/// inspector decides on those bytes.
pub fn is_binary(content: &[u8]) -> (binary: bool)
    ensures
        binary == looks_binary(sampled(content@)),
{
    let head = sample(content, SAMPLE_SIZE);
    if contains_nul(head) {
        true
    } else {
        inspect_is_binary(head)
    }
}

/// Whether the sampled start of `content` uses CRLF line ends: true exactly
/// when a carriage return is directly followed by a line feed somewhere in
/// the first `SAMPLE_SIZE` bytes.
pub fn is_crlf(content: &[u8]) -> (crlf: bool)
    ensures
        crlf == has_crlf(sampled(content@)),
{
    let head = sample(content, SAMPLE_SIZE);
    let n: usize = head.len();
    let mut i: usize = 1;
    while i < n
        invariant
            1 <= i,
            n == head@.len(),
            head@ == sampled(content@),
            forall|k: int| 0 <= k && k + 1 < i ==> !(head@[k] == CR && #[trigger] head@[k + 1] == LF),
        decreases n - i,
    {
        if head[i - 1] == CR && head[i] == LF {
            assert(head@[i - 1] == CR && head@[(i - 1) + 1] == LF);
            return true;
        }
        i = i + 1;
    }
    false
}

/// Whether `content` ends with a line feed. A file that ends with CRLF ends
/// with a line feed too.
pub fn ends_with_newline(content: &[u8]) -> (ends: bool)
    requires
        content@.len() >= 1,
    ensures
        ends == (content@.last() == LF),
{
    content[content.len() - 1] == LF
}

/// Whether a file breaks the rule, given its first bytes and its last byte:
/// its sampled start is not binary and its last byte is no line feed.
pub fn breaks_rule(head: &[u8], last: u8) -> (breaks: bool)
    ensures
        breaks == (!looks_binary(sampled(head@)) && last != LF),
{
    !is_binary(head) && last != LF
}

} // verus!
