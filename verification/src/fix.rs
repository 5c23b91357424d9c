//! Mending a file that lacks its final newline.

use crate::classify::{has_crlf, is_crlf, sampled, CR, LF};
use vstd::prelude::*;

verus! {

/// The newline sequence that suits `content`: CR LF if its sampled start
/// holds a CR LF pair, a single LF otherwise.
pub open spec fn newline_for(content: Seq<u8>) -> Seq<u8> {
    if has_crlf(sampled(content)) {
        seq![CR, LF]
    } else {
        seq![LF]
    }
}

/// `content` with the newline sequence that suits it appended.
pub open spec fn with_newline(content: Seq<u8>) -> Seq<u8> {
    content + newline_for(content)
}

/// The bytes to append to a file that starts with `content`. Only the first
/// `SAMPLE_SIZE` bytes of `content` are looked at.
pub fn line_ending(content: &[u8]) -> (ending: Vec<u8>)
    ensures
        ending@ == newline_for(content@),
{
    let mut ending: Vec<u8> = Vec::new();
    if is_crlf(content) {
        ending.push(CR);
    }
    ending.push(LF);
    assert(ending@ =~= newline_for(content@));
    ending
}

/// Appends one newline sequence to `content`, in the style of its sampled
/// start. What was there stays as it is.
pub fn add_newline(content: &mut Vec<u8>)
    ensures
        final(content)@ == with_newline(old(content)@),
{
    let crlf = is_crlf(content.as_slice());
    if crlf {
        content.push(CR);
    }
    content.push(LF);
    assert(content@ =~= with_newline(old(content)@));
}

} // verus!
