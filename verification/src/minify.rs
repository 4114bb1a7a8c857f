//! Minification: the scan followed by the whitespace pass.

use crate::collapse::{collapse, collapse_whitespace, is_collapsed};
use crate::profile::{CommentProfile, ProfileView};
use crate::scanner::{scan, scan_output};
use crate::text::{is_line_break, is_whitespace, string_of};
use vstd::prelude::*;

verus! {

/// The minified form of `s` under the profile `p`: what the scan keeps, with
/// its whitespace collapsed.
pub open spec fn minified(s: Seq<char>, p: ProfileView) -> Seq<char> {
    collapse(scan_output(s, p))
}

/// Whether `y` fits on one line: it holds no line feed and no carriage
/// return.
pub open spec fn is_single_line(y: Seq<char>) -> bool {
    forall|i: int| 0 <= i < y.len() ==> !is_line_break(#[trigger] y[i])
}

/// A collapsed text fits on one line.
pub proof fn lemma_collapsed_is_single_line(y: Seq<char>)
    requires
        is_collapsed(y),
    ensures
        is_single_line(y),
{
    assert forall|i: int| 0 <= i < y.len() implies !is_line_break(#[trigger] y[i]) by {
        if is_line_break(y[i]) {
            assert(is_whitespace(y[i]));
        }
    }
}

/// Removes the comments that `profile` describes from `content` and collapses
/// its whitespace. The result is one line: it neither starts nor ends with
/// whitespace, and its only whitespace is single spaces.
pub fn minify(content: &str, profile: &CommentProfile) -> (r: String)
    ensures
        r@ == minified(content@, profile@),
        is_collapsed(r@),
        is_single_line(r@),
{
    let scanned = scan(content, profile);
    let out = collapse_whitespace(&scanned.buffer);
    proof {
        lemma_collapsed_is_single_line(out@);
    }
    string_of(&out)
}

} // verus!
