//! The comment syntax that governs one scan.

use vstd::prelude::*;

verus! {

/// The comment delimiters of one language. An empty token switches that kind
/// of comment off.
#[derive(Clone, Debug)]
pub struct CommentProfile {
    pub line_comment: String,
    pub block_comment_start: String,
    pub block_comment_end: String,
}

/// A comment profile as three sequences of characters.
pub ghost struct ProfileView {
    pub line_comment: Seq<char>,
    pub block_comment_start: Seq<char>,
    pub block_comment_end: Seq<char>,
}

impl View for CommentProfile {
    type V = ProfileView;

    open spec fn view(&self) -> ProfileView {
        ProfileView {
            line_comment: self.line_comment@,
            block_comment_start: self.block_comment_start@,
            block_comment_end: self.block_comment_end@,
        }
    }
}

impl CommentProfile {
    /// The profile with the given line-comment token and block-comment
    /// delimiters.
    pub fn new(line_comment: &str, block_comment_start: &str, block_comment_end: &str) -> (p:
        CommentProfile)
        ensures
            p@ == (ProfileView {
                line_comment: line_comment@,
                block_comment_start: block_comment_start@,
                block_comment_end: block_comment_end@,
            }),
    {
        CommentProfile {
            line_comment: line_comment.to_owned(),
            block_comment_start: block_comment_start.to_owned(),
            block_comment_end: block_comment_end.to_owned(),
        }
    }
}

} // verus!
