//! The scanner: one pass over the text that sorts every character into plain
//! code, string literal, character literal, line comment or block comment,
//! and copies what is to be kept into an output buffer.

use crate::profile::{CommentProfile, ProfileView};
use crate::text::{chars_of, is_line_break};
use vstd::prelude::*;

verus! {

/// The lexical context in which the scanner stands.
#[derive(Clone, Copy, Debug, PartialEq, Eq, Structural)]
pub enum ScannerState {
    Normal,
    InStringLiteral,
    InCharLiteral,
    InLineComment,
    InBlockComment,
}

impl ScannerState {
    /// Whether the state is one of the two comment states.
    pub open spec fn is_comment(self) -> bool {
        self == ScannerState::InLineComment || self == ScannerState::InBlockComment
    }

    /// Whether the state is one of the two literal states.
    pub open spec fn is_literal(self) -> bool {
        self == ScannerState::InStringLiteral || self == ScannerState::InCharLiteral
    }

    /// The quote that opens and closes a literal of this kind.
    pub open spec fn quote(self) -> char {
        if self == ScannerState::InCharLiteral {
            '\''
        } else {
            '"'
        }
    }
}

/// Whether `token` is not empty and stands in `s` at position `i`.
pub open spec fn matches_at(s: Seq<char>, i: int, token: Seq<char>) -> bool {
    &&& token.len() > 0
    &&& 0 <= i
    &&& i + token.len() <= s.len()
    &&& s.subrange(i, i + token.len()) == token
}

/// Whether the character just before position `i` is a backslash.
pub open spec fn escaped_at(s: Seq<char>, i: int) -> bool {
    0 < i <= s.len() && s[i - 1] == '\\'
}

/// Whether a backslash and `c` after it are taken as one pair inside a string
/// literal.
pub open spec fn is_escape_letter(c: char) -> bool {
    c == 'n' || c == 'r' || c == 't' || c == '\\' || c == '"'
}

/// What one step of the scanner does: the state after it, how many characters
/// of the text it takes, and what it appends to the buffer.
pub ghost struct Step {
    pub next: ScannerState,
    pub consumed: int,
    pub emitted: Seq<char>,
}

/// The step that the scanner takes in state `st` at position `i` of `s`,
/// where `0 <= i < s.len()`.
///
/// Inside a literal everything is copied, a line break in a string literal
/// as a backslash and the letter n; a quote that follows a backslash neither
/// opens nor closes a literal. In plain code the quotes are looked at first,
/// then the line-comment token, then the block-comment start; a token that
/// matches is taken whole and leaves nothing behind, and one that does not
/// match takes nothing. Any other character of plain code is copied,
/// whitespace too: the whitespace pass that follows the scan reduces it to
/// single separators. Inside a comment nothing is copied.
pub open spec fn step(s: Seq<char>, p: ProfileView, st: ScannerState, i: int) -> Step {
    let c = s[i];
    match st {
        ScannerState::InStringLiteral => {
            if c == '"' {
                Step {
                    next: if escaped_at(s, i) {
                        ScannerState::InStringLiteral
                    } else {
                        ScannerState::Normal
                    },
                    consumed: 1,
                    emitted: seq![c],
                }
            } else if is_line_break(c) {
                Step { next: st, consumed: 1, emitted: seq!['\\', 'n'] }
            } else if c == '\\' && i + 1 < s.len() && is_escape_letter(s[i + 1]) {
                Step { next: st, consumed: 2, emitted: seq![c, s[i + 1]] }
            } else {
                Step { next: st, consumed: 1, emitted: seq![c] }
            }
        },
        ScannerState::InCharLiteral => {
            if c == '\'' && !escaped_at(s, i) {
                Step { next: ScannerState::Normal, consumed: 1, emitted: seq![c] }
            } else {
                Step { next: st, consumed: 1, emitted: seq![c] }
            }
        },
        ScannerState::Normal => {
            if c == '"' {
                Step {
                    next: if escaped_at(s, i) {
                        ScannerState::Normal
                    } else {
                        ScannerState::InStringLiteral
                    },
                    consumed: 1,
                    emitted: seq![c],
                }
            } else if c == '\'' {
                Step {
                    next: if escaped_at(s, i) {
                        ScannerState::Normal
                    } else {
                        ScannerState::InCharLiteral
                    },
                    consumed: 1,
                    emitted: seq![c],
                }
            } else if matches_at(s, i, p.line_comment) {
                Step {
                    next: ScannerState::InLineComment,
                    consumed: p.line_comment.len() as int,
                    emitted: Seq::empty(),
                }
            } else if matches_at(s, i, p.block_comment_start) {
                Step {
                    next: ScannerState::InBlockComment,
                    consumed: p.block_comment_start.len() as int,
                    emitted: Seq::empty(),
                }
            } else {
                Step { next: st, consumed: 1, emitted: seq![c] }
            }
        },
        ScannerState::InLineComment => {
            if is_line_break(c) {
                Step { next: ScannerState::Normal, consumed: 1, emitted: Seq::empty() }
            } else {
                Step { next: st, consumed: 1, emitted: Seq::empty() }
            }
        },
        ScannerState::InBlockComment => {
            if matches_at(s, i, p.block_comment_end) {
                Step {
                    next: ScannerState::Normal,
                    consumed: p.block_comment_end.len() as int,
                    emitted: Seq::empty(),
                }
            } else {
                Step { next: st, consumed: 1, emitted: Seq::empty() }
            }
        },
    }
}

/// Every step takes at least one character and stays inside the text.
pub proof fn lemma_step_bounds(s: Seq<char>, p: ProfileView, st: ScannerState, i: int)
    requires
        0 <= i < s.len(),
    ensures
        1 <= step(s, p, st, i).consumed,
        i + step(s, p, st, i).consumed <= s.len(),
{
}

/// What the scanner appends to the buffer from position `i` to the end of
/// `s`, when it stands in state `st` at `i`.
pub open spec fn scan_from(s: Seq<char>, p: ProfileView, st: ScannerState, i: int) -> Seq<char>
    decreases s.len() - i,
{
    if 0 <= i < s.len() {
        let t = step(s, p, st, i);
        if t.consumed >= 1 {
            t.emitted + scan_from(s, p, t.next, i + t.consumed)
        } else {
            Seq::empty()
        }
    } else {
        Seq::empty()
    }
}

/// The state in which the scanner reaches the end of `s`, when it stands in
/// state `st` at position `i`.
pub open spec fn end_from(s: Seq<char>, p: ProfileView, st: ScannerState, i: int) -> ScannerState
    decreases s.len() - i,
{
    if 0 <= i < s.len() {
        let t = step(s, p, st, i);
        if t.consumed >= 1 {
            end_from(s, p, t.next, i + t.consumed)
        } else {
            st
        }
    } else {
        st
    }
}

/// The buffer that a scan of the whole of `s` fills.
pub open spec fn scan_output(s: Seq<char>, p: ProfileView) -> Seq<char> {
    scan_from(s, p, ScannerState::Normal, 0)
}

/// The state in which a scan of the whole of `s` ends.
pub open spec fn end_state(s: Seq<char>, p: ProfileView) -> ScannerState {
    end_from(s, p, ScannerState::Normal, 0)
}

/// Whether `token` is not empty and stands in `text` at position `i`.
pub fn token_at(text: &Vec<char>, i: usize, token: &Vec<char>) -> (r: bool)
    requires
        i <= text.len(),
    ensures
        r == matches_at(text@, i as int, token@),
{
    let m = token.len();
    if m == 0 || m > text.len() - i {
        return false;
    }
    let mut k: usize = 0;
    while k < m
        invariant
            k <= m,
            m == token.len(),
            0 < m <= text.len() - i,
            forall|j: int| 0 <= j < k ==> text@[i + j] == token@[j],
        decreases m - k,
    {
        if text[i + k] != token[k] {
            proof {
                assert(text@.subrange(i as int, i + m)[k as int] == text@[i + k]);
            }
            return false;
        }
        k += 1;
    }
    assert(text@.subrange(i as int, i + m) =~= token@);
    true
}

/// What a finished scan hands back: the buffer before the whitespace pass,
/// and the state in which the end of the text was reached.
pub struct Scan {
    pub buffer: Vec<char>,
    pub end: ScannerState,
}

/// The view of three token vectors as a profile.
pub open spec fn tokens_view(line: Seq<char>, start: Seq<char>, end: Seq<char>) -> ProfileView {
    ProfileView { line_comment: line, block_comment_start: start, block_comment_end: end }
}

/// Takes one step in state `st` at position `i`: appends to `out` what the
/// step emits and returns the next state and the next position.
fn advance(
    text: &Vec<char>,
    line: &Vec<char>,
    start: &Vec<char>,
    end: &Vec<char>,
    st: ScannerState,
    i: usize,
    out: &mut Vec<char>,
) -> (r: (ScannerState, usize))
    requires
        i < text.len(),
    ensures
        r.0 == step(text@, tokens_view(line@, start@, end@), st, i as int).next,
        r.1 == i + step(text@, tokens_view(line@, start@, end@), st, i as int).consumed,
        i < r.1 <= text.len(),
        final(out)@ == old(out)@ + step(
            text@,
            tokens_view(line@, start@, end@),
            st,
            i as int,
        ).emitted,
{
    let c = text[i];
    let escaped = i > 0 && text[i - 1] == '\\';
    let ghost before = out@;
    match st {
        ScannerState::InStringLiteral => {
            if c == '"' {
                out.push(c);
                assert(out@ =~= before + seq![c]);
                if escaped {
                    (ScannerState::InStringLiteral, i + 1)
                } else {
                    (ScannerState::Normal, i + 1)
                }
            } else if c == '\n' || c == '\r' {
                out.push('\\');
                out.push('n');
                assert(out@ =~= before + seq!['\\', 'n']);
                (st, i + 1)
            } else if c == '\\' && i + 1 < text.len() && escape_letter(text[i + 1]) {
                out.push(c);
                out.push(text[i + 1]);
                assert(out@ =~= before + seq![c, text@[i + 1]]);
                (st, i + 2)
            } else {
                out.push(c);
                assert(out@ =~= before + seq![c]);
                (st, i + 1)
            }
        },
        ScannerState::InCharLiteral => {
            out.push(c);
            assert(out@ =~= before + seq![c]);
            if c == '\'' && !escaped {
                (ScannerState::Normal, i + 1)
            } else {
                (st, i + 1)
            }
        },
        ScannerState::Normal => {
            if c == '"' {
                out.push(c);
                assert(out@ =~= before + seq![c]);
                if escaped {
                    (st, i + 1)
                } else {
                    (ScannerState::InStringLiteral, i + 1)
                }
            } else if c == '\'' {
                out.push(c);
                assert(out@ =~= before + seq![c]);
                if escaped {
                    (st, i + 1)
                } else {
                    (ScannerState::InCharLiteral, i + 1)
                }
            } else if token_at(text, i, line) {
                assert(out@ =~= before + Seq::<char>::empty());
                (ScannerState::InLineComment, i + line.len())
            } else if token_at(text, i, start) {
                assert(out@ =~= before + Seq::<char>::empty());
                (ScannerState::InBlockComment, i + start.len())
            } else {
                out.push(c);
                assert(out@ =~= before + seq![c]);
                (st, i + 1)
            }
        },
        ScannerState::InLineComment => {
            assert(out@ =~= before + Seq::<char>::empty());
            if c == '\n' || c == '\r' {
                (ScannerState::Normal, i + 1)
            } else {
                (st, i + 1)
            }
        },
        ScannerState::InBlockComment => {
            assert(out@ =~= before + Seq::<char>::empty());
            if token_at(text, i, end) {
                (ScannerState::Normal, i + end.len())
            } else {
                (st, i + 1)
            }
        },
    }
}

/// Tests whether a backslash and `c` after it make a pair inside a string
/// literal.
pub fn escape_letter(c: char) -> (r: bool)
    ensures
        r == is_escape_letter(c),
{
    c == 'n' || c == 'r' || c == 't' || c == '\\' || c == '"'
}

/// Scans `text` once from its start in state `Normal`, with the three tokens
/// given as characters.
pub fn scan_chars(text: &Vec<char>, line: &Vec<char>, start: &Vec<char>, end: &Vec<char>) -> (r:
    Scan)
    ensures
        r.buffer@ == scan_output(text@, tokens_view(line@, start@, end@)),
        r.end == end_state(text@, tokens_view(line@, start@, end@)),
{
    let ghost p = tokens_view(line@, start@, end@);
    let mut out: Vec<char> = Vec::new();
    let mut st = ScannerState::Normal;
    let mut i: usize = 0;
    assert(out@ + scan_from(text@, p, st, 0) =~= scan_from(text@, p, st, 0));
    while i < text.len()
        invariant
            i <= text.len(),
            p == tokens_view(line@, start@, end@),
            scan_output(text@, p) == out@ + scan_from(text@, p, st, i as int),
            end_state(text@, p) == end_from(text@, p, st, i as int),
        decreases text.len() - i,
    {
        let ghost before = out@;
        let ghost t = step(text@, p, st, i as int);
        let r = advance(text, line, start, end, st, i, &mut out);
        proof {
            assert(before + (t.emitted + scan_from(text@, p, t.next, i + t.consumed)) =~= (before
                + t.emitted) + scan_from(text@, p, t.next, i + t.consumed));
        }
        st = r.0;
        i = r.1;
    }
    assert(out@ + Seq::<char>::empty() =~= out@);
    Scan { buffer: out, end: st }
}

/// Scans `content` once with `profile` and returns the buffer, before the
/// whitespace pass, together with the state at the end of the text.
pub fn scan(content: &str, profile: &CommentProfile) -> (r: Scan)
    ensures
        r.buffer@ == scan_output(content@, profile@),
        r.end == end_state(content@, profile@),
{
    let text = chars_of(content);
    let line = chars_of(profile.line_comment.as_str());
    let start = chars_of(profile.block_comment_start.as_str());
    let end = chars_of(profile.block_comment_end.as_str());
    assert(tokens_view(line@, start@, end@) == profile@);
    scan_chars(&text, &line, &start, &end)
}

} // verus!
