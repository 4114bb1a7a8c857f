//! What holds of every scan and of every minified text.

use crate::collapse::{
    is_collapsed, lemma_collapse_fixpoint, lemma_collapse_is_collapsed,
    lemma_collapse_keeps_block, lemma_collapse_len, no_whitespace, occurs_in,
};
use crate::minify::{is_single_line, lemma_collapsed_is_single_line, minified};
use crate::profile::ProfileView;
use crate::scanner::{
    escaped_at, lemma_step_bounds, matches_at, scan_from, scan_output, step, ScannerState,
};
use crate::text::is_line_break;
use crate::trace::{lemma_scan_extend, lemma_scan_split, output_before, reaches};
use vstd::prelude::*;

verus! {

/// Whether the scanner, inside a literal of kind `st`, copies `c` and stays
/// inside the literal whatever stands around `c`.
pub open spec fn is_plain_in(st: ScannerState, c: char) -> bool {
    match st {
        ScannerState::InStringLiteral => c != '"' && c != '\\' && !is_line_break(c),
        ScannerState::InCharLiteral => c != '\'',
        _ => false,
    }
}

/// Whether nothing ends a comment of kind `st` at position `j` of `s`.
pub open spec fn stays_in_comment(s: Seq<char>, p: ProfileView, st: ScannerState, j: int) -> bool {
    match st {
        ScannerState::InLineComment => !is_line_break(s[j]),
        ScannerState::InBlockComment => !matches_at(s, j, p.block_comment_end),
        _ => false,
    }
}

/// Whether a scan from state `st` at position `i` never enters a comment.
pub open spec fn comment_free_from(s: Seq<char>, p: ProfileView, st: ScannerState, i: int) -> bool
    decreases s.len() - i,
{
    if 0 <= i < s.len() {
        let t = step(s, p, st, i);
        t.consumed >= 1 && !t.next.is_comment() && comment_free_from(
            s,
            p,
            t.next,
            i + t.consumed,
        )
    } else {
        true
    }
}

/// Whether a scan of the whole of `s` never enters a comment.
pub open spec fn is_comment_free(s: Seq<char>, p: ProfileView) -> bool {
    comment_free_from(s, p, ScannerState::Normal, 0)
}

/// Every minified text is collapsed and fits on one line: it neither starts
/// nor ends with whitespace, holds no two whitespace characters side by side,
/// and holds no whitespace but the space.
pub proof fn law_minified_is_collapsed(s: Seq<char>, p: ProfileView)
    ensures
        is_collapsed(minified(s, p)),
        is_single_line(minified(s, p)),
        minified(s, p).len() > 0 ==> minified(s, p).first() != ' ' && minified(s, p).last() != ' ',
        forall|i: int|
            0 <= i && i + 1 < minified(s, p).len() ==> !(#[trigger] minified(s, p)[i] == ' '
                && minified(s, p)[i + 1] == ' '),
{
    let y = minified(s, p);
    lemma_collapse_is_collapsed(scan_output(s, p));
    lemma_collapsed_is_single_line(y);
    if y.len() > 0 {
        assert(y.first() == y[0]);
        assert(y.last() == y[y.len() - 1]);
    }
}

/// A line break that the scan meets inside a string literal goes into the
/// buffer as a backslash and the letter n. One that it meets anywhere else
/// goes into the buffer as it is or not at all.
pub proof fn law_line_break_escaped(s: Seq<char>, p: ProfileView, st: ScannerState, k: int)
    requires
        reaches(s, p, st, k),
        k < s.len(),
        is_line_break(s[k]),
    ensures
        st == ScannerState::InStringLiteral ==> {
            &&& reaches(s, p, st, k + 1)
            &&& output_before(s, p, k + 1) == output_before(s, p, k) + seq!['\\', 'n']
        },
        st != ScannerState::InStringLiteral ==> {
            let t = step(s, p, st, k);
            &&& reaches(s, p, t.next, k + t.consumed)
            &&& (t.emitted == Seq::<char>::empty() || t.emitted == seq![s[k]])
            &&& output_before(s, p, k + t.consumed) == output_before(s, p, k) + t.emitted
        },
        scan_output(s, p) == output_before(s, p, k) + step(s, p, st, k).emitted + scan_from(
            s,
            p,
            step(s, p, st, k).next,
            k + step(s, p, st, k).consumed,
        ),
{
    lemma_scan_split(s, p, ScannerState::Normal, 0, st, k);
    lemma_scan_extend(s, p, ScannerState::Normal, 0, st, k);
    let t = step(s, p, st, k);
    lemma_scan_split(s, p, ScannerState::Normal, 0, t.next, k + t.consumed);
}

/// A run of plain characters inside a literal is copied as it stands, and the
/// scanner is still inside the literal after it.
pub proof fn lemma_literal_run(s: Seq<char>, p: ProfileView, st: ScannerState, k: int, m: int)
    requires
        reaches(s, p, st, k),
        k <= m <= s.len(),
        forall|j: int| k <= j < m ==> is_plain_in(st, #[trigger] s[j]),
    ensures
        reaches(s, p, st, m),
        output_before(s, p, m) == output_before(s, p, k) + s.subrange(k, m),
    decreases m - k,
{
    lemma_scan_split(s, p, ScannerState::Normal, 0, st, k);
    if k == m {
        assert(output_before(s, p, k) + s.subrange(k, m) =~= output_before(s, p, k));
    } else {
        lemma_literal_run(s, p, st, k, m - 1);
        lemma_scan_extend(s, p, ScannerState::Normal, 0, st, m - 1);
        assert(is_plain_in(st, s[m - 1]));
        assert(step(s, p, st, m - 1).emitted == seq![s[m - 1]]);
        assert(step(s, p, st, m - 1).next == st);
        assert(output_before(s, p, k) + s.subrange(k, m - 1) + seq![s[m - 1]] =~= output_before(
            s,
            p,
            k,
        ) + s.subrange(k, m));
    }
}

/// The characters of a literal that are neither its quote nor, in a string
/// literal, a backslash or a line break are in the buffer as they stand in
/// the text; where they hold no whitespace, they are in the minified text as
/// they stand in the text.
pub proof fn law_literal_preserved(
    s: Seq<char>,
    p: ProfileView,
    st: ScannerState,
    k: int,
    m: int,
)
    requires
        reaches(s, p, st, k),
        k < m <= s.len(),
        forall|j: int| k <= j < m ==> is_plain_in(st, #[trigger] s[j]),
    ensures
        reaches(s, p, st, m),
        scan_output(s, p) == output_before(s, p, k) + s.subrange(k, m) + scan_from(s, p, st, m),
        no_whitespace(s.subrange(k, m)) ==> occurs_in(s.subrange(k, m), minified(s, p)),
{
    lemma_literal_run(s, p, st, k, m);
    lemma_scan_split(s, p, ScannerState::Normal, 0, st, m);
    let a = output_before(s, p, k);
    let w = s.subrange(k, m);
    let b = scan_output(s, p);
    if no_whitespace(w) {
        let lo = a.len() as int;
        let hi = lo + w.len();
        assert(b.subrange(lo, hi) =~= w);
        lemma_collapse_keeps_block(b, lo, hi);
    }
}

/// A literal whose content is plain is in the buffer as it stands in the
/// text, quotes included, and the scanner is back in plain code after it;
/// where the literal holds no whitespace, it is in the minified text as it
/// stands in the text.
pub proof fn law_whole_literal_preserved(
    s: Seq<char>,
    p: ProfileView,
    st: ScannerState,
    q: int,
    m: int,
)
    requires
        reaches(s, p, ScannerState::Normal, q),
        st.is_literal(),
        q < m < s.len(),
        s[q] == st.quote() && !escaped_at(s, q),
        forall|j: int| q < j < m ==> is_plain_in(st, #[trigger] s[j]),
        s[m] == st.quote() && !escaped_at(s, m),
    ensures
        reaches(s, p, st, q + 1),
        reaches(s, p, ScannerState::Normal, m + 1),
        output_before(s, p, m + 1) == output_before(s, p, q) + s.subrange(q, m + 1),
        scan_output(s, p) == output_before(s, p, q) + s.subrange(q, m + 1) + scan_from(
            s,
            p,
            ScannerState::Normal,
            m + 1,
        ),
        no_whitespace(s.subrange(q, m + 1)) ==> occurs_in(s.subrange(q, m + 1), minified(s, p)),
{
    lemma_scan_split(s, p, ScannerState::Normal, 0, ScannerState::Normal, q);
    lemma_scan_extend(s, p, ScannerState::Normal, 0, ScannerState::Normal, q);
    assert(step(s, p, ScannerState::Normal, q).next == st);
    lemma_literal_run(s, p, st, q + 1, m);
    lemma_scan_extend(s, p, ScannerState::Normal, 0, st, m);
    assert(step(s, p, st, m).next == ScannerState::Normal);
    lemma_scan_split(s, p, ScannerState::Normal, 0, ScannerState::Normal, m + 1);
    let a = output_before(s, p, q);
    let w = s.subrange(q, m + 1);
    let b = scan_output(s, p);
    assert(a + seq![s[q]] + s.subrange(q + 1, m) + seq![s[m]] =~= a + w);
    if no_whitespace(w) {
        let lo = a.len() as int;
        let hi = lo + w.len();
        assert(b.subrange(lo, hi) =~= w);
        lemma_collapse_keeps_block(b, lo, hi);
    }
}

/// A step that begins or ends inside a comment puts nothing into the buffer.
pub proof fn law_comment_step_silent(s: Seq<char>, p: ProfileView, st: ScannerState, k: int)
    requires
        reaches(s, p, st, k),
        k < s.len(),
        st.is_comment() || step(s, p, st, k).next.is_comment(),
    ensures
        reaches(s, p, step(s, p, st, k).next, k + step(s, p, st, k).consumed),
        output_before(s, p, k + step(s, p, st, k).consumed) == output_before(s, p, k),
{
    lemma_scan_extend(s, p, ScannerState::Normal, 0, st, k);
    assert(output_before(s, p, k) + Seq::<char>::empty() =~= output_before(s, p, k));
}

/// As long as nothing ends a comment, the scanner stays inside it and the
/// buffer stays as it was when the comment began.
pub proof fn law_comment_body_elided(
    s: Seq<char>,
    p: ProfileView,
    st: ScannerState,
    k: int,
    m: int,
)
    requires
        reaches(s, p, st, k),
        k <= m <= s.len(),
        forall|j: int| k <= j < m ==> stays_in_comment(s, p, st, j),
    ensures
        reaches(s, p, st, m),
        output_before(s, p, m) == output_before(s, p, k),
        scan_output(s, p) == output_before(s, p, k) + scan_from(s, p, st, m),
    decreases m - k,
{
    if k < m {
        law_comment_body_elided(s, p, st, k, m - 1);
        assert(stays_in_comment(s, p, st, m - 1));
        law_comment_step_silent(s, p, st, m - 1);
    }
    lemma_scan_split(s, p, ScannerState::Normal, 0, st, m);
}

/// A comment leaves nothing in the buffer: neither the token that opens it,
/// nor what it holds, nor what ends it.
pub proof fn law_comment_elided(s: Seq<char>, p: ProfileView, k: int, e: int)
    requires
        reaches(s, p, ScannerState::Normal, k),
        k < s.len(),
        step(s, p, ScannerState::Normal, k).next.is_comment(),
        k + step(s, p, ScannerState::Normal, k).consumed <= e <= s.len(),
        forall|j: int|
            k + step(s, p, ScannerState::Normal, k).consumed <= j < e ==> stays_in_comment(
                s,
                p,
                step(s, p, ScannerState::Normal, k).next,
                j,
            ),
    ensures
        reaches(s, p, step(s, p, ScannerState::Normal, k).next, e),
        output_before(s, p, e) == output_before(s, p, k),
        e < s.len() && !stays_in_comment(s, p, step(s, p, ScannerState::Normal, k).next, e) ==> {
            let end = step(s, p, step(s, p, ScannerState::Normal, k).next, e);
            &&& end.next == ScannerState::Normal
            &&& reaches(s, p, ScannerState::Normal, e + end.consumed)
            &&& output_before(s, p, e + end.consumed) == output_before(s, p, k)
            &&& scan_output(s, p) == output_before(s, p, k) + scan_from(
                s,
                p,
                ScannerState::Normal,
                e + end.consumed,
            )
        },
        e == s.len() ==> scan_output(s, p) == output_before(s, p, k),
{
    let open = step(s, p, ScannerState::Normal, k);
    let st = open.next;
    law_comment_step_silent(s, p, ScannerState::Normal, k);
    law_comment_body_elided(s, p, st, k + open.consumed, e);
    if e < s.len() {
        if !stays_in_comment(s, p, st, e) {
            let end = step(s, p, st, e);
            law_comment_step_silent(s, p, st, e);
            lemma_scan_split(s, p, ScannerState::Normal, 0, ScannerState::Normal, e + end.consumed);
        }
    } else {
        assert(output_before(s, p, k) + Seq::<char>::empty() =~= output_before(s, p, k));
    }
}

/// On a text of one line, a scan that never enters a comment copies the text.
pub proof fn lemma_comment_free_scan(s: Seq<char>, p: ProfileView, st: ScannerState, i: int)
    requires
        is_single_line(s),
        0 <= i <= s.len(),
        comment_free_from(s, p, st, i),
        !st.is_comment(),
    ensures
        scan_from(s, p, st, i) == s.subrange(i, s.len() as int),
    decreases s.len() - i,
{
    if i < s.len() {
        let t = step(s, p, st, i);
        lemma_step_bounds(s, p, st, i);
        assert(!is_line_break(s[i]));
        lemma_comment_free_scan(s, p, t.next, i + t.consumed);
        assert(t.emitted =~= s.subrange(i, i + t.consumed));
        assert(s.subrange(i, i + t.consumed) + s.subrange(i + t.consumed, s.len() as int)
            =~= s.subrange(i, s.len() as int));
    } else {
        assert(s.subrange(i, s.len() as int) =~= Seq::<char>::empty());
    }
}

/// On a text of one line the buffer is never longer than the text, and has
/// the length of the text only where the scan never enters a comment.
pub proof fn lemma_scan_len(s: Seq<char>, p: ProfileView, st: ScannerState, i: int)
    requires
        is_single_line(s),
        0 <= i <= s.len(),
    ensures
        scan_from(s, p, st, i).len() <= s.len() - i,
        scan_from(s, p, st, i).len() == s.len() - i ==> comment_free_from(s, p, st, i) && (
        st.is_comment() ==> i == s.len()),
    decreases s.len() - i,
{
    if i < s.len() {
        let t = step(s, p, st, i);
        lemma_step_bounds(s, p, st, i);
        assert(!is_line_break(s[i]));
        lemma_scan_len(s, p, t.next, i + t.consumed);
        assert(t.emitted.len() <= t.consumed);
    }
}

/// The texts that minification leaves as they are are the collapsed texts in
/// which the scan finds no comment.
pub proof fn law_fixpoint(y: Seq<char>, p: ProfileView)
    ensures
        minified(y, p) == y <==> is_collapsed(y) && is_comment_free(y, p),
{
    lemma_collapse_is_collapsed(scan_output(y, p));
    if is_collapsed(y) {
        lemma_collapsed_is_single_line(y);
        lemma_scan_len(y, p, ScannerState::Normal, 0);
        lemma_collapse_len(scan_output(y, p));
        if is_comment_free(y, p) {
            lemma_comment_free_scan(y, p, ScannerState::Normal, 0);
            assert(y.subrange(0, y.len() as int) =~= y);
            lemma_collapse_fixpoint(y);
        }
    }
}

/// Minifying a minified text once more changes nothing exactly when the scan
/// finds no comment in the minified text.
pub proof fn law_idempotent(x: Seq<char>, p: ProfileView)
    ensures
        minified(minified(x, p), p) == minified(x, p) <==> is_comment_free(minified(x, p), p),
{
    lemma_collapse_is_collapsed(scan_output(x, p));
    law_fixpoint(minified(x, p), p);
}

} // verus!
