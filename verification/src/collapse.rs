//! The whitespace-collapse pass: every maximal run of whitespace becomes one
//! space, and whitespace at either end disappears.

use crate::text::{char_is_whitespace, is_whitespace};
use vstd::prelude::*;

verus! {

/// The collapsed form of `b`: its whitespace-free runs, in order, joined by
/// single spaces.
pub open spec fn collapse(b: Seq<char>) -> Seq<char>
    decreases b.len(),
{
    if b.len() == 0 {
        Seq::empty()
    } else if is_whitespace(b.last()) {
        collapse(b.drop_last())
    } else if b.len() >= 2 && is_whitespace(b[b.len() - 2]) && collapse(b.drop_last()).len() > 0 {
        collapse(b.drop_last()).push(' ').push(b.last())
    } else {
        collapse(b.drop_last()).push(b.last())
    }
}

/// A text is collapsed when its only whitespace is the space character, and
/// every space stands alone between two characters that are not whitespace.
pub open spec fn is_collapsed(y: Seq<char>) -> bool {
    forall|i: int|
        0 <= i < y.len() && is_whitespace(#[trigger] y[i]) ==> {
            &&& y[i] == ' '
            &&& 0 < i
            &&& i + 1 < y.len()
            &&& !is_whitespace(y[i + 1])
        }
}

/// Whether no character of `w` is whitespace.
pub open spec fn no_whitespace(w: Seq<char>) -> bool {
    forall|i: int| 0 <= i < w.len() ==> !is_whitespace(#[trigger] w[i])
}

/// Whether `w` occurs in `y` as a block of adjacent characters.
pub open spec fn occurs_in(w: Seq<char>, y: Seq<char>) -> bool {
    exists|k: int| 0 <= k && k + w.len() <= y.len() && #[trigger] y.subrange(k, k + w.len()) == w
}

/// What `collapse` returns is collapsed.
pub proof fn lemma_collapse_is_collapsed(b: Seq<char>)
    ensures
        is_collapsed(collapse(b)),
    decreases b.len(),
{
    if b.len() > 0 {
        let r = collapse(b.drop_last());
        lemma_collapse_is_collapsed(b.drop_last());
        if !is_whitespace(b.last()) {
            let y = collapse(b);
            if r.len() > 0 {
                assert(!is_whitespace(r[r.len() - 1]));
            }
            assert forall|i: int| 0 <= i < y.len() && is_whitespace(#[trigger] y[i]) implies {
                &&& y[i] == ' '
                &&& 0 < i
                &&& i + 1 < y.len()
                &&& !is_whitespace(y[i + 1])
            } by {
                if i < r.len() {
                    assert(y[i] == r[i]);
                    assert(i + 1 < r.len());
                    assert(y[i + 1] == r[i + 1]);
                }
            }
        }
    }
}

/// On the prefixes of a collapsed text, `collapse` removes at most one final
/// space.
pub proof fn lemma_collapse_prefix(y: Seq<char>, k: int)
    requires
        is_collapsed(y),
        0 <= k <= y.len(),
    ensures
        collapse(y.take(k)) == if k > 0 && is_whitespace(y[k - 1]) {
            y.take(k - 1)
        } else {
            y.take(k)
        },
    decreases k,
{
    if k == 0 {
        assert(y.take(0) =~= Seq::empty());
    } else {
        let t = y.take(k);
        assert(t.drop_last() =~= y.take(k - 1));
        assert(t.last() == y[k - 1]);
        lemma_collapse_prefix(y, k - 1);
        if is_whitespace(y[k - 1]) {
            assert(!is_whitespace(y[k - 2])) by {
                if is_whitespace(y[k - 2]) {
                    assert(!is_whitespace(y[k - 2 + 1]));
                }
            }
        } else if k >= 2 && is_whitespace(y[k - 2]) {
            assert(t[t.len() - 2] == y[k - 2]);
            assert(!is_whitespace(y[k - 3])) by {
                if is_whitespace(y[k - 3]) {
                    assert(!is_whitespace(y[k - 3 + 1]));
                }
            }
            assert(y.take(k - 2).len() > 0);
            assert(y.take(k - 2).push(' ').push(y[k - 1]) =~= y.take(k));
        } else {
            if k >= 2 {
                assert(t[t.len() - 2] == y[k - 2]);
            }
            assert(y.take(k - 1).push(y[k - 1]) =~= y.take(k));
        }
    }
}

/// A collapsed text is left as it is.
pub proof fn lemma_collapse_fixpoint(y: Seq<char>)
    requires
        is_collapsed(y),
    ensures
        collapse(y) == y,
{
    lemma_collapse_prefix(y, y.len() as int);
    assert(y.take(y.len() as int) =~= y);
}

/// Collapsing twice gives what collapsing once gives.
pub proof fn lemma_collapse_idempotent(b: Seq<char>)
    ensures
        collapse(collapse(b)) == collapse(b),
{
    lemma_collapse_is_collapsed(b);
    lemma_collapse_fixpoint(collapse(b));
}

/// The collapsed form is never longer than the text, and shorter where the
/// text ends in whitespace.
pub proof fn lemma_collapse_len(b: Seq<char>)
    ensures
        collapse(b).len() <= b.len(),
        b.len() > 0 && is_whitespace(b.last()) ==> collapse(b).len() < b.len(),
    decreases b.len(),
{
    if b.len() > 0 {
        lemma_collapse_len(b.drop_last());
        if b.len() >= 2 {
            assert(b.drop_last().last() == b[b.len() - 2]);
        }
    }
}

/// A whitespace-free block of the text occurs in the collapsed form as it
/// stands.
pub proof fn lemma_collapse_keeps_block(b: Seq<char>, lo: int, hi: int)
    requires
        0 <= lo < hi <= b.len(),
        no_whitespace(b.subrange(lo, hi)),
    ensures
        occurs_in(b.subrange(lo, hi), collapse(b)),
        hi == b.len() ==> collapse(b).len() >= hi - lo && collapse(b).subrange(
            collapse(b).len() - (hi - lo),
            collapse(b).len() as int,
        ) == b.subrange(lo, hi),
    decreases b.len(),
{
    let w = b.subrange(lo, hi);
    let d = b.drop_last();
    let r = collapse(d);
    let y = collapse(b);
    if hi < b.len() {
        assert(d.subrange(lo, hi) =~= w);
        lemma_collapse_keeps_block(d, lo, hi);
        let k = choose|k: int| 0 <= k && k + w.len() <= r.len() && #[trigger] r.subrange(k, k + w.len()) == w;
        assert(y.subrange(k, k + w.len()) =~= r.subrange(k, k + w.len()));
    } else {
        assert(b.last() == w[w.len() - 1]);
        assert(!is_whitespace(b.last()));
        if hi - lo == 1 {
            assert(y.subrange(y.len() - 1, y.len() as int) =~= w);
        } else {
            assert(d.subrange(lo, hi - 1) =~= w.drop_last());
            assert(no_whitespace(d.subrange(lo, hi - 1))) by {
                assert forall|i: int| 0 <= i < hi - 1 - lo implies !is_whitespace(
                    #[trigger] d.subrange(lo, hi - 1)[i],
                ) by {
                    assert(d.subrange(lo, hi - 1)[i] == w[i]);
                }
            }
            lemma_collapse_keeps_block(d, lo, hi - 1);
            assert(b[b.len() - 2] == w[w.len() - 2]);
            assert(y == r.push(b.last()));
            assert(y.subrange(y.len() - (hi - lo), y.len() as int) =~= r.subrange(
                r.len() - (hi - 1 - lo),
                r.len() as int,
            ).push(b.last()));
            assert(w.drop_last().push(b.last()) =~= w);
        }
        assert(y.subrange(y.len() - w.len(), y.len() - w.len() + w.len()) == w);
    }
}

/// Replaces every maximal run of whitespace by one space and removes the
/// whitespace at both ends.
pub fn collapse_whitespace(buf: &Vec<char>) -> (out: Vec<char>)
    ensures
        out@ == collapse(buf@),
        is_collapsed(out@),
{
    let mut out: Vec<char> = Vec::new();
    let mut i: usize = 0;
    assert(buf@.take(0) =~= Seq::empty());
    while i < buf.len()
        invariant
            i <= buf.len(),
            out@ == collapse(buf@.take(i as int)),
        decreases buf.len() - i,
    {
        let c = buf[i];
        proof {
            let t = buf@.take(i + 1);
            assert(t.drop_last() =~= buf@.take(i as int));
            assert(t.last() == c);
            if i > 0 {
                assert(t[t.len() - 2] == buf@[i - 1]);
            }
        }
        if !char_is_whitespace(c) {
            if i > 0 && char_is_whitespace(buf[i - 1]) && out.len() > 0 {
                out.push(' ');
            }
            out.push(c);
        }
        i += 1;
    }
    proof {
        assert(buf@.take(buf@.len() as int) =~= buf@);
        lemma_collapse_is_collapsed(buf@);
    }
    out
}

} // verus!
