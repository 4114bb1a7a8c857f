//! The positions that a scan passes through, and what it has emitted when it
//! stands at one of them.

use crate::profile::ProfileView;
use crate::scanner::{end_from, lemma_step_bounds, scan_from, step, ScannerState};
use vstd::prelude::*;

verus! {

/// Whether a scan that stands in state `st` at position `i` later stands in
/// state `st2` at position `k`.
pub open spec fn stands_at(
    s: Seq<char>,
    p: ProfileView,
    st: ScannerState,
    i: int,
    st2: ScannerState,
    k: int,
) -> bool
    decreases s.len() - i,
{
    if i == k {
        st == st2
    } else if 0 <= i < k && i < s.len() {
        let t = step(s, p, st, i);
        t.consumed >= 1 && stands_at(s, p, t.next, i + t.consumed, st2, k)
    } else {
        false
    }
}

/// What a scan that stands in state `st` at position `i` emits in the steps
/// that begin before position `k`.
pub open spec fn emitted_before(
    s: Seq<char>,
    p: ProfileView,
    st: ScannerState,
    i: int,
    k: int,
) -> Seq<char>
    decreases s.len() - i,
{
    if 0 <= i < k && i < s.len() {
        let t = step(s, p, st, i);
        if t.consumed >= 1 {
            t.emitted + emitted_before(s, p, t.next, i + t.consumed, k)
        } else {
            Seq::empty()
        }
    } else {
        Seq::empty()
    }
}

/// Whether a scan of the whole of `s` stands in state `st` at position `k`.
pub open spec fn reaches(s: Seq<char>, p: ProfileView, st: ScannerState, k: int) -> bool {
    stands_at(s, p, ScannerState::Normal, 0, st, k)
}

/// What a scan of the whole of `s` has emitted when it comes to position `k`.
pub open spec fn output_before(s: Seq<char>, p: ProfileView, k: int) -> Seq<char> {
    emitted_before(s, p, ScannerState::Normal, 0, k)
}

/// A scan is what it emits before a position where it stands, followed by the
/// scan from there.
pub proof fn lemma_scan_split(
    s: Seq<char>,
    p: ProfileView,
    st: ScannerState,
    i: int,
    st2: ScannerState,
    k: int,
)
    requires
        0 <= i <= s.len(),
        stands_at(s, p, st, i, st2, k),
    ensures
        i <= k <= s.len(),
        scan_from(s, p, st, i) == emitted_before(s, p, st, i, k) + scan_from(s, p, st2, k),
        end_from(s, p, st, i) == end_from(s, p, st2, k),
    decreases s.len() - i,
{
    if i == k {
        assert(Seq::<char>::empty() + scan_from(s, p, st2, k) =~= scan_from(s, p, st2, k));
    } else {
        let t = step(s, p, st, i);
        lemma_step_bounds(s, p, st, i);
        lemma_scan_split(s, p, t.next, i + t.consumed, st2, k);
        assert(t.emitted + (emitted_before(s, p, t.next, i + t.consumed, k) + scan_from(
            s,
            p,
            st2,
            k,
        )) =~= (t.emitted + emitted_before(s, p, t.next, i + t.consumed, k)) + scan_from(
            s,
            p,
            st2,
            k,
        ));
    }
}

/// A scan that stands at a position inside the text stands, one step later,
/// where that step leads, and has emitted what the step emits in addition.
pub proof fn lemma_scan_extend(
    s: Seq<char>,
    p: ProfileView,
    st: ScannerState,
    i: int,
    st2: ScannerState,
    k: int,
)
    requires
        0 <= i <= s.len(),
        stands_at(s, p, st, i, st2, k),
        k < s.len(),
    ensures
        stands_at(s, p, st, i, step(s, p, st2, k).next, k + step(s, p, st2, k).consumed),
        emitted_before(s, p, st, i, k + step(s, p, st2, k).consumed) == emitted_before(
            s,
            p,
            st,
            i,
            k,
        ) + step(s, p, st2, k).emitted,
    decreases s.len() - i,
{
    let u = step(s, p, st2, k);
    lemma_step_bounds(s, p, st2, k);
    let k2 = k + u.consumed;
    if i == k {
        assert(stands_at(s, p, u.next, k2, u.next, k2));
        assert(emitted_before(s, p, u.next, k2, k2) =~= Seq::<char>::empty());
        assert(emitted_before(s, p, st, i, k) =~= Seq::<char>::empty());
        assert(emitted_before(s, p, st, i, k2) =~= Seq::<char>::empty() + u.emitted);
    } else {
        let t = step(s, p, st, i);
        lemma_step_bounds(s, p, st, i);
        lemma_scan_split(s, p, t.next, i + t.consumed, st2, k);
        lemma_scan_extend(s, p, t.next, i + t.consumed, st2, k);
        assert(t.emitted + (emitted_before(s, p, t.next, i + t.consumed, k) + u.emitted) =~= (
        t.emitted + emitted_before(s, p, t.next, i + t.consumed, k)) + u.emitted);
    }
}

} // verus!
