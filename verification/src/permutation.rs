//! Wiring tables as mathematics: permutations of `0..26`, their inverses,
//! and the lookup that a rotated wheel performs.

use vstd::prelude::*;
use vstd::set_lib::*;

verus! {

/// Whether `t` has one entry for each of the twenty-six positions, each
/// entry itself a position.
pub open spec fn is_table(t: Seq<int>) -> bool {
    &&& t.len() == 26
    &&& forall|i: int| 0 <= i < 26 ==> 0 <= #[trigger] t[i] < 26
}

/// Whether `t` is a table in which no value occurs twice.
pub open spec fn is_permutation(t: Seq<int>) -> bool {
    &&& is_table(t)
    &&& forall|i: int, j: int| 0 <= i < j < 26 ==> #[trigger] t[i] != #[trigger] t[j]
}

/// Whether looking a position up twice in `t` leads back to it.
pub open spec fn is_involution(t: Seq<int>) -> bool {
    forall|i: int| 0 <= i < 26 ==> t[#[trigger] t[i]] == i
}

/// Whether `t` maps some position to itself.
pub open spec fn has_fixed_point(t: Seq<int>) -> bool {
    exists|i: int| 0 <= i < 26 && #[trigger] t[i] == i
}

/// Whether `t` splits the positions into thirteen pairs that it swaps.
pub open spec fn is_pairing(t: Seq<int>) -> bool {
    is_involution(t) && !has_fixed_point(t)
}

/// The table that leads from each value of `t` back to where it stands.
pub open spec fn inverse_table(t: Seq<int>) -> Seq<int> {
    Seq::new(26, |x: int| choose|i: int| 0 <= i < 26 && t[i] == x)
}

/// What comes out of a wheel wired as `t` and turned by `offset` when the
/// signal enters at `c`: the entry is shifted by the offset, the wiring is
/// followed, and the exit is shifted back.
pub open spec fn shift_through(t: Seq<int>, offset: int, c: int) -> int {
    (t[(c + offset) % 26] + 26 - offset) % 26
}

/// A permutation reaches every position.
pub proof fn lemma_permutation_onto(t: Seq<int>, x: int)
    requires
        is_permutation(t),
        0 <= x < 26,
    ensures
        exists|i: int| 0 <= i < 26 && t[i] == x,
{
    assert(t.no_duplicates());
    t.unique_seq_to_set();
    lemma_int_range(0, 26);
    let reached = t.to_set();
    let all = set_int_range(0, 26);
    assert forall|v: int| reached.contains(v) implies all.contains(v) by {
        let i = choose|i: int| 0 <= i < t.len() && t[i] == v;
        assert(0 <= t[i] < 26);
    }
    lemma_subset_equality(reached, all);
    assert(all.contains(x));
    assert(reached.contains(x));
}

/// The inverse of a permutation is a permutation, and each of the two
/// undoes the other.
pub proof fn lemma_inverse_table(t: Seq<int>)
    requires
        is_permutation(t),
    ensures
        is_permutation(inverse_table(t)),
        forall|x: int| 0 <= x < 26 ==> t[#[trigger] inverse_table(t)[x]] == x,
        forall|i: int| 0 <= i < 26 ==> inverse_table(t)[#[trigger] t[i]] == i,
{
    let inv = inverse_table(t);
    assert forall|x: int| 0 <= x < 26 implies 0 <= #[trigger] inv[x] < 26 && t[inv[x]] == x by {
        lemma_permutation_onto(t, x);
    }
    assert forall|i: int| 0 <= i < 26 implies inv[#[trigger] t[i]] == i by {
        let x = t[i];
        let back = inv[x];
        assert(t[back] == x);
        if back < i {
            assert(t[back] != t[i]);
        } else if i < back {
            assert(t[i] != t[back]);
        }
    }
    assert forall|x: int, y: int| 0 <= x < y < 26 implies #[trigger] inv[x] != #[trigger] inv[y] by {
        assert(t[inv[x]] == x);
        assert(t[inv[y]] == y);
    }
}

/// A table that undoes a permutation on one side is its inverse.
pub proof fn lemma_inverse_unique(t: Seq<int>, inv: Seq<int>)
    requires
        is_permutation(t),
        inv.len() == 26,
        forall|i: int| 0 <= i < 26 ==> inv[#[trigger] t[i]] == i,
    ensures
        inv == inverse_table(t),
{
    lemma_inverse_table(t);
    let expected = inverse_table(t);
    assert forall|x: int| 0 <= x < 26 implies inv[x] == expected[x] by {
        let i = expected[x];
        assert(t[i] == x);
        assert(inv[t[i]] == i);
    }
    assert(inv =~= expected);
}

/// Shifting a position back by `offset` and forth again, or forth and back,
/// leaves it where it was.
pub proof fn lemma_shift_cancels(offset: int, c: int)
    requires
        0 <= offset < 26,
        0 <= c < 26,
    ensures
        0 <= (c + offset) % 26 < 26,
        0 <= (c + 26 - offset) % 26 < 26,
        ((c + 26 - offset) % 26 + offset) % 26 == c,
        ((c + offset) % 26 + 26 - offset) % 26 == c,
{
    if c + offset >= 26 {
        assert((c + offset) % 26 == c + offset - 26);
    } else {
        assert((c + offset) % 26 == c + offset);
    }
    if c >= offset {
        assert((c + 26 - offset) % 26 == c - offset);
    } else {
        assert((c + 26 - offset) % 26 == c + 26 - offset);
    }
}

/// A wheel turned by `offset` and wired as the inverse of `t` undoes the
/// wheel turned alike and wired as `t`, and the other way round.
pub proof fn lemma_shift_round_trip(t: Seq<int>, offset: int, c: int)
    requires
        is_permutation(t),
        0 <= offset < 26,
        0 <= c < 26,
    ensures
        0 <= shift_through(t, offset, c) < 26,
        0 <= shift_through(inverse_table(t), offset, c) < 26,
        shift_through(inverse_table(t), offset, shift_through(t, offset, c)) == c,
        shift_through(t, offset, shift_through(inverse_table(t), offset, c)) == c,
{
    lemma_inverse_table(t);
    let inv = inverse_table(t);
    let entry = (c + offset) % 26;
    lemma_shift_cancels(offset, c);
    let wired = t[entry];
    let unwired = inv[entry];
    assert(0 <= wired < 26);
    assert(0 <= unwired < 26);
    lemma_shift_cancels(offset, wired);
    lemma_shift_cancels(offset, unwired);
    assert(inv[wired] == entry);
    assert(t[unwired] == entry);
}

} // verus!
