//! Rearrangements of a sequence: moving the first item to the end, rotation,
//! reinserting a packet, interleaving two packets. Each comes with the facts
//! about length and contents that the deck's shuffles rely on.

use vstd::prelude::*;
use vstd::seq_lib::*;

verus! {

/// The sequence with its first item moved to the end.
pub open spec fn first_to_end<T>(s: Seq<T>) -> Seq<T> {
    if s.len() == 0 {
        s
    } else {
        s.drop_first().push(s[0])
    }
}

/// The sequence after its first item was moved to the end `moves` times in a row.
pub open spec fn cycled<T>(s: Seq<T>, moves: nat) -> Seq<T>
    decreases moves,
{
    if moves == 0 {
        s
    } else {
        first_to_end(cycled(s, (moves - 1) as nat))
    }
}

/// The sequence rotated by `k`: the items from `k` on, then the first `k`.
pub open spec fn rotated<T>(s: Seq<T>, k: int) -> Seq<T>
    recommends
        0 <= k <= s.len(),
{
    s.subrange(k, s.len() as int) + s.subrange(0, k)
}

/// The sequence with its last `cut` items taken out as one packet and put
/// back, in their order, before position `at` of what was left.
pub open spec fn stripped<T>(s: Seq<T>, cut: int, at: int) -> Seq<T>
    recommends
        0 <= cut <= s.len(),
        0 <= at <= s.len() - cut,
{
    s.subrange(0, at) + s.subrange(s.len() - cut, s.len() as int) + s.subrange(
        at,
        s.len() - cut,
    )
}

/// The items of `a` and `b` in turn, starting with `a`; once one of the two
/// is used up, the rest of the other follows in its order.
pub open spec fn interleaved<T>(a: Seq<T>, b: Seq<T>) -> Seq<T>
    decreases a.len() + b.len(),
{
    if a.len() == 0 {
        b
    } else {
        seq![a[0]] + interleaved(b, a.drop_first())
    }
}

/// Moving the first item to the end keeps the length and the contents.
pub proof fn lemma_first_to_end_keeps<T>(s: Seq<T>)
    ensures
        first_to_end(s).len() == s.len(),
        first_to_end(s).to_multiset() == s.to_multiset(),
{
    if s.len() > 0 {
        assert(s =~= seq![s[0]] + s.drop_first());
        assert(first_to_end(s) =~= s.drop_first() + seq![s[0]]);
        lemma_seq_union_to_multiset_commutative(seq![s[0]], s.drop_first());
    }
}

/// Repeated moves of the first item to the end keep the length and the contents.
pub proof fn lemma_cycled_keeps<T>(s: Seq<T>, moves: nat)
    ensures
        cycled(s, moves).len() == s.len(),
        cycled(s, moves).to_multiset() == s.to_multiset(),
    decreases moves,
{
    if moves > 0 {
        lemma_cycled_keeps(s, (moves - 1) as nat);
        lemma_first_to_end_keeps(cycled(s, (moves - 1) as nat));
    }
}

/// Moving the first item to the end `k` times, for `k` up to the length, is
/// the rotation by `k`.
pub proof fn lemma_cycled_is_rotated<T>(s: Seq<T>, k: nat)
    requires
        k <= s.len(),
    ensures
        cycled(s, k) == rotated(s, k as int),
    decreases k,
{
    if k == 0 {
        assert(rotated(s, 0) =~= s);
    } else {
        lemma_cycled_is_rotated(s, (k - 1) as nat);
        let r = rotated(s, k - 1);
        assert(r.len() == s.len());
        assert(r[0] == s[k - 1]);
        assert(first_to_end(r) =~= rotated(s, k as int));
    }
}

/// A rotation keeps the length and the contents.
pub proof fn lemma_rotated_keeps<T>(s: Seq<T>, k: int)
    requires
        0 <= k <= s.len(),
    ensures
        rotated(s, k).len() == s.len(),
        rotated(s, k).to_multiset() == s.to_multiset(),
{
    let front = s.subrange(0, k);
    let back = s.subrange(k, s.len() as int);
    assert(s =~= front + back);
    lemma_seq_union_to_multiset_commutative(front, back);
}

/// Reinserting a packet keeps the length and the contents.
pub proof fn lemma_stripped_keeps<T>(s: Seq<T>, cut: int, at: int)
    requires
        0 <= cut <= s.len(),
        0 <= at <= s.len() - cut,
    ensures
        stripped(s, cut, at).len() == s.len(),
        stripped(s, cut, at).to_multiset() == s.to_multiset(),
{
    let head = s.subrange(0, at);
    let tail = s.subrange(at, s.len() - cut);
    let packet = s.subrange(s.len() - cut, s.len() as int);
    assert(s =~= head + (tail + packet));
    assert(stripped(s, cut, at) =~= head + (packet + tail));
    lemma_multiset_commutative(head, tail + packet);
    lemma_multiset_commutative(head, packet + tail);
    lemma_seq_union_to_multiset_commutative(tail, packet);
}

/// Interleaving yields as many items as the two packets hold together.
pub proof fn lemma_interleaved_len<T>(a: Seq<T>, b: Seq<T>)
    ensures
        interleaved(a, b).len() == a.len() + b.len(),
    decreases a.len() + b.len(),
{
    if a.len() > 0 {
        lemma_interleaved_len(b, a.drop_first());
    }
}

/// Interleaving yields exactly the items of the two packets.
pub proof fn lemma_interleaved_contents<T>(a: Seq<T>, b: Seq<T>)
    ensures
        interleaved(a, b).to_multiset() == a.to_multiset().add(b.to_multiset()),
        interleaved(a, b).to_multiset() == (a + b).to_multiset(),
    decreases a.len() + b.len(),
{
    broadcast use vstd::multiset::group_multiset_axioms;

    lemma_multiset_commutative(a, b);
    if a.len() == 0 {
        assert(a + b =~= b);
        assert(a.to_multiset().add(b.to_multiset()) =~= (a + b).to_multiset());
    } else {
        let rest = interleaved(b, a.drop_first());
        lemma_interleaved_contents(b, a.drop_first());
        lemma_multiset_commutative(seq![a[0]], rest);
        lemma_multiset_commutative(seq![a[0]], a.drop_first());
        assert(a =~= seq![a[0]] + a.drop_first());
        assert(interleaved(a, b).to_multiset() =~= a.to_multiset().add(b.to_multiset()));
    }
}

/// Each packet keeps its own order inside the interleaving, item by item:
/// mapping every item commutes with interleaving.
pub proof fn lemma_interleaved_map<T, U>(a: Seq<T>, b: Seq<T>, f: spec_fn(T) -> U)
    ensures
        interleaved(a, b).map_values(f) == interleaved(a.map_values(f), b.map_values(f)),
    decreases a.len() + b.len(),
{
    if a.len() == 0 {
        assert(a.map_values(f).len() == 0);
    } else {
        lemma_interleaved_map(b, a.drop_first(), f);
        assert(a.map_values(f).drop_first() =~= a.drop_first().map_values(f));
        assert(interleaved(a, b).map_values(f) =~= seq![f(a[0])] + interleaved(
            b,
            a.drop_first(),
        ).map_values(f));
    }
}

/// Two sequences with the same items have the same items after every item
/// was mapped by one function.
pub proof fn lemma_map_keeps_contents<T, U>(a: Seq<T>, b: Seq<T>, f: spec_fn(T) -> U)
    requires
        a.to_multiset() == b.to_multiset(),
    ensures
        a.map_values(f).to_multiset() == b.map_values(f).to_multiset(),
    decreases a.len(),
{
    broadcast use group_to_multiset_ensures;

    to_multiset_len(a);
    to_multiset_len(b);
    if a.len() == 0 {
        assert(a.map_values(f) =~= b.map_values(f));
    } else {
        let last = a.last();
        assert(a.contains(last));
        to_multiset_contains(a, last);
        to_multiset_contains(b, last);
        let j = choose|j: int| 0 <= j < b.len() && b[j] == last;
        let a_rest = a.drop_last();
        let b_rest = b.remove(j);
        assert(a =~= a_rest.push(last));
        assert(a_rest.to_multiset() =~= a.to_multiset().remove(last)) by {
            assert(a_rest =~= a.remove(a.len() - 1));
        }
        assert(a_rest.to_multiset() == b_rest.to_multiset());
        lemma_map_keeps_contents(a_rest, b_rest, f);
        let fa = a.map_values(f);
        let fb = b.map_values(f);
        assert(fa =~= a_rest.map_values(f).push(f(last)));
        assert(fb.remove(j) =~= b_rest.map_values(f));
        assert(fb[j] == f(last));
        assert(fb.to_multiset() =~= fb.remove(j).to_multiset().insert(f(last))) by {
            assert(fb.contains(fb[j]));
        }
    }
}

} // verus!
