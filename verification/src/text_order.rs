//! The order in which names are written out: byte by byte over their UTF-8
//! encoding, a shorter name before any name that it begins.

use vstd::prelude::*;
use vstd::relations::{sorted_by, total_ordering};
use vstd::seq_lib::lemma_sorted_unique;
use vstd::string::*;
use vstd::utf8::{encode_utf8, encode_utf8_decode_utf8};
use crate::ordered_map::OrderedMap;

verus! {

/// `a` comes no later than `b` in the lexicographic order of bytes.
pub open spec fn bytes_leq(a: Seq<u8>, b: Seq<u8>) -> bool
    decreases a.len(),
{
    if a.len() == 0 {
        true
    } else if b.len() == 0 {
        false
    } else if a[0] != b[0] {
        a[0] < b[0]
    } else {
        bytes_leq(a.drop_first(), b.drop_first())
    }
}

/// `a` comes no later than `b` in the byte order of their UTF-8 encodings.
pub open spec fn text_leq(a: Seq<char>, b: Seq<char>) -> bool {
    bytes_leq(encode_utf8(a), encode_utf8(b))
}

/// [`text_leq`] as a relation.
pub open spec fn text_order() -> spec_fn(Seq<char>, Seq<char>) -> bool {
    |a: Seq<char>, b: Seq<char>| text_leq(a, b)
}

pub proof fn lemma_bytes_leq_reflexive(a: Seq<u8>)
    ensures
        bytes_leq(a, a),
    decreases a.len(),
{
    if a.len() > 0 {
        lemma_bytes_leq_reflexive(a.drop_first());
    }
}

pub proof fn lemma_bytes_leq_antisymmetric(a: Seq<u8>, b: Seq<u8>)
    requires
        bytes_leq(a, b),
        bytes_leq(b, a),
    ensures
        a == b,
    decreases a.len(),
{
    if a.len() == 0 {
        assert(b.len() == 0);
        assert(a =~= b);
    } else {
        lemma_bytes_leq_antisymmetric(a.drop_first(), b.drop_first());
        assert(a =~= seq![a[0]] + a.drop_first());
        assert(b =~= seq![b[0]] + b.drop_first());
    }
}

pub proof fn lemma_bytes_leq_transitive(a: Seq<u8>, b: Seq<u8>, c: Seq<u8>)
    requires
        bytes_leq(a, b),
        bytes_leq(b, c),
    ensures
        bytes_leq(a, c),
    decreases a.len(),
{
    if a.len() > 0 && a[0] == b[0] && b[0] == c[0] {
        lemma_bytes_leq_transitive(a.drop_first(), b.drop_first(), c.drop_first());
    }
}

pub proof fn lemma_bytes_leq_total(a: Seq<u8>, b: Seq<u8>)
    ensures
        bytes_leq(a, b) || bytes_leq(b, a),
    decreases a.len(),
{
    if a.len() > 0 && b.len() > 0 && a[0] == b[0] {
        lemma_bytes_leq_total(a.drop_first(), b.drop_first());
    }
}

/// The order of names is total: any two names compare, and two names that
/// come no later than each other are the same name.
pub proof fn lemma_text_order_total()
    ensures
        total_ordering(text_order()),
{
    let r = text_order();
    assert forall|x: Seq<char>| #[trigger] r(x, x) by {
        lemma_bytes_leq_reflexive(encode_utf8(x));
    }
    assert forall|x: Seq<char>, y: Seq<char>| #[trigger] r(x, y) && #[trigger] r(y, x) implies x
        == y by {
        lemma_bytes_leq_antisymmetric(encode_utf8(x), encode_utf8(y));
        encode_utf8_decode_utf8(x);
        encode_utf8_decode_utf8(y);
    }
    assert forall|x: Seq<char>, y: Seq<char>, z: Seq<char>| #[trigger]
        r(x, y) && #[trigger] r(y, z) implies r(x, z) by {
        lemma_bytes_leq_transitive(encode_utf8(x), encode_utf8(y), encode_utf8(z));
    }
    assert forall|x: Seq<char>, y: Seq<char>| #[trigger] r(x, y) || #[trigger] r(y, x) by {
        lemma_bytes_leq_total(encode_utf8(x), encode_utf8(y));
    }
}

/// Whether `a` comes no later than `b`.
pub fn text_le(a: &str, b: &str) -> (r: bool)
    ensures
        r == text_leq(a@, b@),
{
    let x = a.as_bytes();
    let y = b.as_bytes();
    let mut i: usize = 0;
    assert(x@.skip(0) == x@);
    assert(y@.skip(0) == y@);
    while i < x.len() && i < y.len()
        invariant
            x@ == encode_utf8(a@),
            y@ == encode_utf8(b@),
            i <= x.len(),
            i <= y.len(),
            bytes_leq(x@, y@) == bytes_leq(x@.skip(i as int), y@.skip(i as int)),
        decreases x.len() - i,
    {
        assert(x@.skip(i as int).drop_first() == x@.skip(i + 1));
        assert(y@.skip(i as int).drop_first() == y@.skip(i + 1));
        assert(x@.skip(i as int)[0] == x@[i as int]);
        assert(y@.skip(i as int)[0] == y@[i as int]);
        if x[i] != y[i] {
            return x[i] < y[i];
        }
        i = i + 1;
    }
    i == x.len()
}

/// The names of `keys` in ascending order.
pub open spec fn sorted_names(keys: Seq<Seq<char>>) -> Seq<Seq<char>> {
    keys.sort_by(text_order())
}

/// The names that stand in `keys` at the positions `order`, in that order.
pub open spec fn names_at(keys: Seq<Seq<char>>, order: Seq<usize>) -> Seq<Seq<char>> {
    Seq::new(order.len(), |i: int| keys[order[i] as int])
}

/// Putting `x` into a sequence adds one `x` to what the sequence holds.
proof fn lemma_insert_to_multiset(s: Seq<Seq<char>>, p: int, x: Seq<char>)
    requires
        0 <= p <= s.len(),
    ensures
        s.insert(p, x).to_multiset() == s.to_multiset().insert(x),
{
    broadcast use vstd::seq_lib::group_to_multiset_ensures;
    broadcast use vstd::multiset::group_multiset_axioms;

    let t = s.insert(p, x);
    assert(t.remove(p) =~= s);
    assert(t[p] == x);
    assert(t.remove(p).to_multiset() =~= t.to_multiset().remove(x));
    assert(t.contains(x));
    assert(t.to_multiset() =~= s.to_multiset().insert(x));
}

/// The positions of the entries of `map`, ordered by the names that stand at
/// them: the first position is that of the least name.
pub fn sorted_positions<V>(map: &OrderedMap<V>) -> (order: Vec<usize>)
    ensures
        map.wf(),
        order@.len() == map.keys().len(),
        forall|i: int| 0 <= i < order@.len() ==> order@[i] < map.keys().len(),
        names_at(map.keys(), order@) == sorted_names(map.keys()),
{
    let n = map.len();
    let ghost keys = map.keys();
    let mut order: Vec<usize> = Vec::new();
    let mut k: usize = 0;
    proof {
        lemma_text_order_total();
        assert(keys.take(0) =~= Seq::<Seq<char>>::empty());
        assert(names_at(keys, order@) =~= Seq::<Seq<char>>::empty());
    }
    while k < n
        invariant
            map.wf(),
            keys == map.keys(),
            n == keys.len(),
            k <= n,
            order@.len() == k,
            forall|i: int| 0 <= i < order@.len() ==> order@[i] < keys.len(),
            sorted_by(names_at(keys, order@), text_order()),
            names_at(keys, order@).to_multiset() == keys.take(k as int).to_multiset(),
            total_ordering(text_order()),
        decreases n - k,
    {
        let ghost picked = names_at(keys, order@);
        let new_name = match map.get_index(k) {
            Some((name, _)) => name,
            None => {
                assert(false);
                return order;
            },
        };
        let mut p: usize = 0;
        let mut found = false;
        while p < order.len() && !found
            invariant
                map.wf(),
                keys == map.keys(),
                k < keys.len(),
                new_name@ == keys[k as int],
                p <= order@.len(),
                picked == names_at(keys, order@),
                forall|i: int| 0 <= i < order@.len() ==> order@[i] < keys.len(),
                forall|q: int| 0 <= q < p ==> text_leq(#[trigger] picked[q], new_name@),
                found ==> p < order@.len() && !text_leq(picked[p as int], new_name@),
            decreases order@.len() - p + (if found { 0int } else { 1int }),
        {
            let at = match map.get_index(order[p]) {
                Some((name, _)) => name,
                None => {
                    assert(false);
                    return order;
                },
            };
            assert(at@ == picked[p as int]);
            if text_le(at.as_str(), new_name.as_str()) {
                p = p + 1;
            } else {
                found = true;
            }
        }
        order.insert(p, k);
        proof {
            let x = keys[k as int];
            let grown = names_at(keys, order@);
            assert(grown =~= picked.insert(p as int, x));
            lemma_insert_to_multiset(picked, p as int, x);
            assert(keys.take(k + 1) =~= keys.take(k as int).push(x));
            broadcast use vstd::seq_lib::group_to_multiset_ensures;

            assert(keys.take(k + 1).to_multiset() =~= keys.take(k as int).to_multiset().insert(x));
            let r = text_order();
            assert forall|i: int, j: int| 0 <= i < j < grown.len() implies #[trigger] r(
                grown[i],
                grown[j],
            ) by {
                if j < p {
                    assert(r(picked[i], picked[j]));
                } else if j == p {
                    assert(text_leq(picked[i], x));
                } else if i == p {
                    // What follows the new name is no earlier than the entry at `p`,
                    // which the new name comes before.
                    assert(!text_leq(picked[p as int], x));
                    assert(r(picked[p as int], x) || r(x, picked[p as int]));
                    if j - 1 > p {
                        assert(r(picked[p as int], picked[j - 1]));
                        assert(r(x, picked[p as int]) && r(picked[p as int], picked[j - 1]));
                    }
                } else if i < p {
                    assert(r(picked[i], picked[j - 1]));
                } else {
                    assert(r(picked[i - 1], picked[j - 1]));
                }
            }
        }
        k = k + 1;
    }
    proof {
        assert(keys.take(n as int) =~= keys);
        keys.lemma_sort_by_ensures(text_order());
        lemma_sorted_unique(names_at(keys, order@), sorted_names(keys), text_order());
    }
    order
}

} // verus!
