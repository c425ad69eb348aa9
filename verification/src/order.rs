//! Strings compared byte by byte, and the order that names are listed in:
//! by their bytes, entries with equal names in the order they were
//! discovered.

use vstd::prelude::*;
use vstd::utf8::{decode_utf8, encode_utf8, encode_utf8_decode_utf8};

verus! {

/// `a` comes before `b` byte by byte: at the first position where they
/// differ `a` has the smaller byte, or `a` ends there and `b` goes on.
pub open spec fn bytes_lt(a: Seq<u8>, b: Seq<u8>) -> bool
    decreases a.len(),
{
    if b.len() == 0 {
        false
    } else if a.len() == 0 {
        true
    } else if a[0] != b[0] {
        a[0] < b[0]
    } else {
        bytes_lt(a.drop_first(), b.drop_first())
    }
}

/// The bytes that a string is ordered by: its UTF-8 encoding.
pub open spec fn sort_key(name: Seq<char>) -> Seq<u8> {
    encode_utf8(name)
}

/// No sequence of bytes comes before itself.
pub proof fn lemma_bytes_lt_irreflexive(a: Seq<u8>)
    ensures
        !bytes_lt(a, a),
    decreases a.len(),
{
    if a.len() > 0 {
        lemma_bytes_lt_irreflexive(a.drop_first());
    }
}

/// Of two different sequences of bytes one comes before the other.
pub proof fn lemma_bytes_lt_total(a: Seq<u8>, b: Seq<u8>)
    ensures
        bytes_lt(a, b) || bytes_lt(b, a) || a == b,
        !(bytes_lt(a, b) && bytes_lt(b, a)),
    decreases a.len(),
{
    if a.len() == 0 || b.len() == 0 {
        if a.len() == 0 && b.len() == 0 {
            assert(a =~= b);
        }
    } else if a[0] == b[0] {
        lemma_bytes_lt_total(a.drop_first(), b.drop_first());
        if a.drop_first() == b.drop_first() {
            assert(a =~= seq![a[0]] + a.drop_first());
            assert(b =~= seq![b[0]] + b.drop_first());
        }
    }
}

/// The order on sequences of bytes is transitive.
pub proof fn lemma_bytes_lt_transitive(a: Seq<u8>, b: Seq<u8>, c: Seq<u8>)
    requires
        bytes_lt(a, b),
        bytes_lt(b, c),
    ensures
        bytes_lt(a, c),
    decreases a.len(),
{
    if a.len() > 0 && a[0] == b[0] && b[0] == c[0] {
        lemma_bytes_lt_transitive(a.drop_first(), b.drop_first(), c.drop_first());
    }
}

/// Tells whether `a` comes before `b` byte by byte.
pub fn bytes_less(a: &[u8], b: &[u8]) -> (less: bool)
    ensures
        less == bytes_lt(a@, b@),
{
    let mut i: usize = 0;
    proof {
        assert(a@.skip(0) =~= a@);
        assert(b@.skip(0) =~= b@);
    }
    while i < a.len() && i < b.len()
        invariant
            i <= a@.len(),
            i <= b@.len(),
            bytes_lt(a@, b@) == bytes_lt(a@.skip(i as int), b@.skip(i as int)),
        decreases a@.len() - i,
    {
        let x: u8 = a[i];
        let y: u8 = b[i];
        proof {
            let sa = a@.skip(i as int);
            let sb = b@.skip(i as int);
            assert(sa[0] == x && sb[0] == y);
            assert(sa.drop_first() =~= a@.skip(i + 1));
            assert(sb.drop_first() =~= b@.skip(i + 1));
        }
        if x != y {
            return x < y;
        }
        i += 1;
    }
    proof {
        let sa = a@.skip(i as int);
        let sb = b@.skip(i as int);
        assert(sa.len() == a@.len() - i);
        assert(sb.len() == b@.len() - i);
    }
    i < b.len()
}

/// Tells whether the string `a` is ordered before the string `b`.
pub fn name_less(a: &str, b: &str) -> (less: bool)
    ensures
        less == bytes_lt(sort_key(a@), sort_key(b@)),
{
    bytes_less(a.as_bytes(), b.as_bytes())
}

/// Tells whether two strings hold the same characters.
pub fn same_text(a: &str, b: &str) -> (same: bool)
    ensures
        same == (a@ == b@),
{
    let x = a.as_bytes();
    let y = b.as_bytes();
    proof {
        // Strings with the same bytes hold the same characters.
        encode_utf8_decode_utf8(a@);
        encode_utf8_decode_utf8(b@);
        assert(x@ == encode_utf8(a@));
        assert(y@ == encode_utf8(b@));
        assert(decode_utf8(x@) == a@);
        assert(decode_utf8(y@) == b@);
    }
    if x.len() != y.len() {
        return false;
    }
    let mut i: usize = 0;
    while i < x.len()
        invariant
            i <= x@.len(),
            x@.len() == y@.len(),
            forall|k: int| 0 <= k < i ==> x@[k] == y@[k],
            a@ == b@ ==> x@ == y@,
            x@ == y@ ==> a@ == b@,
        decreases x@.len() - i,
    {
        if x[i] != y[i] {
            return false;
        }
        i += 1;
    }
    assert(x@ =~= y@);
    true
}

/// In a list with these keys, the entry at `a` is listed before the entry
/// at `b`: its key comes first, or the keys are the same and it stands
/// first.
pub open spec fn listed_before(keys: Seq<Seq<u8>>, a: int, b: int) -> bool {
    bytes_lt(keys[a], keys[b]) || (keys[a] == keys[b] && a < b)
}

/// `order` lists the positions of a table with these keys, each once, sorted
/// by key, positions with the same key in increasing order.
pub open spec fn is_listing_order(keys: Seq<Seq<u8>>, order: Seq<int>) -> bool {
    &&& order.len() == keys.len()
    &&& forall|i: int| 0 <= i < order.len() ==> 0 <= #[trigger] order[i] < keys.len()
    &&& forall|i: int, j: int|
        0 <= i < j < order.len() ==> listed_before(keys, #[trigger] order[i], #[trigger] order[j])
    &&& forall|k: int| 0 <= k < keys.len() ==> #[trigger] order.contains(k)
}

/// The keys that a list of strings is ordered by.
pub open spec fn keys_of(names: Seq<String>) -> Seq<Seq<u8>> {
    names.map_values(|name: String| sort_key(name@))
}

/// A list of positions as numbers.
pub open spec fn positions(order: Seq<usize>) -> Seq<int> {
    order.map_values(|p: usize| p as int)
}

/// There is one listing order only.
pub proof fn lemma_listing_order_unique(keys: Seq<Seq<u8>>, a: Seq<int>, b: Seq<int>)
    requires
        is_listing_order(keys, a),
        is_listing_order(keys, b),
    ensures
        a == b,
{
    assert forall|i: int| 0 <= i < a.len() implies a[i] == b[i] by {
        lemma_same_place(keys, a, b, i);
    }
    assert(a =~= b);
}

/// In a listing order, the number of positions listed before `order[i]` is
/// `i`, so two listing orders have the same position at each place.
proof fn lemma_same_place(keys: Seq<Seq<u8>>, a: Seq<int>, b: Seq<int>, i: int)
    requires
        is_listing_order(keys, a),
        is_listing_order(keys, b),
        0 <= i < a.len(),
    ensures
        a[i] == b[i],
    decreases i,
{
    // Every place before `i` agrees, by induction.
    assert forall|k: int| 0 <= k < i implies a[k] == b[k] by {
        lemma_same_place(keys, a, b, k);
    }
    let x = a[i];
    let y = b[i];
    if x != y {
        // `x` stands somewhere in `b` and `y` somewhere in `a`, both after
        // place `i`, which puts each before the other.
        assert(b.contains(x));
        let jb = choose|j: int| 0 <= j < b.len() && b[j] == x;
        assert(a.contains(y));
        let ja = choose|j: int| 0 <= j < a.len() && a[j] == y;
        if jb < i {
            assert(a[jb] == b[jb]);
            lemma_listed_before_irreflexive(keys, a[jb], a[i]);
        }
        if ja < i {
            assert(a[ja] == b[ja]);
            lemma_listed_before_irreflexive(keys, b[ja], b[i]);
        }
        assert(listed_before(keys, a[i], a[ja]));
        assert(listed_before(keys, b[i], b[jb]));
        lemma_bytes_lt_total(keys[x], keys[y]);
        lemma_bytes_lt_irreflexive(keys[x]);
    }
}

/// A position that is listed before another is not that other one.
proof fn lemma_listed_before_irreflexive(keys: Seq<Seq<u8>>, a: int, b: int)
    requires
        listed_before(keys, a, b),
    ensures
        a != b,
{
    lemma_bytes_lt_irreflexive(keys[a]);
}

/// The order in which the entries with these names are listed: sorted by
/// name, entries of the same name in the order they stand in.
pub fn listing_order(names: &Vec<String>) -> (order: Vec<usize>)
    ensures
        is_listing_order(keys_of(names@), positions(order@)),
{
    let ghost keys = keys_of(names@);
    let mut order: Vec<usize> = Vec::new();
    let mut i: usize = 0;
    while i < names.len()
        invariant
            i <= names@.len(),
            keys == keys_of(names@),
            order@.len() == i,
            forall|p: int| 0 <= p < order@.len() ==> 0 <= #[trigger] order@[p] < i,
            forall|p: int, q: int|
                0 <= p < q < order@.len() ==> listed_before(
                    keys,
                    #[trigger] order@[p] as int,
                    #[trigger] order@[q] as int,
                ),
            forall|k: int| 0 <= k < i ==> #[trigger] positions(order@).contains(k),
        decreases names@.len() - i,
    {
        let mut pos: usize = 0;
        while pos < order.len() && !name_less(names[i].as_str(), names[order[pos]].as_str())
            invariant
                pos <= order@.len(),
                i < names@.len(),
                keys == keys_of(names@),
                forall|p: int| 0 <= p < order@.len() ==> 0 <= #[trigger] order@[p] < i,
                forall|p: int| 0 <= p < pos ==> !bytes_lt(keys[i as int], keys[#[trigger] order@[p] as int]),
            decreases order@.len() - pos,
        {
            pos += 1;
        }
        let ghost before = order@;
        order.insert(pos, i);
        proof {
            let after = order@;
            assert(after.len() == before.len() + 1);
            assert(after[pos as int] == i);
            assert forall|p: int, q: int| 0 <= p < q < after.len() implies listed_before(
                keys,
                #[trigger] after[p] as int,
                #[trigger] after[q] as int,
            ) by {
                let x = after[p] as int;
                let y = after[q] as int;
                if q < pos {
                    assert(after[p] == before[p] && after[q] == before[q]);
                } else if q == pos {
                    assert(after[p] == before[p]);
                    lemma_bytes_lt_total(keys[x], keys[i as int]);
                } else if p < pos {
                    assert(after[p] == before[p] && after[q] == before[q - 1]);
                } else if p == pos {
                    assert(after[q] == before[q - 1]);
                    assert(bytes_lt(keys[i as int], keys[before[pos as int] as int]));
                    if q - 1 > pos {
                        assert(listed_before(keys, before[pos as int] as int, before[q - 1] as int));
                        if bytes_lt(keys[before[pos as int] as int], keys[y]) {
                            lemma_bytes_lt_transitive(
                                keys[i as int],
                                keys[before[pos as int] as int],
                                keys[y],
                            );
                        }
                    }
                } else {
                    assert(after[p] == before[p - 1] && after[q] == before[q - 1]);
                }
            }
            assert forall|p: int| 0 <= p < after.len() implies 0 <= #[trigger] after[p] < i
                + 1 by {
                if p < pos {
                    assert(after[p] == before[p]);
                } else if p > pos {
                    assert(after[p] == before[p - 1]);
                }
            }
            assert forall|k: int| 0 <= k < i + 1 implies #[trigger] positions(after).contains(
                k,
            ) by {
                if k == i {
                    assert(positions(after)[pos as int] == k);
                } else {
                    assert(positions(before).contains(k));
                    let p = choose|p: int| 0 <= p < before.len() && positions(before)[p] == k;
                    if p < pos {
                        assert(positions(after)[p] == k);
                    } else {
                        assert(positions(after)[p + 1] == k);
                    }
                }
            }
        }
        i += 1;
    }
    proof {
        let o = positions(order@);
        assert forall|p: int, q: int| 0 <= p < q < o.len() implies listed_before(
            keys,
            #[trigger] o[p],
            #[trigger] o[q],
        ) by {
            assert(listed_before(keys, order@[p] as int, order@[q] as int));
        }
        assert forall|p: int| 0 <= p < o.len() implies 0 <= #[trigger] o[p] < keys.len() by {
            assert(0 <= order@[p] < i);
        }
    }
    order
}

} // verus!
