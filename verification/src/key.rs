//! Order of encoded IndexedDB keys.
//!
//! Keys are held in their encoded byte form. The encoding is built so that
//! the byte-wise lexicographic order of two encodings is the IndexedDB
//! order of the keys they encode, so every comparison in this crate is a
//! comparison of byte strings.

use vstd::prelude::*;

verus! {

/// Result of comparing two keys.
#[derive(Debug, Clone, Copy, PartialEq, Eq, Structural)]
pub enum KeyOrder {
    Less,
    Equal,
    Greater,
}

/// Lexicographic order of two encoded keys.
pub open spec fn key_order(a: Seq<u8>, b: Seq<u8>) -> KeyOrder
    decreases a.len(),
{
    if a.len() == 0 {
        if b.len() == 0 {
            KeyOrder::Equal
        } else {
            KeyOrder::Less
        }
    } else if b.len() == 0 {
        KeyOrder::Greater
    } else if a[0] < b[0] {
        KeyOrder::Less
    } else if a[0] > b[0] {
        KeyOrder::Greater
    } else {
        key_order(a.drop_first(), b.drop_first())
    }
}

/// `a` sorts strictly before `b`.
pub open spec fn key_lt(a: Seq<u8>, b: Seq<u8>) -> bool {
    key_order(a, b) == KeyOrder::Less
}

/// `a` sorts before or equal to `b`.
pub open spec fn key_le(a: Seq<u8>, b: Seq<u8>) -> bool {
    key_order(a, b) != KeyOrder::Greater
}

/// The order with its two sides swapped.
pub open spec fn flip(o: KeyOrder) -> KeyOrder {
    match o {
        KeyOrder::Less => KeyOrder::Greater,
        KeyOrder::Equal => KeyOrder::Equal,
        KeyOrder::Greater => KeyOrder::Less,
    }
}

/// Two keys compare equal exactly when their encodings are equal.
pub proof fn lemma_key_order_equal(a: Seq<u8>, b: Seq<u8>)
    ensures
        key_order(a, b) == KeyOrder::Equal <==> a == b,
    decreases a.len(),
{
    if a.len() != 0 && b.len() != 0 && a[0] == b[0] {
        lemma_key_order_equal(a.drop_first(), b.drop_first());
        if a.drop_first() == b.drop_first() {
            assert(a =~= seq![a[0]] + a.drop_first());
            assert(b =~= seq![b[0]] + b.drop_first());
        }
        if a == b {
            assert(a.drop_first() =~= b.drop_first());
        }
    } else if a.len() != 0 && b.len() != 0 {
        assert(a[0] != b[0]);
        assert(a != b);
    } else if a.len() != b.len() {
        assert(a != b);
    } else {
        assert(a =~= b);
    }
}

/// Swapping the operands flips the order.
pub proof fn lemma_key_order_flip(a: Seq<u8>, b: Seq<u8>)
    ensures
        key_order(b, a) == flip(key_order(a, b)),
    decreases a.len(),
{
    if a.len() != 0 && b.len() != 0 && a[0] == b[0] {
        lemma_key_order_flip(a.drop_first(), b.drop_first());
    }
}

/// Keys are ordered byte by byte: the first differing byte decides, and a
/// proper prefix sorts before the longer key.
pub proof fn lemma_key_order_is_bytewise(a: Seq<u8>, b: Seq<u8>, i: int)
    requires
        0 <= i <= a.len(),
        i <= b.len(),
        a.subrange(0, i) == b.subrange(0, i),
    ensures
        i < a.len() && i < b.len() && a[i] < b[i] ==> key_lt(a, b),
        i == a.len() && a.len() < b.len() ==> key_lt(a, b),
    decreases i,
{
    if i > 0 {
        assert(a[0] == a.subrange(0, i)[0]);
        assert(b[0] == b.subrange(0, i)[0]);
        assert(a.drop_first().subrange(0, i - 1) =~= a.subrange(0, i).drop_first());
        assert(b.drop_first().subrange(0, i - 1) =~= b.subrange(0, i).drop_first());
        lemma_key_order_is_bytewise(a.drop_first(), b.drop_first(), i - 1);
    }
}

/// The strict order is transitive.
pub proof fn lemma_key_lt_transitive(a: Seq<u8>, b: Seq<u8>, c: Seq<u8>)
    requires
        key_lt(a, b),
        key_lt(b, c),
    ensures
        key_lt(a, c),
    decreases a.len(),
{
    if a.len() != 0 && b.len() != 0 && c.len() != 0 && a[0] == b[0] && b[0] == c[0] {
        lemma_key_lt_transitive(a.drop_first(), b.drop_first(), c.drop_first());
    }
}

/// The non-strict order is transitive.
pub proof fn lemma_key_le_transitive(a: Seq<u8>, b: Seq<u8>, c: Seq<u8>)
    requires
        key_le(a, b),
        key_le(b, c),
    ensures
        key_le(a, c),
{
    lemma_key_order_equal(a, b);
    lemma_key_order_equal(b, c);
    if key_lt(a, b) && key_lt(b, c) {
        lemma_key_lt_transitive(a, b, c);
    }
}

proof fn lemma_skip_step(s: Seq<u8>, i: int)
    requires
        0 <= i < s.len(),
    ensures
        s.skip(i).drop_first() =~= s.skip(i + 1),
        s.skip(i)[0] == s[i],
        s.skip(i).len() == s.len() - i,
{
}

/// Compares two encoded keys in IndexedDB key order.
pub fn compare_encoded_keys(a: &[u8], b: &[u8]) -> (r: KeyOrder)
    ensures
        r == key_order(a@, b@),
{
    let mut i: usize = 0;
    assert(a@.skip(0) =~= a@);
    assert(b@.skip(0) =~= b@);
    while i < a.len() && i < b.len()
        invariant
            i <= a.len(),
            i <= b.len(),
            key_order(a@, b@) == key_order(a@.skip(i as int), b@.skip(i as int)),
        decreases a.len() - i,
    {
        proof {
            lemma_skip_step(a@, i as int);
            lemma_skip_step(b@, i as int);
        }
        if a[i] < b[i] {
            return KeyOrder::Less;
        } else if a[i] > b[i] {
            return KeyOrder::Greater;
        }
        i = i + 1;
    }
    if i < a.len() {
        KeyOrder::Greater
    } else if i < b.len() {
        KeyOrder::Less
    } else {
        KeyOrder::Equal
    }
}

/// The keys of `s` in order, each kept at its first occurrence only.
pub open spec fn first_occurrences(s: Seq<Seq<u8>>) -> Seq<Seq<u8>>
    decreases s.len(),
{
    if s.len() == 0 {
        Seq::empty()
    } else {
        let rest = first_occurrences(s.drop_last());
        if rest.contains(s.last()) {
            rest
        } else {
            rest.push(s.last())
        }
    }
}

fn contains_key(keys: &Vec<Vec<u8>>, key: &Vec<u8>) -> (r: bool)
    ensures
        r == keys@.map_values(|k: Vec<u8>| k@).contains(key@),
{
    let ghost views = keys@.map_values(|k: Vec<u8>| k@);
    let mut i: usize = 0;
    while i < keys.len()
        invariant
            i <= keys@.len(),
            views == keys@.map_values(|k: Vec<u8>| k@),
            forall|j: int| 0 <= j < i ==> views[j] != key@,
        decreases keys@.len() - i,
    {
        if compare_encoded_keys(keys[i].as_slice(), key.as_slice()) == KeyOrder::Equal {
            proof {
                lemma_key_order_equal(keys@[i as int]@, key@);
                assert(views[i as int] == key@);
            }
            return true;
        }
        proof {
            lemma_key_order_equal(keys@[i as int]@, key@);
        }
        i = i + 1;
    }
    false
}

/// The index entries a record adds: its encoded index keys with repeats
/// dropped (a record is entered once per distinct key).
pub fn distinct_index_keys(keys: &Vec<Vec<u8>>) -> (r: Vec<Vec<u8>>)
    ensures
        r@.map_values(|k: Vec<u8>| k@) == first_occurrences(keys@.map_values(|k: Vec<u8>| k@)),
{
    let ghost src = keys@.map_values(|k: Vec<u8>| k@);
    let mut out: Vec<Vec<u8>> = Vec::new();
    let mut i: usize = 0;
    while i < keys.len()
        invariant
            i <= keys@.len(),
            src == keys@.map_values(|k: Vec<u8>| k@),
            out@.map_values(|k: Vec<u8>| k@) == first_occurrences(src.subrange(0, i as int)),
        decreases keys@.len() - i,
    {
        proof {
            assert(src.subrange(0, i + 1).drop_last() =~= src.subrange(0, i as int));
            assert(src.subrange(0, i + 1).last() == keys@[i as int]@);
        }
        if !contains_key(&out, &keys[i]) {
            let k = keys[i].clone();
            let ghost before = out@;
            out.push(k);
            proof {
                assert(out@.map_values(|k: Vec<u8>| k@) =~= before.map_values(|k: Vec<u8>| k@).push(keys@[i as int]@));
            }
        }
        i = i + 1;
    }
    proof {
        assert(src.subrange(0, src.len() as int) =~= src);
    }
    out
}

/// Dropping repeats leaves each key of the record exactly once: nothing is
/// entered twice and no key is lost.
pub proof fn lemma_first_occurrences(s: Seq<Seq<u8>>)
    ensures
        first_occurrences(s).no_duplicates(),
        forall|k: Seq<u8>| #[trigger] first_occurrences(s).contains(k) <==> s.contains(k),
    decreases s.len(),
{
    if s.len() > 0 {
        let d = s.drop_last();
        let last = s.last();
        let rest = first_occurrences(d);
        lemma_first_occurrences(d);
        let f = first_occurrences(s);
        assert(f == if rest.contains(last) { rest } else { rest.push(last) });
        assert forall|k: Seq<u8>| #[trigger] f.contains(k) <==> s.contains(k) by {
            assert(rest.contains(k) <==> d.contains(k));
            assert(s.contains(k) <==> (d.contains(k) || k == last)) by {
                if s.contains(k) && k != last {
                    let j = s.index_of(k);
                    assert(d[j] == k);
                }
                if d.contains(k) {
                    let j = d.index_of(k);
                    assert(s[j] == k);
                }
                if k == last {
                    assert(s[s.len() - 1] == k);
                }
            }
            if !rest.contains(last) {
                assert(rest.push(last).contains(k) <==> (rest.contains(k) || k == last)) by {
                    if rest.push(last).contains(k) && k != last {
                        let j = rest.push(last).index_of(k);
                        assert(rest[j] == k);
                    }
                    if rest.contains(k) {
                        let j = rest.index_of(k);
                        assert(rest.push(last)[j] == k);
                    }
                    if k == last {
                        assert(rest.push(last)[rest.len() as int] == k);
                    }
                }
            }
        }
        if !rest.contains(last) {
            let p = rest.push(last);
            assert forall|a: int, b: int| 0 <= a < b < p.len() implies p[a] != p[b] by {
                if b == rest.len() {
                    assert(rest[a] != last);
                }
            }
        }
    }
}

} // verus!
