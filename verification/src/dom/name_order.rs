//! Order of names as `objectStoreNames` lists them: by their UTF-16 code
//! units, the way JavaScript compares strings.

use vstd::prelude::*;

use crate::key::{flip, KeyOrder};
use crate::schema::string_views;

verus! {

broadcast use vstd::seq_lib::group_to_multiset_ensures;

/// The UTF-16 code units of one character: itself below U+10000, a
/// surrogate pair above.
pub open spec fn utf16_char(c: char) -> Seq<u16> {
    let v = c as u32;
    if v < 0x10000 {
        seq![v as u16]
    } else {
        seq![(0xD800 + (v - 0x10000) / 1024) as u16, (0xDC00 + (v - 0x10000) % 1024) as u16]
    }
}

/// A character below U+10000 is one code unit equal to it; any other is a
/// high surrogate followed by a low surrogate that decode back to it.
pub proof fn lemma_utf16_char_decodes(c: char)
    ensures
        (c as u32) < 0x10000 ==> utf16_char(c) == seq![(c as u32) as u16],
        (c as u32) >= 0x10000 ==> {
            let u = utf16_char(c);
            &&& u.len() == 2
            &&& 0xD800 <= u[0] < 0xDC00
            &&& 0xDC00 <= u[1] < 0xE000
            &&& (u[0] - 0xD800) * 1024 + (u[1] - 0xDC00) + 0x10000 == c as u32
        },
{
    let v = c as u32;
    if v >= 0x10000 {
        assert(v <= 0x10FFFF);
        let w = v - 0x10000;
        assert(w / 1024 < 1024) by (nonlinear_arith)
            requires
                0 <= w < 0x100000;
        assert((w / 1024) * 1024 + w % 1024 == w) by (nonlinear_arith);
    }
}

/// The UTF-16 code units of a string.
pub open spec fn utf16(s: Seq<char>) -> Seq<u16>
    decreases s.len(),
{
    if s.len() == 0 {
        Seq::empty()
    } else {
        utf16(s.drop_last()) + utf16_char(s.last())
    }
}

/// Lexicographic order of two code-unit sequences.
pub open spec fn units_order(a: Seq<u16>, b: Seq<u16>) -> KeyOrder
    decreases a.len(),
{
    if a.len() == 0 {
        if b.len() == 0 {
            KeyOrder::Equal
        } else {
            KeyOrder::Less
        }
    } else if b.len() == 0 {
        KeyOrder::Greater
    } else if a[0] < b[0] {
        KeyOrder::Less
    } else if a[0] > b[0] {
        KeyOrder::Greater
    } else {
        units_order(a.drop_first(), b.drop_first())
    }
}

/// `a` sorts before or equal to `b` by code units.
pub open spec fn units_le(a: Seq<u16>, b: Seq<u16>) -> bool {
    units_order(a, b) != KeyOrder::Greater
}

/// The names are in code-unit order.
pub open spec fn sorted_by_code_units(names: Seq<Seq<char>>) -> bool {
    forall|i: int, j: int| 0 <= i < j < names.len() ==> units_le(utf16(#[trigger] names[i]), utf16(#[trigger] names[j]))
}

/// Names compare code unit by code unit: the first differing unit
/// decides, and a proper prefix sorts first.
pub proof fn lemma_units_order_is_unitwise(a: Seq<u16>, b: Seq<u16>, i: int)
    requires
        0 <= i <= a.len(),
        i <= b.len(),
        a.subrange(0, i) == b.subrange(0, i),
    ensures
        i < a.len() && i < b.len() && a[i] < b[i] ==> units_order(a, b) == KeyOrder::Less,
        i == a.len() && a.len() < b.len() ==> units_order(a, b) == KeyOrder::Less,
    decreases i,
{
    if i > 0 {
        assert(a[0] == a.subrange(0, i)[0]);
        assert(b[0] == b.subrange(0, i)[0]);
        assert(a.drop_first().subrange(0, i - 1) =~= a.subrange(0, i).drop_first());
        assert(b.drop_first().subrange(0, i - 1) =~= b.subrange(0, i).drop_first());
        lemma_units_order_is_unitwise(a.drop_first(), b.drop_first(), i - 1);
    }
}

proof fn lemma_units_order_flip(a: Seq<u16>, b: Seq<u16>)
    ensures
        units_order(b, a) == flip(units_order(a, b)),
    decreases a.len(),
{
    if a.len() != 0 && b.len() != 0 && a[0] == b[0] {
        lemma_units_order_flip(a.drop_first(), b.drop_first());
    }
}

proof fn lemma_units_le_transitive(a: Seq<u16>, b: Seq<u16>, c: Seq<u16>)
    requires
        units_le(a, b),
        units_le(b, c),
    ensures
        units_le(a, c),
    decreases a.len(),
{
    if a.len() != 0 && b.len() != 0 && c.len() != 0 && a[0] == b[0] && b[0] == c[0] {
        lemma_units_le_transitive(a.drop_first(), b.drop_first(), c.drop_first());
    }
}

proof fn lemma_skip_step(s: Seq<u16>, i: int)
    requires
        0 <= i < s.len(),
    ensures
        s.skip(i).drop_first() =~= s.skip(i + 1),
        s.skip(i)[0] == s[i],
        s.skip(i).len() == s.len() - i,
{
}

/// Compares two code-unit sequences.
fn compare_units(a: &Vec<u16>, b: &Vec<u16>) -> (r: KeyOrder)
    ensures
        r == units_order(a@, b@),
{
    let mut i: usize = 0;
    assert(a@.skip(0) =~= a@);
    assert(b@.skip(0) =~= b@);
    while i < a.len() && i < b.len()
        invariant
            i <= a.len(),
            i <= b.len(),
            units_order(a@, b@) == units_order(a@.skip(i as int), b@.skip(i as int)),
        decreases a.len() - i,
    {
        proof {
            lemma_skip_step(a@, i as int);
            lemma_skip_step(b@, i as int);
        }
        if a[i] < b[i] {
            return KeyOrder::Less;
        } else if a[i] > b[i] {
            return KeyOrder::Greater;
        }
        i = i + 1;
    }
    if i < a.len() {
        KeyOrder::Greater
    } else if i < b.len() {
        KeyOrder::Less
    } else {
        KeyOrder::Equal
    }
}

/// The UTF-16 code units of `s`.
pub fn utf16_units(s: &str) -> (r: Vec<u16>)
    ensures
        r@ == utf16(s@),
{
    let n = s.unicode_len();
    let mut out: Vec<u16> = Vec::new();
    let mut i: usize = 0;
    assert(s@.subrange(0, 0) =~= Seq::<char>::empty());
    while i < n
        invariant
            n == s@.len(),
            i <= n,
            out@ == utf16(s@.subrange(0, i as int)),
        decreases n - i,
    {
        let c = s.get_char(i);
        proof {
            assert(s@.subrange(0, i + 1).drop_last() =~= s@.subrange(0, i as int));
            assert(s@.subrange(0, i + 1).last() == c);
        }
        let v = c as u32;
        if v < 0x10000 {
            out.push(v as u16);
            proof {
                assert(out@ =~= utf16(s@.subrange(0, i as int)) + utf16_char(c));
            }
        } else {
            let w = v - 0x10000;
            out.push((0xD800 + w / 1024) as u16);
            out.push((0xDC00 + w % 1024) as u16);
            proof {
                assert(out@ =~= utf16(s@.subrange(0, i as int)) + utf16_char(c));
            }
        }
        i = i + 1;
    }
    assert(s@.subrange(0, n as int) =~= s@);
    out
}

/// Sorts names by their UTF-16 code units, as `objectStoreNames` presents
/// them: the same names, each as often as given, in code-unit order.
pub fn sort_by_code_units(names: &Vec<String>) -> (r: Vec<String>)
    ensures
        string_views(r@).to_multiset() == string_views(names@).to_multiset(),
        sorted_by_code_units(string_views(r@)),
{
    let mut out: Vec<String> = Vec::new();
    let mut keys: Vec<Vec<u16>> = Vec::new();
    let mut i: usize = 0;
    while i < names.len()
        invariant
            i <= names@.len(),
            keys@.len() == out@.len(),
            forall|k: int| 0 <= k < out@.len() ==> #[trigger] keys@[k]@ == utf16(out@[k]@),
            string_views(out@).to_multiset() == string_views(names@.subrange(0, i as int)).to_multiset(),
            sorted_by_code_units(string_views(out@)),
        decreases names@.len() - i,
    {
        let name = names[i].clone();
        let u = utf16_units(name.as_str());
        let mut p: usize = 0;
        while p < out.len() && compare_units(&keys[p], &u) != KeyOrder::Greater
            invariant
                p <= out@.len(),
                keys@.len() == out@.len(),
                forall|k: int| 0 <= k < p ==> units_le(#[trigger] keys@[k]@, u@),
            decreases out@.len() - p,
        {
            p = p + 1;
        }
        let ghost old_out = out@;
        let ghost old_keys = keys@;
        proof {
            if p < out@.len() {
                lemma_units_order_flip(keys@[p as int]@, u@);
            }
        }
        out.insert(p, name);
        keys.insert(p, u);
        proof {
            let sv = string_views(out@);
            let ov = string_views(old_out);
            assert(sv =~= ov.insert(p as int, names@[i as int]@));
            assert(string_views(names@.subrange(0, i + 1)) =~= string_views(names@.subrange(0, i as int)).push(names@[i as int]@));
            assert forall|k: int| 0 <= k < out@.len() implies #[trigger] keys@[k]@ == utf16(out@[k]@) by {
                if k < p {
                    assert(keys@[k] == old_keys[k]);
                } else if k > p {
                    assert(keys@[k] == old_keys[k - 1]);
                }
            }
            assert forall|a: int, b: int| 0 <= a < b < sv.len() implies units_le(utf16(#[trigger] sv[a]), utf16(#[trigger] sv[b])) by {
                assert(sv[a] == out@[a]@);
                assert(sv[b] == out@[b]@);
                if a < p && b < p {
                    assert(ov[a] == sv[a] && ov[b] == sv[b]);
                } else if a > p {
                    assert(ov[a - 1] == sv[a] && ov[b - 1] == sv[b]);
                } else if b == p {
                    assert(ov[a] == sv[a]);
                    assert(old_keys[a]@ == utf16(old_out[a]@));
                    assert(units_le(old_keys[a]@, u@));
                    assert(sv[b] == name@);
                } else if a == p {
                    assert(ov[b - 1] == sv[b]);
                    assert(ov[p as int] == old_out[p as int]@);
                    assert(old_keys[p as int]@ == utf16(old_out[p as int]@));
                    assert(sv[a] == name@);
                    assert(units_le(u@, old_keys[p as int]@));
                    if b - 1 > p {
                        assert(units_le(utf16(ov[p as int]), utf16(ov[b - 1])));
                        lemma_units_le_transitive(u@, old_keys[p as int]@, utf16(ov[b - 1]));
                    }
                    assert(units_le(utf16(sv[a]), utf16(sv[b])));
                } else {
                    assert(a < p && b > p);
                    assert(ov[a] == sv[a] && ov[b - 1] == sv[b]);
                }
            }
        }
        i = i + 1;
    }
    assert(names@.subrange(0, names@.len() as int) =~= names@);
    out
}

} // verus!
