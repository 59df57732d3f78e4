//! `IDBKeyRange` data: bounds over encoded keys, construction rules and
//! membership.

use vstd::prelude::*;

use crate::error::{message_of, IdbError};
use crate::key::{
    compare_encoded_keys, key_le, key_lt, key_order, lemma_key_le_transitive, lemma_key_lt_transitive,
    lemma_key_order_equal, lemma_key_order_flip, KeyOrder,
};

verus! {

/// A key range: optional lower and upper bounds, each open or closed.
#[derive(Debug, Clone)]
pub struct IdBKeyRange {
    pub lower: Option<Vec<u8>>,
    pub upper: Option<Vec<u8>>,
    pub lower_open: bool,
    pub upper_open: bool,
}

/// Abstract form of a key range.
pub struct RangeView {
    pub lower: Option<Seq<u8>>,
    pub upper: Option<Seq<u8>>,
    pub lower_open: bool,
    pub upper_open: bool,
}

pub open spec fn opt_view(o: Option<Vec<u8>>) -> Option<Seq<u8>> {
    match o {
        Some(v) => Some(v@),
        None => None,
    }
}

impl View for IdBKeyRange {
    type V = RangeView;

    open spec fn view(&self) -> RangeView {
        RangeView {
            lower: opt_view(self.lower),
            upper: opt_view(self.upper),
            lower_open: self.lower_open,
            upper_open: self.upper_open,
        }
    }
}

/// `key` lies on the inner side of the lower bound.
pub open spec fn above_lower(lower: Option<Seq<u8>>, open: bool, key: Seq<u8>) -> bool {
    match lower {
        Some(l) => if open {
            key_lt(l, key)
        } else {
            key_le(l, key)
        },
        None => true,
    }
}

/// `key` lies on the inner side of the upper bound.
pub open spec fn below_upper(upper: Option<Seq<u8>>, open: bool, key: Seq<u8>) -> bool {
    match upper {
        Some(u) => if open {
            key_lt(key, u)
        } else {
            key_le(key, u)
        },
        None => true,
    }
}

impl RangeView {
    /// Membership of a key in the range.
    pub open spec fn contains(self, key: Seq<u8>) -> bool {
        above_lower(self.lower, self.lower_open, key) && below_upper(
            self.upper,
            self.upper_open,
            key,
        )
    }
}

impl IdBKeyRange {
    pub fn new(lower: Option<Vec<u8>>, upper: Option<Vec<u8>>, lower_open: bool, upper_open: bool) -> (r: Self)
        ensures
            r.lower == lower,
            r.upper == upper,
            r.lower_open == lower_open,
            r.upper_open == upper_open,
    {
        IdBKeyRange { lower, upper, lower_open, upper_open }
    }

    /// `IDBKeyRange.only(key)`: both bounds closed at `key`.
    pub fn only(key: Vec<u8>) -> (r: Self)
        ensures
            r@.lower == Some(key@),
            r@.upper == Some(key@),
            !r.lower_open,
            !r.upper_open,
    {
        let upper = key.clone();
        IdBKeyRange { lower: Some(key), upper: Some(upper), lower_open: false, upper_open: false }
    }

    /// `IDBKeyRange.lowerBound(key, open)`: no upper bound.
    pub fn lower_bound(key: Vec<u8>, open: bool) -> (r: Self)
        ensures
            r@.lower == Some(key@),
            r@.upper is None,
            r.lower_open == open,
            r.upper_open,
    {
        IdBKeyRange { lower: Some(key), upper: None, lower_open: open, upper_open: true }
    }

    /// `IDBKeyRange.upperBound(key, open)`: no lower bound.
    pub fn upper_bound(key: Vec<u8>, open: bool) -> (r: Self)
        ensures
            r@.lower is None,
            r@.upper == Some(key@),
            r.lower_open,
            r.upper_open == open,
    {
        IdBKeyRange { lower: None, upper: Some(key), lower_open: true, upper_open: open }
    }

    /// `IDBKeyRange.bound(lower, upper, lowerOpen, upperOpen)`.
    ///
    /// Fails with `DataError` exactly when `lower` sorts after `upper`, or
    /// when the two keys are equal and either bound is open (such a range
    /// could hold no key).
    pub fn bound(lower: Vec<u8>, upper: Vec<u8>, lower_open: bool, upper_open: bool) -> (r: Result<
        Self,
        IdbError,
    >)
        ensures
            r is Err <==> key_order(lower@, upper@) == KeyOrder::Greater
                || (key_order(lower@, upper@) == KeyOrder::Equal && (lower_open || upper_open)),
            r is Err ==> r->Err_0 is Data,
            r is Err ==> message_of(r->Err_0) == if key_order(lower@, upper@) == KeyOrder::Greater {
                "The lower key is greater than the upper key"@
            } else {
                "The lower and upper keys are equal and one of the bounds is open"@
            },
            r matches Ok(range) ==> {
                &&& range@.lower == Some(lower@)
                &&& range@.upper == Some(upper@)
                &&& range.lower_open == lower_open
                &&& range.upper_open == upper_open
            },
    {
        let order = compare_encoded_keys(lower.as_slice(), upper.as_slice());
        if order == KeyOrder::Greater {
            return Err(IdbError::Data("The lower key is greater than the upper key".to_string()));
        }
        if order == KeyOrder::Equal && (lower_open || upper_open) {
            return Err(IdbError::Data("The lower and upper keys are equal and one of the bounds is open".to_string()));
        }
        Ok(IdBKeyRange { lower: Some(lower), upper: Some(upper), lower_open, upper_open })
    }

    /// `IDBKeyRange.includes(key)`.
    pub fn includes(&self, key: &[u8]) -> (r: bool)
        ensures
            r == self@.contains(key@),
    {
        let in_lower = match &self.lower {
            Some(lower) => {
                let cmp = compare_encoded_keys(lower.as_slice(), key);
                if self.lower_open {
                    cmp == KeyOrder::Less
                } else {
                    cmp != KeyOrder::Greater
                }
            },
            None => true,
        };
        let in_upper = match &self.upper {
            Some(upper) => {
                let cmp = compare_encoded_keys(key, upper.as_slice());
                if self.upper_open {
                    cmp == KeyOrder::Less
                } else {
                    cmp != KeyOrder::Greater
                }
            },
            None => true,
        };
        in_lower && in_upper
    }
}

/// A range of keys to match, in the form the request queue carries.
#[derive(Debug, Clone)]
pub enum RangeData {
    /// Match all records.
    All,
    /// Match exactly one key.
    Only(Vec<u8>),
    /// Bounded range: `(key, open)` per side.
    Bounds { lower: Option<(Vec<u8>, bool)>, upper: Option<(Vec<u8>, bool)> },
}

pub open spec fn bound_view(b: Option<(Vec<u8>, bool)>) -> Option<Seq<u8>> {
    match b {
        Some(p) => Some(p.0@),
        None => None,
    }
}

pub open spec fn bound_open(b: Option<(Vec<u8>, bool)>) -> bool {
    match b {
        Some(p) => p.1,
        None => false,
    }
}

impl RangeData {
    /// Membership of a key in the range data.
    pub open spec fn contains(self, key: Seq<u8>) -> bool {
        match self {
            RangeData::All => true,
            RangeData::Only(k) => k@ == key,
            RangeData::Bounds { lower, upper } => above_lower(
                bound_view(lower),
                bound_open(lower),
                key,
            ) && below_upper(bound_view(upper), bound_open(upper), key),
        }
    }
}

/// Converts native key-range data to queue range data.
pub fn range_data_of(kr: &IdBKeyRange) -> (r: RangeData)
    ensures
        forall|k: Seq<u8>| r.contains(k) <==> kr@.contains(k),
        (kr.lower is None && kr.upper is None) ==> r is All,
        !(kr.lower is None && kr.upper is None) ==> r is Bounds,
{
    match (&kr.lower, &kr.upper) {
        (None, None) => RangeData::All,
        _ => {
            let lower = match &kr.lower {
                Some(k) => Some((k.clone(), kr.lower_open)),
                None => None,
            };
            let upper = match &kr.upper {
                Some(k) => Some((k.clone(), kr.upper_open)),
                None => None,
            };
            RangeData::Bounds { lower, upper }
        },
    }
}

/// A range built by `only(k)` holds `k` and no other key.
pub proof fn lemma_only_holds_exactly(k: Seq<u8>, x: Seq<u8>)
    ensures
        (RangeView { lower: Some(k), upper: Some(k), lower_open: false, upper_open: false }).contains(
            x,
        ) <==> x == k,
{
    lemma_key_order_equal(k, x);
    lemma_key_order_equal(x, k);
    lemma_key_order_flip(k, x);
}

/// Key ranges are convex: a key between two members is a member.
pub proof fn lemma_range_convex(r: RangeView, a: Seq<u8>, b: Seq<u8>, c: Seq<u8>)
    requires
        r.contains(a),
        r.contains(c),
        key_le(a, b),
        key_le(b, c),
    ensures
        r.contains(b),
{
    match r.lower {
        Some(l) => {
            lemma_key_le_transitive(l, a, b);
            if r.lower_open {
                lemma_key_order_equal(a, b);
                if key_lt(a, b) {
                    lemma_key_lt_transitive(l, a, b);
                }
            }
        },
        None => {},
    }
    match r.upper {
        Some(u) => {
            lemma_key_le_transitive(b, c, u);
            if r.upper_open {
                lemma_key_order_equal(b, c);
                if key_lt(b, c) {
                    lemma_key_lt_transitive(b, c, u);
                }
            }
        },
        None => {},
    }
}

} // verus!
