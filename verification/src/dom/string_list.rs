//! `DOMStringList`.

use vstd::prelude::*;

use crate::text::str_eq;

verus! {

/// Native data of a `DOMStringList`.
#[derive(Debug)]
pub struct DomStringListData {
    pub items: Vec<String>,
}

impl DomStringListData {
    /// A list of the given strings, in order.
    pub fn new(items: Vec<String>) -> (r: Self)
        ensures
            r.items@ == items@,
    {
        DomStringListData { items }
    }

    /// `length` (the count, truncated to 32 bits as `as u32` does).
    pub fn length(&self) -> (r: u32)
        ensures
            r == self.items@.len() as u32,
    {
        self.items.len() as u32
    }

    /// `item(index)`: the string at `index`, if any.
    pub fn item(&self, index: u32) -> (r: Option<&str>)
        ensures
            (index as int) < self.items@.len() ==> (r matches Some(s) && s@ == self.items@[index as int]@),
            (index as int) >= self.items@.len() ==> r is None,
    {
        let i = index as usize;
        if i < self.items.len() {
            Some(self.items[i].as_str())
        } else {
            None
        }
    }

    /// `contains(value)`: some string of the list equals `value`.
    pub fn contains(&self, value: &str) -> (r: bool)
        ensures
            r == exists|i: int| 0 <= i < self.items@.len() && #[trigger] self.items@[i]@ == value@,
    {
        let mut i: usize = 0;
        while i < self.items.len()
            invariant
                i <= self.items@.len(),
                forall|j: int| 0 <= j < i ==> #[trigger] self.items@[j]@ != value@,
            decreases self.items@.len() - i,
        {
            if str_eq(self.items[i].as_str(), value) {
                return true;
            }
            i = i + 1;
        }
        false
    }
}

} // verus!
