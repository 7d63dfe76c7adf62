//! Deep copies with a contract: a copy has the same view as what it copies.

use vstd::prelude::*;

verus! {

/// Types that can be copied in depth.
pub trait Duplicate: View + Sized {
    /// A copy with the same view.
    fn duplicate(&self) -> (copy: Self)
        ensures
            copy@ == self@,
    ;
}

/// The views of `items`, in order.
pub open spec fn views_of<T: View>(items: Seq<T>) -> Seq<T::V> {
    Seq::new(items.len(), |i: int| items[i]@)
}

/// The view of an optional value.
pub open spec fn option_view<T: View>(item: Option<T>) -> Option<T::V> {
    match item {
        Some(t) => Some(t@),
        None => None,
    }
}

/// Copies every item of `items`, in order.
pub fn duplicate_all<T: Duplicate>(items: &Vec<T>) -> (copies: Vec<T>)
    ensures
        views_of(copies@) == views_of(items@),
{
    let mut copies: Vec<T> = Vec::new();
    let mut i: usize = 0;
    while i < items.len()
        invariant
            0 <= i <= items@.len(),
            copies@.len() == i,
            forall|j: int| 0 <= j < i ==> copies@[j]@ == items@[j]@,
        decreases items@.len() - i,
    {
        let copy = items[i].duplicate();
        copies.push(copy);
        i += 1;
    }
    proof {
        assert(views_of(copies@) =~= views_of(items@));
    }
    copies
}

/// Copies an optional value.
pub fn duplicate_option<T: Duplicate>(item: &Option<T>) -> (copy: Option<T>)
    ensures
        option_view(copy) == option_view(*item),
{
    match item {
        Some(t) => Some(t.duplicate()),
        None => None,
    }
}

/// Copies a vector of plain values.
pub fn copy_all<T: Copy>(items: &Vec<T>) -> (copies: Vec<T>)
    ensures
        copies@ == items@,
{
    let mut copies: Vec<T> = Vec::new();
    let mut i: usize = 0;
    while i < items.len()
        invariant
            0 <= i <= items@.len(),
            copies@ == items@.take(i as int),
        decreases items@.len() - i,
    {
        copies.push(items[i]);
        proof {
            assert(copies@ =~= items@.take(i + 1));
        }
        i += 1;
    }
    proof {
        assert(items@.take(i as int) =~= items@);
    }
    copies
}

impl Duplicate for String {
    fn duplicate(&self) -> (copy: Self) {
        self.clone()
    }
}

} // verus!
