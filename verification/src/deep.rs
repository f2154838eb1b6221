//! Vectors seen through the views of their elements.

use vstd::prelude::*;

use crate::source::Span;

verus! {

/// Values that can be copied so that the copy has the same view.
pub trait Duplicate: DeepView + Sized {
    /// A copy of this value.
    fn duplicate(&self) -> (r: Self)
        ensures
            r.deep_view() == self.deep_view(),
    ;
}

/// Values that can be compared by their views.
pub trait SameView: DeepView {
    /// Whether the two values have the same view.
    fn same(&self, other: &Self) -> (r: bool)
        ensures
            r == (self.deep_view() == other.deep_view()),
    ;
}

impl Duplicate for Span {
    fn duplicate(&self) -> (r: Self) {
        *self
    }
}

impl SameView for Span {
    fn same(&self, other: &Self) -> (r: bool) {
        *self == *other
    }
}

impl Duplicate for bool {
    fn duplicate(&self) -> (r: Self) {
        *self
    }
}

impl Duplicate for String {
    fn duplicate(&self) -> (r: Self) {
        self.clone()
    }
}

impl SameView for String {
    fn same(&self, other: &Self) -> (r: bool) {
        crate::text::same_text(self.as_str(), other.as_str())
    }
}

impl<A: Duplicate, B: Duplicate> Duplicate for (A, B) {
    fn duplicate(&self) -> (r: Self) {
        (self.0.duplicate(), self.1.duplicate())
    }
}

impl<T: Duplicate> Duplicate for Option<T> {
    fn duplicate(&self) -> (r: Self) {
        match self {
            Some(value) => Some(value.duplicate()),
            None => None,
        }
    }
}

impl<T: SameView> SameView for Option<T> {
    fn same(&self, other: &Self) -> (r: bool) {
        match (self, other) {
            (Some(a), Some(b)) => a.same(b),
            (None, None) => true,
            _ => false,
        }
    }
}

impl<T: Duplicate> Duplicate for Vec<T> {
    fn duplicate(&self) -> (r: Self) {
        let mut out: Vec<T> = Vec::new();
        let mut i: usize = 0;
        while i < self.len()
            invariant
                i <= self@.len(),
                out@.len() == i,
                forall|k: int| 0 <= k < i ==> (#[trigger] out@[k]).deep_view()
                    == self@[k].deep_view(),
            decreases self@.len() - i,
        {
            out.push(self[i].duplicate());
            i = i + 1;
        }
        assert(out.deep_view() =~= self.deep_view());
        out
    }
}

impl<T: SameView> SameView for Vec<T> {
    fn same(&self, other: &Self) -> (r: bool) {
        if self.len() != other.len() {
            assert(self.deep_view().len() != other.deep_view().len());
            return false;
        }
        let mut i: usize = 0;
        while i < self.len()
            invariant
                i <= self@.len(),
                self@.len() == other@.len(),
                forall|k: int|
                    0 <= k < i ==> self@[k].deep_view() == (#[trigger] other@[k]).deep_view(),
            decreases self@.len() - i,
        {
            if !self[i].same(&other[i]) {
                assert(self.deep_view()[i as int] != other.deep_view()[i as int]);
                return false;
            }
            i = i + 1;
        }
        assert(self.deep_view() =~= other.deep_view());
        true
    }
}

/// A `Result` seen through the views of its two sides.
pub open spec fn outcome<T: DeepView, E: DeepView>(r: Result<T, E>) -> Result<T::V, E::V> {
    match r {
        Ok(value) => Ok(value.deep_view()),
        Err(error) => Err(error.deep_view()),
    }
}

/// Appends one element.
pub(crate) fn push_to<T: DeepView>(items: &mut Vec<T>, item: T)
    ensures
        final(items).deep_view() == old(items).deep_view().push(item.deep_view()),
{
    let ghost before = items.deep_view();
    items.push(item);
    assert(items.deep_view() =~= before.push(item.deep_view()));
}

/// Replaces one element.
pub(crate) fn put_at<T: DeepView>(items: &mut Vec<T>, at: usize, item: T)
    requires
        at < old(items)@.len(),
    ensures
        final(items).deep_view() == old(items).deep_view().update(at as int, item.deep_view()),
{
    let ghost before = items.deep_view();
    items.set(at, item);
    assert(items.deep_view() =~= before.update(at as int, item.deep_view()));
}

/// An empty vector, whose view is the empty sequence.
pub(crate) fn no_items<T: DeepView>() -> (r: Vec<T>)
    ensures
        r.deep_view() == Seq::<T::V>::empty(),
        r@.len() == 0,
{
    let r: Vec<T> = Vec::new();
    assert(r.deep_view() =~= Seq::<T::V>::empty());
    r
}

} // verus!
