use vstd::prelude::*;

verus! {

/// A position in one arena, tagged with the kind of element it designates so that
/// indices into different arenas cannot be mixed up.
#[derive(Debug)]
pub struct IndexHandle<T> {
    pub index: usize,
    pub marker: core::marker::PhantomData<T>,
}

impl<T> IndexHandle<T> {
    pub fn new(index: usize) -> (r: Self)
        ensures
            r.index == index,
    {
        IndexHandle { index, marker: core::marker::PhantomData }
    }
}

impl<T> Clone for IndexHandle<T> {
    fn clone(&self) -> (r: Self)
        ensures
            r == *self,
    {
        *self
    }
}

impl<T> Copy for IndexHandle<T> {

}

impl<T> PartialEq for IndexHandle<T> {
    fn eq(&self, other: &Self) -> (r: bool)
        ensures
            r == (self.index == other.index),
    {
        self.index == other.index
    }
}

impl<T> vstd::std_specs::cmp::PartialEqSpecImpl for IndexHandle<T> {
    open spec fn obeys_eq_spec() -> bool {
        true
    }

    open spec fn eq_spec(&self, other: &Self) -> bool {
        self.index == other.index
    }
}

impl<T> Eq for IndexHandle<T> {

}

} // verus!
