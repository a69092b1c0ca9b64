use vstd::prelude::*;

verus! {

/// An integer key tagged with the type it belongs to, so that keys of different
/// types are never interchangeable.
pub struct TypeHandle<T> {
    pub index: usize,
    pub marker: core::marker::PhantomData<T>,
}

impl<T> TypeHandle<T> {
    pub fn new(index: usize) -> (r: Self)
        ensures
            r.index == index,
    {
        TypeHandle { index, marker: core::marker::PhantomData }
    }
}

impl<T> Clone for TypeHandle<T> {
    fn clone(&self) -> (r: Self)
        ensures
            r == *self,
    {
        *self
    }
}

impl<T> Copy for TypeHandle<T> {

}

impl<T> PartialEq for TypeHandle<T> {
    fn eq(&self, other: &Self) -> (r: bool)
        ensures
            r == (self.index == other.index),
    {
        self.index == other.index
    }
}

impl<T> vstd::std_specs::cmp::PartialEqSpecImpl for TypeHandle<T> {
    open spec fn obeys_eq_spec() -> bool {
        true
    }

    open spec fn eq_spec(&self, other: &Self) -> bool {
        self.index == other.index
    }
}

impl<T> Eq for TypeHandle<T> {

}

} // verus!
