//! Dense, append-only storage addressed by typed handles.

use std::marker::PhantomData;
use std::ops::Index;
use vstd::prelude::*;
use vstd::std_specs::cmp::PartialEqSpecImpl;

verus! {

/// A strongly typed reference to an element of an [`Arena`].
///
/// A handle is nothing more than the position of the element; the type
/// parameter only records which arena it belongs to.
#[derive(Debug)]
pub struct Handle<T> {
    pub index: usize,
    pub marker: PhantomData<T>,
}

impl<T> Clone for Handle<T> {
    fn clone(&self) -> (r: Self)
        ensures
            r == *self,
    {
        Handle { index: self.index, marker: PhantomData }
    }
}

impl<T> Copy for Handle<T> {

}

impl<T> PartialEq for Handle<T> {
    fn eq(&self, other: &Self) -> (equal: bool) {
        self.index == other.index
    }
}

impl<T> Eq for Handle<T> {

}

impl<T> PartialEqSpecImpl for Handle<T> {
    open spec fn obeys_eq_spec() -> bool {
        true
    }

    open spec fn eq_spec(&self, other: &Self) -> bool {
        self.index == other.index
    }
}

impl<T> Handle<T> {
    /// The handle of the element at position `index`.
    pub open spec fn at(index: int) -> Self {
        Handle { index: index as usize, marker: PhantomData }
    }

    /// Makes the handle of the element at position `index`.
    pub fn new(index: usize) -> (handle: Self)
        ensures
            handle == Self::at(index as int),
    {
        Handle { index, marker: PhantomData }
    }

    /// Returns the zero-based position of the element.
    pub fn index(self) -> (index: usize)
        ensures
            index == self.index,
    {
        self.index
    }
}

/// A contiguous run of elements of an [`Arena`], from `start` up to but not
/// including `end`.
#[derive(Debug, PartialEq)]
pub struct Range<T> {
    pub start: usize,
    pub end: usize,
    pub marker: PhantomData<T>,
}

impl<T> Clone for Range<T> {
    fn clone(&self) -> (r: Self)
        ensures
            r == *self,
    {
        Range { start: self.start, end: self.end, marker: PhantomData }
    }
}

impl<T> Copy for Range<T> {

}

impl<T> Range<T> {
    /// The run of elements at positions `start..end`.
    pub fn new(start: usize, end: usize) -> (range: Self)
        ensures
            range.start == start,
            range.end == end,
    {
        Range { start, end, marker: PhantomData }
    }
}

/// An arena holding some kind of component (e.g., type, constant,
/// instruction, etc.) that can be referenced.
///
/// Elements are only ever appended, so a handle stays valid for the
/// lifetime of the arena.
#[derive(Debug, PartialEq)]
pub struct Arena<T> {
    pub data: Vec<T>,
}

impl<T> View for Arena<T> {
    type V = Seq<T>;

    open spec fn view(&self) -> Seq<T> {
        self.data@
    }
}

impl<T> Arena<T> {
    /// Whether `handle` refers to an element of this arena.
    pub open spec fn contains(&self, handle: Handle<T>) -> bool {
        handle.index < self@.len()
    }

    /// Creates an empty arena.
    pub fn new() -> (arena: Self)
        ensures
            arena@ == Seq::<T>::empty(),
    {
        Arena { data: Vec::new() }
    }

    /// Returns the number of elements.
    pub fn len(&self) -> (n: usize)
        ensures
            n == self@.len(),
    {
        self.data.len()
    }

    /// Returns `true` if the arena holds no element.
    pub fn is_empty(&self) -> (empty: bool)
        ensures
            empty == (self@.len() == 0),
    {
        self.data.len() == 0
    }

    /// Adds a new value to the arena, returning its handle.
    pub fn append(&mut self, value: T) -> (handle: Handle<T>)
        ensures
            final(self)@ == old(self)@.push(value),
            handle == Handle::<T>::at(old(self)@.len() as int),
    {
        let index = self.data.len();
        self.data.push(value);
        Handle::new(index)
    }

    /// Returns the element behind `handle`, or `None` when the handle does
    /// not belong to this arena.
    pub fn try_get(&self, handle: Handle<T>) -> (element: Option<&T>)
        ensures
            element == if self.contains(handle) {
                Some(&self@[handle.index as int])
            } else {
                None
            },
    {
        if handle.index < self.data.len() {
            Some(&self.data[handle.index])
        } else {
            None
        }
    }
}

impl<T> Index<Handle<T>> for Arena<T> {
    type Output = T;

    fn index(&self, handle: Handle<T>) -> (element: &T)
        ensures
            *element == self@[handle.index as int],
    {
        &self.data[handle.index]
    }
}

impl<T> vstd::std_specs::core::IndexSpecImpl<Handle<T>> for Arena<T> {
    open spec fn index_req(&self, handle: &Handle<T>) -> bool {
        self.contains(*handle)
    }
}

} // verus!
