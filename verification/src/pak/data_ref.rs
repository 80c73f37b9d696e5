//! Values stored either inline or as a byte range of a `.pak` file.
use vstd::prelude::*;
use core::ops::Range;

verus! {

/// A value held inline, or the byte range of a `.pak` file where it is stored.
pub enum DataRef<T> {
    /// The value itself.
    Data(T),
    /// The byte range where the value is stored.
    Ref(Range<u32>),
}

impl<T> DataRef<T> {
    /// The value held inline.
    pub fn data(&self) -> (r: &T)
        requires
            *self is Data,
        ensures
            *r == self->Data_0,
    {
        match self {
            DataRef::Data(t) => t,
            DataRef::Ref(_) => vstd::pervasive::unreached(),
        }
    }

    /// The position and length of the stored value.
    pub fn pos_len(&self) -> (r: (u64, usize))
        requires
            *self is Ref,
            self->Ref_0.start <= self->Ref_0.end,
        ensures
            r.0 == self->Ref_0.start,
            r.1 == self->Ref_0.end - self->Ref_0.start,
    {
        match self {
            DataRef::Ref(range) => (range.start as u64, (range.end - range.start) as usize),
            DataRef::Data(_) => vstd::pervasive::unreached(),
        }
    }

    /// Whether the value is held inline.
    pub fn is_data(&self) -> (r: bool)
        ensures
            r == (*self is Data),
    {
        match self {
            DataRef::Data(_) => true,
            DataRef::Ref(_) => false,
        }
    }
}

} // verus!
