//! A homogeneous slice of uncertain element type: it records the element
//! type's id and the slice's length.

use vstd::prelude::*;
use core::any::TypeId;

verus! {

#[verifier::external_type_specification]
#[verifier::external_body]
pub struct ExTypeId(TypeId);

/// `TypeId::of`: the id of the type `E`.
#[verifier::external_body]
fn type_id_of<E: ?Sized + 'static>() -> TypeId {
    TypeId::of::<E>()
}

/// A slice of elements of some type, known by its type id and its length.
#[derive(Clone, Copy, Debug)]
pub struct AnySliceRef<'a> {
    id: TypeId,
    len: usize,
    _lifetime: core::marker::PhantomData<&'a ()>,
}

impl<'a> AnySliceRef<'a> {
    /// The number of elements.
    pub closed spec fn spec_len(&self) -> nat {
        self.len as nat
    }

    /// Records the element type and the length of `slice`.
    pub fn from<E: 'static>(slice: &'a [E]) -> (r: Self)
        ensures
            r.spec_len() == slice@.len(),
    {
        AnySliceRef { id: type_id_of::<E>(), len: slice.len(), _lifetime: core::marker::PhantomData }
    }

    pub fn is_empty(&self) -> (r: bool)
        ensures
            r == (self.spec_len() == 0),
    {
        self.len == 0
    }

    /// The id of the element type.
    pub closed spec fn element_type(&self) -> TypeId {
        self.id
    }

    pub fn element_typeid(&self) -> (r: TypeId)
        ensures
            r == self.element_type(),
    {
        self.id
    }

    pub fn len(&self) -> (r: usize)
        ensures
            r == self.spec_len(),
    {
        self.len
    }
}

} // verus!
