//! Type keys: what the map is indexed by.

use crate::cell::{type_of, Erased};
use std::any::TypeId;
use vstd::prelude::*;

verus! {

/// `id` is the identifier of the type `T`: a cell has it exactly if the value
/// in the cell is a `T`.
pub open spec fn names<T: 'static>(id: TypeId) -> bool {
    forall|cell: Erased|
        #![trigger type_of(cell)]
        #![trigger cell.is::<T>()]
        type_of(cell) == id <==> cell.is::<T>()
}

/// The identifier of the type `T`.
pub open spec fn type_key<T: 'static>() -> TypeId {
    choose|id: TypeId| names::<T>(id)
}

/// `TypeId::of::<T>()`: the identifier of `T`, the same at every call. It is
/// the identifier of every cell that holds a `T`, and of no cell that holds a
/// value of another type.
#[verifier::external_body]
fn type_id_of<T: 'static>() -> (id: TypeId)
    ensures
        id == type_key::<T>(),
        names::<T>(id),
{
    TypeId::of::<T>()
}

/// `==` on `TypeId`: two identifiers are equal exactly if they are the same
/// identifier.
#[verifier::external_body]
fn same_id(left: &TypeId, right: &TypeId) -> (same: bool)
    ensures
        same == (*left == *right),
{
    left == right
}

/// The key of a type: the type's identifier.
#[derive(Clone, Copy)]
pub struct TypeKey {
    id: TypeId,
}

impl View for TypeKey {
    type V = TypeId;

    closed spec fn view(&self) -> TypeId {
        self.id
    }
}

impl TypeKey {
    /// The key of the type `T`.
    pub fn of<T: 'static>() -> (key: TypeKey)
        ensures
            key@ == type_key::<T>(),
            names::<T>(key@),
    {
        TypeKey { id: type_id_of::<T>() }
    }

    /// Whether two keys are the key of one type.
    pub fn same(&self, other: &TypeKey) -> (same: bool)
        ensures
            same == (self@ == other@),
    {
        same_id(&self.id, &other.id)
    }
}

} // verus!
