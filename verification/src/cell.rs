//! Cells: one value each, of any type, kept behind a pointer that hides the type.

use std::any::Any;
use std::any::TypeId;
use unsafe_any::UnsafeAny;
use vstd::prelude::*;

verus! {

/// Any value, as contracts see it once its type is hidden.
///
/// Every `'static` type has this trait, and it has no operation: it gives the
/// contracts one type, [`Hidden`], for the values of all types.
pub trait Stored: 'static {}

impl<T: 'static> Stored for T {}

/// A value with its type hidden, as contracts speak of it.
pub struct Hidden {
    pub value: Box<dyn Stored>,
}

/// The value `value` with its type hidden.
pub open spec fn stored<T: 'static>(value: T) -> Hidden {
    Hidden { value: Box::new(value) }
}

/// `std::any::TypeId`, the identifier that the language gives each type. Its
/// inside is not looked at; two identifiers are told apart by `==` only.
#[verifier::external_type_specification]
#[verifier::external_body]
pub struct ExTypeId(TypeId);

/// A cell: a boxed `unsafe_any::UnsafeAny` object, that is one value of some
/// `'static` type together with the means to ask which type it is.
#[verifier::external_body]
pub struct Erased {
    inner: Box<dyn UnsafeAny>,
}

/// The value in a cell, with its type hidden.
pub uninterp spec fn held(cell: Erased) -> Hidden;

/// The identifier of the type of the value in a cell.
pub uninterp spec fn type_of(cell: Erased) -> TypeId;

impl Erased {
    /// The cell holds `value`, a `T`, and no other `T`.
    pub open spec fn holds<T: 'static>(self, value: T) -> bool {
        &&& held(self) == stored(value)
        &&& forall|other: T| held(self) == stored(other) ==> other == value
    }

    /// The cell holds a value of type `T`.
    pub open spec fn is<T: 'static>(self) -> bool {
        exists|value: T| self.holds(value)
    }

    /// The value in the cell if it is a `T`, and `None` if it is of another type.
    pub open spec fn value<T: 'static>(self) -> Option<T> {
        if self.is::<T>() {
            Some(choose|value: T| self.holds(value))
        } else {
            None
        }
    }

    /// A cell whose content of type `T` is `value` holds `value`.
    pub proof fn lemma_holds<T: 'static>(self, value: T)
        requires
            self.value::<T>() == Some(value),
        ensures
            self.holds(value),
    {
    }

    /// A cell that holds `value` has `value` as its content of type `T`.
    pub proof fn lemma_value<T: 'static>(self, value: T)
        requires
            self.holds(value),
        ensures
            self.is::<T>(),
            self.value::<T>() == Some(value),
    {
        let chosen = choose|v: T| self.holds(v);
        assert(self.holds(chosen));
    }
}

/// Boxes `value` and forgets its type (`Box::new`, then the coercion to
/// `Box<dyn UnsafeAny>`). The cell holds `value`, and no other value of the
/// type `T` is held in the same way.
#[verifier::external_body]
pub(crate) fn erase<T: 'static>(value: T) -> (cell: Erased)
    ensures
        held(cell) == stored(value),
        cell.holds(value),
{
    Erased { inner: Box::new(value) }
}

/// `<dyn Any>::downcast_ref::<T>`: a reference to the value in the cell if it
/// is a `T`, `None` if it is of another type.
#[verifier::external_body]
pub(crate) fn cell_ref<T: 'static>(cell: &Erased) -> (found: Option<&T>)
    ensures
        match found {
            Some(value) => cell.value::<T>() == Some(*value),
            None => cell.value::<T>() is None,
        },
{
    let any: &dyn Any = &*cell.inner;
    any.downcast_ref::<T>()
}

/// `<dyn Any>::downcast_mut::<T>`: a mutable reference to the value in the
/// cell if it is a `T`, `None` if it is of another type. What is written
/// through the reference is what the cell holds afterwards; the type of the
/// content does not change.
#[verifier::external_body]
pub(crate) fn cell_mut<T: 'static>(cell: &mut Erased) -> (found: Option<&mut T>)
    ensures
        match found {
            Some(value) => {
                &&& old(cell).value::<T>() == Some(*value)
                &&& final(cell).holds(*final(value))
                &&& type_of(*final(cell)) == type_of(*old(cell))
            },
            None => old(cell).value::<T>() is None && *final(cell) == *old(cell),
        },
    no_unwind
{
    let any: &mut dyn Any = &mut *cell.inner;
    any.downcast_mut::<T>()
}

/// `Box<dyn Any>::downcast::<T>`: the value out of the cell if it is a `T`.
/// If it is of another type the cell is dropped and `None` comes back.
#[verifier::external_body]
pub(crate) fn cell_into<T: 'static>(cell: Erased) -> (found: Option<T>)
    ensures
        found == cell.value::<T>(),
{
    let any: Box<dyn Any> = cell.inner;
    match any.downcast::<T>() {
        Ok(value) => Some(*value),
        Err(_) => None,
    }
}

} // verus!
