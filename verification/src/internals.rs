//! Bounds and objects: what a map asks of the values it takes, and the form in
//! which it keeps them.

use crate::cell::{cell_into, cell_mut, cell_ref, erase, type_of, Erased};
use crate::key::{names, type_key, TypeKey};
use std::any::TypeId;
use std::fmt::Debug;
use std::marker::PhantomData;
use vstd::prelude::*;

verus! {

/// The bound that asks nothing of a value but a type of its own.
///
/// Use `dyn PlainAny` as the `A` parameter of a map that takes a value of any
/// `'static` type. An object of this trait stands for the operations that the
/// bound promises (here none), made for one type.
pub trait PlainAny {
    /// These operations are made for the type whose identifier is `id`.
    spec fn serves(&self, id: TypeId) -> bool;
}

/// The bound that asks that a value can be printed.
///
/// Use `dyn DebugAny` as the `A` parameter of a map that takes only types that
/// implement `Debug`.
pub trait DebugAny {
    /// These operations are made for the type whose identifier is `id`.
    spec fn serves(&self, id: TypeId) -> bool;

    /// `text` may be what `{:?}` prints for the value in `cell`: what the
    /// `Debug` of the value's type made of that value.
    spec fn prints(&self, cell: Erased, text: String) -> bool;

    /// What `{:?}` prints for the value in `cell`.
    fn debug_any(&self, cell: &Erased) -> (text: String)
        requires
            self.serves(type_of(*cell)),
        ensures
            self.prints(*cell, text),
    ;
}

/// The bound that asks that a value can be cloned.
///
/// Use `dyn CloneAny` as the `A` parameter of a map that takes only types that
/// implement `Clone`. Such a map can be cloned as a whole.
pub trait CloneAny {
    /// These operations are made for the type whose identifier is `id`.
    spec fn serves(&self, id: TypeId) -> bool;

    /// `copy` may be what cloning the value in `cell` gives: a cell with a
    /// clone of that value.
    spec fn clones(&self, cell: Erased, copy: Erased) -> bool;

    /// A clone of the value in `cell`, in a cell of its own.
    fn clone_any(&self, cell: &Erased) -> (copy: Erased)
        requires
            self.serves(type_of(*cell)),
        ensures
            self.clones(*cell, copy),
            type_of(copy) == type_of(*cell),
    ;
}

/// A bound: the kind of the operations that a map keeps beside each value.
/// The three bounds are `dyn PlainAny`, `dyn DebugAny` and `dyn CloneAny`.
pub trait Bound {
    /// These operations are made for the type whose identifier is `id`.
    spec fn fits(&self, id: TypeId) -> bool;
}

impl Bound for dyn PlainAny {
    open spec fn fits(&self, id: TypeId) -> bool {
        self.serves(id)
    }
}

impl Bound for dyn DebugAny {
    open spec fn fits(&self, id: TypeId) -> bool {
        self.serves(id)
    }
}

impl Bound for dyn CloneAny {
    open spec fn fits(&self, id: TypeId) -> bool {
        self.serves(id)
    }
}

/// The operations of the three bounds, made for the type `T`.
pub struct Ops<T> {
    marker: PhantomData<T>,
}

impl<T: 'static> Ops<T> {
    /// The operations for `T`.
    pub closed spec fn made() -> Self {
        Ops { marker: PhantomData }
    }
}

impl<T: 'static> PlainAny for Ops<T> {
    open spec fn serves(&self, id: TypeId) -> bool {
        names::<T>(id)
    }
}

/// `format!("{:?}", value)`: what `Debug` prints for `value`. Nothing is
/// promised of the text: it is what the `Debug` of `T` makes of the value.
#[verifier::external_body]
fn render<T: Debug>(value: &T) -> String {
    format!("{:?}", value)
}

/// `text` may be what `{:?}` prints for `value`: the two are a pair of what
/// goes into `format!("{:?}", ..)` and what came out of it.
pub closed spec fn printed<T: Debug>(value: T, text: String) -> bool {
    call_ensures(render::<T>, (&value,), text)
}

impl<T: Debug + 'static> DebugAny for Ops<T> {
    open spec fn serves(&self, id: TypeId) -> bool {
        names::<T>(id)
    }

    open spec fn prints(&self, cell: Erased, text: String) -> bool {
        exists|value: T| #[trigger] cell.holds(value) && printed(value, text)
    }

    fn debug_any(&self, cell: &Erased) -> (text: String) {
        match cell_ref::<T>(cell) {
            Some(value) => {
                let text = render(value);
                proof {
                    cell.lemma_holds(*value);
                    assert(printed(*value, text));
                }
                text
            },
            None => {
                assert(cell.is::<T>());
                unreached()
            },
        }
    }
}

impl<T: Clone + 'static> CloneAny for Ops<T> {
    open spec fn serves(&self, id: TypeId) -> bool {
        names::<T>(id)
    }

    open spec fn clones(&self, cell: Erased, copy: Erased) -> bool {
        exists|value: T, clone: T|
            {
                &&& #[trigger] cell.holds(value)
                &&& #[trigger] copy.holds(clone)
                &&& cloned(value, clone)
            }
    }

    fn clone_any(&self, cell: &Erased) -> (copy: Erased) {
        match cell_ref::<T>(cell) {
            Some(value) => {
                let clone = value.clone();
                let copy = erase(clone);
                proof {
                    cell.lemma_holds(*value);
                    assert(copy.is::<T>());
                }
                copy
            },
            None => {
                assert(cell.is::<T>());
                unreached()
            },
        }
    }
}

/// Operations of the bound `A` made for one type. All objects of that type
/// share them.
pub struct Shared<A: ?Sized + 'static> {
    pub ops: &'static A,
}

/// One value with its type hidden, as a map of bound `A` keeps it: the key of
/// the value's type, the cell with the value, and the operations of `A` made
/// for that type.
pub struct Object<A: ?Sized + Bound + 'static> {
    key: TypeKey,
    value: Erased,
    ops: Shared<A>,
}

impl<A: ?Sized + Bound + 'static> Object<A> {
    #[verifier::type_invariant]
    spec fn inv(self) -> bool {
        self.wf()
    }

    /// The three parts agree: the key is that of the type of the value, and the
    /// operations are made for that type. Every object that a program holds is
    /// well formed.
    pub open spec fn wf(self) -> bool {
        &&& self.id() == type_of(self.cell())
        &&& self.ops().ops.fits(self.id())
    }

    /// The object is what [`Implements::into_object`] makes of `value`: it holds
    /// `value` under the key of `T`, with the operations made for `T`.
    pub open spec fn holds<T: Implements<A>>(self, value: T) -> bool {
        &&& self.cell().holds(value)
        &&& self.id() == type_key::<T>()
        &&& self.ops() == T::ops()
    }

    /// The identifier of the type of the value.
    pub closed spec fn id(self) -> TypeId {
        self.key@
    }

    /// The cell with the value.
    pub closed spec fn cell(self) -> Erased {
        self.value
    }

    /// The operations of `A` that the object carries.
    pub closed spec fn ops(self) -> Shared<A> {
        self.ops
    }

    /// The key of the type of the value.
    pub fn key(&self) -> (key: &TypeKey)
        ensures
            key@ == self.id(),
            self.wf(),
    {
        proof {
            use_type_invariant(self);
        }
        &self.key
    }

    /// The value, if it is a `T`.
    pub fn get<T: 'static>(&self) -> (found: Option<&T>)
        ensures
            match found {
                Some(value) => self.cell().value::<T>() == Some(*value),
                None => self.cell().value::<T>() is None,
            },
    {
        cell_ref::<T>(&self.value)
    }

    /// The value for writing, if it is a `T`. What is written is what the
    /// object holds afterwards; its key and its operations stay.
    pub fn get_mut<T: 'static>(&mut self) -> (found: Option<&mut T>)
        ensures
            match found {
                Some(value) => {
                    &&& old(self).cell().value::<T>() == Some(*value)
                    &&& final(self).cell().holds(*final(value))
                    &&& type_of(final(self).cell()) == type_of(old(self).cell())
                    &&& final(self).id() == old(self).id()
                    &&& final(self).ops() == old(self).ops()
                },
                None => old(self).cell().value::<T>() is None && *final(self) == *old(self),
            },
        no_unwind
    {
        proof {
            use_type_invariant(&*self);
        }
        cell_mut::<T>(&mut self.value)
    }

    /// The value out of the object, if it is a `T`; `None`, and the value is
    /// dropped, if it is of another type.
    pub fn into_value<T: 'static>(self) -> (found: Option<T>)
        ensures
            found == self.cell().value::<T>(),
    {
        cell_into::<T>(self.value)
    }

    /// An object of the same type and with the same operations around another
    /// cell of that type.
    fn around(&self, value: Erased) -> (object: Self)
        requires
            type_of(value) == self.id(),
        ensures
            object.cell() == value,
            object.id() == self.id(),
            object.ops() == self.ops(),
    {
        proof {
            use_type_invariant(self);
        }
        Object { key: self.key, value, ops: Shared { ops: self.ops.ops } }
    }
}

impl Object<dyn DebugAny> {
    /// What `{:?}` prints for the value.
    pub fn debug(&self) -> (text: String)
        ensures
            self.ops().ops.prints(self.cell(), text),
    {
        proof {
            use_type_invariant(self);
        }
        self.ops.ops.debug_any(&self.value)
    }
}

impl Clone for Object<dyn CloneAny> {
    /// An object with a clone of the value, of the same type and with the same
    /// operations.
    fn clone(&self) -> (copy: Self)
        ensures
            self.ops().ops.clones(self.cell(), copy.cell()),
            copy.id() == self.id(),
            copy.ops() == self.ops(),
            copy.wf(),
    {
        proof {
            use_type_invariant(self);
        }
        let value = self.ops.ops.clone_any(&self.value);
        self.around(value)
    }
}

/// A type that a map of bound `A` takes: every `'static` type for
/// `dyn PlainAny`, those with `Debug` for `dyn DebugAny`, those with `Clone`
/// for `dyn CloneAny`.
pub trait Implements<A: ?Sized + Bound + 'static>: Sized + 'static {
    /// The operations of `A`, made for this type.
    spec fn ops() -> Shared<A>;

    /// Hides the type of `self`: the object holds `self` under the key of this
    /// type, with the operations of `A` made for it.
    fn into_object(self) -> (object: Object<A>)
        ensures
            object.cell().holds(self),
            object.id() == type_key::<Self>(),
            object.ops() == Self::ops(),
            object.wf(),
            names::<Self>(object.id()),
    ;
}

impl<T: 'static> Implements<dyn PlainAny> for T {
    open spec fn ops() -> Shared<dyn PlainAny> {
        Shared { ops: &Ops::<T>::made() }
    }

    fn into_object(self) -> (object: Object<dyn PlainAny>) {
        let key = TypeKey::of::<T>();
        let value = erase(self);
        assert(value.is::<T>());
        Object { key, value, ops: Shared { ops: &Ops::<T> { marker: PhantomData } } }
    }
}

impl<T: Debug + 'static> Implements<dyn DebugAny> for T {
    open spec fn ops() -> Shared<dyn DebugAny> {
        Shared { ops: &Ops::<T>::made() }
    }

    fn into_object(self) -> (object: Object<dyn DebugAny>) {
        let key = TypeKey::of::<T>();
        let value = erase(self);
        assert(value.is::<T>());
        Object { key, value, ops: Shared { ops: &Ops::<T> { marker: PhantomData } } }
    }
}

impl<T: Clone + 'static> Implements<dyn CloneAny> for T {
    open spec fn ops() -> Shared<dyn CloneAny> {
        Shared { ops: &Ops::<T>::made() }
    }

    fn into_object(self) -> (object: Object<dyn CloneAny>) {
        let key = TypeKey::of::<T>();
        let value = erase(self);
        assert(value.is::<T>());
        Object { key, value, ops: Shared { ops: &Ops::<T> { marker: PhantomData } } }
    }
}

} // verus!
