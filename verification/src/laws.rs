//! What holds of every map, whatever it holds: the laws that tie `insert`,
//! `get`, `remove` and `duplicate` together. Each is stated over the views
//! that the contracts of those functions speak of.

use crate::cell::{type_of, Erased};
use crate::internals::{Bound, CloneAny, Implements, Object};
use crate::key::{names, type_key};
use crate::map::TypeMap;
use std::any::TypeId;
use vstd::prelude::*;

verus! {

/// A type has one identifier: two identifiers of `T` are equal, once a cell
/// holds a `T`.
pub proof fn law_one_key<T: 'static>(first: TypeId, second: TypeId, cell: Erased)
    requires
        names::<T>(first),
        names::<T>(second),
        cell.is::<T>(),
    ensures
        first == second,
{
    assert(type_of(cell) == first);
    assert(type_of(cell) == second);
}

/// A key is the key of one type: where `T` and `U` have one identifier, no
/// cell tells them apart.
pub proof fn law_one_type_per_key<T: 'static, U: 'static>(id: TypeId, cell: Erased)
    requires
        names::<T>(id),
        names::<U>(id),
    ensures
        cell.is::<T>() == cell.is::<U>(),
{
    assert(cell.is::<T>() == (type_of(cell) == id));
    assert(cell.is::<U>() == (type_of(cell) == id));
}

/// A cell is of one type: where the identifiers of `T` and `U` differ, a cell
/// that holds a `T` holds no `U`.
pub proof fn law_one_type<T: 'static, U: 'static>(cell: Erased, first: TypeId, second: TypeId)
    requires
        names::<T>(first),
        names::<U>(second),
        first != second,
        cell.is::<T>(),
    ensures
        !cell.is::<U>(),
        cell.value::<U>() is None,
{
}

/// After `insert(value)`, `get` finds `value`: a map into which a `T` was put
/// has that value for `T`.
pub proof fn law_round_trip<A: ?Sized + Bound + 'static, T: 'static>(
    before: TypeMap<A>,
    after: TypeMap<A>,
    value: T,
)
    requires
        after.puts(before, value),
    ensures
        after.has::<T>(),
        after.value::<T>() == Some(value),
{
    after@[type_key::<T>()].cell().lemma_value(value);
}

/// Two `insert`s of one type: the second hands back what the first put, and
/// the map is left as if the second value alone had been put into it.
pub proof fn law_upsert<A: ?Sized + Bound + 'static, T: 'static>(
    start: TypeMap<A>,
    once: TypeMap<A>,
    twice: TypeMap<A>,
    first: T,
    second: T,
    prev: Option<T>,
)
    requires
        once.puts(start, first),
        twice.puts(once, second),
        prev == once.value::<T>(),
    ensures
        prev == Some(first),
        twice.value::<T>() == Some(second),
        twice.puts(start, second),
        twice@.dom() == start@.dom().insert(type_key::<T>()),
{
    law_round_trip(start, once, first);
    law_round_trip(once, twice, second);
    assert(twice@ =~= start@.insert(type_key::<T>(), twice@[type_key::<T>()]));
    assert(twice@.dom() =~= start@.dom().insert(type_key::<T>()));
}

/// Types do not meet: putting a `T` into a map changes nothing of what the map
/// has for another type `U`. A value stored as a `T` is never found as a `U`.
pub proof fn law_insert_apart<A: ?Sized + Bound + 'static, T: 'static, U: 'static>(
    before: TypeMap<A>,
    after: TypeMap<A>,
    value: T,
)
    requires
        type_key::<T>() != type_key::<U>(),
        after.puts(before, value),
    ensures
        after.has::<U>() == before.has::<U>(),
        after.value::<U>() == before.value::<U>(),
{
}

/// Taking the `T` out of a map changes nothing of what the map has for
/// another type `U`.
pub proof fn law_remove_apart<A: ?Sized + Bound + 'static, T: 'static, U: 'static>(
    before: TypeMap<A>,
    after: TypeMap<A>,
)
    requires
        type_key::<T>() != type_key::<U>(),
        after.drops::<T>(before),
    ensures
        after.has::<U>() == before.has::<U>(),
        after.value::<U>() == before.value::<U>(),
{
}

/// An empty map has a value of no type.
pub proof fn law_empty_misses<A: ?Sized + Bound + 'static, T: 'static>(map: TypeMap<A>)
    requires
        map@ == Map::<TypeId, Object<A>>::empty(),
    ensures
        !map.has::<T>(),
        map.value::<T>() is None,
{
}

/// After `remove::<T>()` the map has no value of type `T`.
pub proof fn law_removed_misses<A: ?Sized + Bound + 'static, T: 'static>(
    before: TypeMap<A>,
    after: TypeMap<A>,
)
    requires
        after.drops::<T>(before),
    ensures
        !after.has::<T>(),
        after.value::<T>() is None,
{
}

/// A copy of a map has, for each type, a clone of what the source has: where
/// the source holds `value` as `insert` left it, the copy holds a clone of
/// `value` in the same way.
pub proof fn law_duplicate<T: Clone + 'static>(
    source: TypeMap<dyn CloneAny>,
    copy: TypeMap<dyn CloneAny>,
    value: T,
) -> (clone: T)
    requires
        copy.copies(source),
        source.has::<T>(),
        source@[type_key::<T>()].holds(value),
    ensures
        cloned(value, clone),
        copy.has::<T>(),
        copy@[type_key::<T>()].holds(clone),
        copy.value::<T>() == Some(clone),
{
    let id = type_key::<T>();
    let from = source@[id];
    let to = copy@[id];
    assert(source@.contains_key(id));
    assert(copy@.dom().contains(id));
    assert(from.ops().ops.clones(from.cell(), to.cell()));
    let (held, clone) = choose|held: T, clone: T|
        {
            &&& #[trigger] from.cell().holds(held)
            &&& #[trigger] to.cell().holds(clone)
            &&& cloned(held, clone)
        };
    assert(held == value);
    to.cell().lemma_value(clone);
    clone
}

} // verus!
