//! The map itself.

use crate::cell::type_of;
use crate::internals::{Bound, CloneAny, DebugAny, Implements, Object, PlainAny};
use crate::key::{names, type_key, TypeKey};
use std::any::TypeId;
use vstd::prelude::*;

verus! {

/// The objects are well formed and no two of them are of one type.
spec fn listed<A: ?Sized + Bound + 'static>(data: Seq<Object<A>>) -> bool {
    &&& forall|i: int| 0 <= i < data.len() ==> (#[trigger] data[i]).wf()
    &&& forall|i: int, j: int|
        0 <= i < j < data.len() ==> (#[trigger] data[i]).id() != (#[trigger] data[j]).id()
}

/// The objects by the identifiers of their types.
spec fn by_id<A: ?Sized + Bound + 'static>(data: Seq<Object<A>>) -> Map<TypeId, Object<A>> {
    Map::new(
        |id: TypeId| exists|i: int| 0 <= i < data.len() && (#[trigger] data[i]).id() == id,
        |id: TypeId| data[choose|i: int| 0 <= i < data.len() && (#[trigger] data[i]).id() == id],
    )
}

proof fn lemma_at<A: ?Sized + Bound + 'static>(data: Seq<Object<A>>, at: int)
    requires
        listed(data),
        0 <= at < data.len(),
    ensures
        by_id(data).contains_key(data[at].id()),
        by_id(data)[data[at].id()] == data[at],
{
    let id = data[at].id();
    let chosen = choose|i: int| 0 <= i < data.len() && (#[trigger] data[i]).id() == id;
    assert(chosen == at) by {
        if chosen < at {
            assert(data[chosen].id() != data[at].id());
        } else if at < chosen {
            assert(data[at].id() != data[chosen].id());
        }
    }
}

proof fn lemma_push<A: ?Sized + Bound + 'static>(data: Seq<Object<A>>, object: Object<A>)
    requires
        listed(data),
        object.wf(),
        forall|i: int| 0 <= i < data.len() ==> (#[trigger] data[i]).id() != object.id(),
    ensures
        listed(data.push(object)),
        by_id(data.push(object)) == by_id(data).insert(object.id(), object),
{
    let after = data.push(object);
    assert(listed(after));
    assert forall|id: TypeId| by_id(after).contains_key(id) <==> by_id(data).insert(
        object.id(),
        object,
    ).contains_key(id) by {
        if by_id(after).contains_key(id) {
            let i = choose|i: int| 0 <= i < after.len() && (#[trigger] after[i]).id() == id;
            if i < data.len() {
                assert(data[i].id() == id);
            }
        }
        if by_id(data).contains_key(id) {
            let i = choose|i: int| 0 <= i < data.len() && (#[trigger] data[i]).id() == id;
            assert(after[i].id() == id);
        }
        if id == object.id() {
            assert(after[data.len() as int].id() == id);
        }
    }
    assert forall|id: TypeId| by_id(after).contains_key(id) implies by_id(after)[id] == by_id(
        data,
    ).insert(object.id(), object)[id] by {
        let i = choose|i: int| 0 <= i < after.len() && (#[trigger] after[i]).id() == id;
        lemma_at(after, i);
        if i < data.len() {
            assert(data[i] == after[i]);
            lemma_at(data, i);
        }
    }
    assert(by_id(after) =~= by_id(data).insert(object.id(), object));
}

proof fn lemma_update<A: ?Sized + Bound + 'static>(data: Seq<Object<A>>, at: int, object: Object<A>)
    requires
        listed(data),
        0 <= at < data.len(),
        object.wf(),
        object.id() == data[at].id(),
    ensures
        listed(data.update(at, object)),
        by_id(data.update(at, object)) == by_id(data).insert(object.id(), object),
{
    let after = data.update(at, object);
    assert(listed(after)) by {
        assert forall|i: int, j: int| 0 <= i < j < after.len() implies (#[trigger] after[i]).id()
            != (#[trigger] after[j]).id() by {
            assert(data[i].id() != data[j].id());
        }
    }
    assert forall|id: TypeId| by_id(after).contains_key(id) <==> by_id(data).insert(
        object.id(),
        object,
    ).contains_key(id) by {
        if by_id(after).contains_key(id) {
            let i = choose|i: int| 0 <= i < after.len() && (#[trigger] after[i]).id() == id;
            assert(data[i].id() == id);
        }
        if by_id(data).contains_key(id) {
            let i = choose|i: int| 0 <= i < data.len() && (#[trigger] data[i]).id() == id;
            assert(after[i].id() == id);
        }
        if id == object.id() {
            assert(after[at].id() == id);
        }
    }
    assert forall|id: TypeId| by_id(after).contains_key(id) implies by_id(after)[id] == by_id(
        data,
    ).insert(object.id(), object)[id] by {
        let i = choose|i: int| 0 <= i < after.len() && (#[trigger] after[i]).id() == id;
        lemma_at(after, i);
        if i != at {
            assert(data[i] == after[i]);
            lemma_at(data, i);
        }
    }
    assert(by_id(after) =~= by_id(data).insert(object.id(), object));
}

proof fn lemma_swap_remove<A: ?Sized + Bound + 'static>(data: Seq<Object<A>>, at: int)
    requires
        listed(data),
        0 <= at < data.len(),
    ensures
        listed(data.update(at, data.last()).drop_last()),
        by_id(data.update(at, data.last()).drop_last()) == by_id(data).remove(data[at].id()),
{
    let after = data.update(at, data.last()).drop_last();
    let last = data.len() - 1;
    assert forall|i: int| 0 <= i < after.len() implies (#[trigger] after[i]) == data[if i == at {
        last
    } else {
        i
    }] by {}
    assert(listed(after)) by {
        assert forall|i: int| 0 <= i < after.len() implies (#[trigger] after[i]).wf() by {
            assert(data[if i == at { last } else { i }].wf());
        }
        assert forall|i: int, j: int| 0 <= i < j < after.len() implies (#[trigger] after[i]).id()
            != (#[trigger] after[j]).id() by {
            let a = if i == at { last } else { i };
            let b = if j == at { last } else { j };
            if a < b {
                assert(data[a].id() != data[b].id());
            } else {
                assert(data[b].id() != data[a].id());
            }
        }
    }
    let gone = data[at].id();
    assert forall|id: TypeId| by_id(after).contains_key(id) <==> by_id(data).remove(
        gone,
    ).contains_key(id) by {
        if by_id(after).contains_key(id) {
            let i = choose|i: int| 0 <= i < after.len() && (#[trigger] after[i]).id() == id;
            let a = if i == at { last } else { i };
            assert(data[a].id() == id);
            if a < at {
                assert(data[a].id() != data[at].id());
            } else {
                assert(data[at].id() != data[a].id());
            }
        }
        if by_id(data).remove(gone).contains_key(id) {
            let i = choose|i: int| 0 <= i < data.len() && (#[trigger] data[i]).id() == id;
            if i == last {
                assert(after[at].id() == id);
            } else {
                assert(after[i].id() == id);
            }
        }
    }
    assert forall|id: TypeId| by_id(after).contains_key(id) implies by_id(after)[id] == by_id(
        data,
    ).remove(gone)[id] by {
        let i = choose|i: int| 0 <= i < after.len() && (#[trigger] after[i]).id() == id;
        lemma_at(after, i);
        lemma_at(data, if i == at { last } else { i });
    }
    assert(by_id(after) =~= by_id(data).remove(gone));
}

proof fn lemma_len<A: ?Sized + Bound + 'static>(data: Seq<Object<A>>)
    requires
        listed(data),
    ensures
        by_id(data).dom().finite(),
        by_id(data).dom().len() == data.len(),
    decreases data.len(),
{
    if data.len() == 0 {
        assert(by_id(data).dom() =~= Set::<TypeId>::empty());
    } else {
        let front = data.drop_last();
        let last = data.last();
        assert(listed(front)) by {
            assert forall|i: int| 0 <= i < front.len() implies (#[trigger] front[i]).wf() by {
                assert(data[i].wf());
            }
            assert forall|i: int, j: int| 0 <= i < j < front.len() implies (#[trigger] front[i]).id()
                != (#[trigger] front[j]).id() by {
                assert(data[i].id() != data[j].id());
            }
        }
        assert forall|i: int| 0 <= i < front.len() implies (#[trigger] front[i]).id()
            != last.id() by {
            assert(data[i].id() != data[data.len() - 1].id());
        }
        assert(last.wf()) by {
            assert(data[data.len() - 1].wf());
        }
        lemma_len(front);
        lemma_push(front, last);
        lemma_absent(front, last.id());
        assert(front.push(last) =~= data);
        assert(by_id(data).dom() =~= by_id(front).dom().insert(last.id()));
    }
}

proof fn lemma_same_ids<A: ?Sized + Bound + 'static>(data: Seq<Object<A>>, copy: Seq<Object<A>>)
    requires
        listed(data),
        copy.len() == data.len(),
        forall|i: int| 0 <= i < data.len() ==> (#[trigger] copy[i]).wf() && copy[i].id() == data[i].id(),
    ensures
        listed(copy),
        by_id(copy).dom() == by_id(data).dom(),
{
    assert forall|i: int, j: int| 0 <= i < j < copy.len() implies (#[trigger] copy[i]).id()
        != (#[trigger] copy[j]).id() by {
        assert(data[i].id() != data[j].id());
    }
    assert forall|id: TypeId| by_id(copy).contains_key(id) <==> by_id(data).contains_key(id) by {
        if by_id(copy).contains_key(id) {
            let i = choose|i: int| 0 <= i < copy.len() && (#[trigger] copy[i]).id() == id;
            assert(data[i].id() == id);
        }
        if by_id(data).contains_key(id) {
            let i = choose|i: int| 0 <= i < data.len() && (#[trigger] data[i]).id() == id;
            assert(copy[i].id() == id);
        }
    }
    assert(by_id(copy).dom() =~= by_id(data).dom());
}

proof fn lemma_absent<A: ?Sized + Bound + 'static>(data: Seq<Object<A>>, id: TypeId)
    requires
        forall|i: int| 0 <= i < data.len() ==> (#[trigger] data[i]).id() != id,
    ensures
        !by_id(data).contains_key(id),
{
}

/// The value of the object at `at` for writing, where that object is of type
/// `T`. What is written is what the object holds afterwards; no other object
/// changes.
fn value_at<A: ?Sized + Bound + 'static, T: 'static>(data: &mut Vec<Object<A>>, at: usize) -> (found:
    Option<&mut T>)
    requires
        listed(old(data)@),
        at < old(data)@.len(),
        names::<T>(old(data)@[at as int].id()),
    ensures
        listed(final(data)@),
        found matches Some(value) && {
            &&& old(data)@[at as int].cell().value::<T>() == Some(*value)
            &&& final(data)@[at as int].cell().holds(*final(value))
            &&& final(data)@[at as int].ops() == old(data)@[at as int].ops()
            &&& by_id(final(data)@) == by_id(old(data)@).insert(
                old(data)@[at as int].id(),
                final(data)@[at as int],
            )
        },
    no_unwind
{
    proof {
        let before = data@;
        assert(before[at as int].wf());
        assert forall|object: Object<A>|
            object.wf() && object.id() == before[at as int].id() implies listed(
            #[trigger] before.update(at as int, object),
        ) && by_id(before.update(at as int, object)) == by_id(before).insert(
            object.id(),
            object,
        ) by {
            lemma_update(before, at as int, object);
        }
    }
    data[at].get_mut::<T>()
}

/// A map from types to values: at most one value of each type that the bound
/// `A` admits, found again by its type.
pub struct TypeMap<A: ?Sized + Bound + 'static = dyn PlainAny> {
    data: Vec<Object<A>>,
}

impl<A: ?Sized + Bound + 'static> View for TypeMap<A> {
    type V = Map<TypeId, Object<A>>;

    /// The objects in the map, each under the identifier of the type of its
    /// value.
    closed spec fn view(&self) -> Map<TypeId, Object<A>> {
        by_id(self.data@)
    }
}

impl<A: ?Sized + Bound + 'static> TypeMap<A> {
    #[verifier::type_invariant]
    spec fn inv(self) -> bool {
        listed(self.data@)
    }

    /// Each object stands under the identifier of its own type.
    pub proof fn lemma_keyed(self, id: TypeId)
        requires
            self@.contains_key(id),
        ensures
            self@[id].id() == id,
    {
    }

    /// The map has a value of type `T`.
    pub open spec fn has<T: 'static>(self) -> bool {
        self@.contains_key(type_key::<T>())
    }

    /// The value of type `T` in the map, if it has one.
    pub open spec fn value<T: 'static>(self) -> Option<T> {
        if self.has::<T>() {
            self@[type_key::<T>()].cell().value::<T>()
        } else {
            None
        }
    }

    /// The map is `before` with `value` put under the type `T`: the entry of
    /// `T` holds `value`, and every other entry is as it was.
    pub open spec fn puts<T: 'static>(self, before: Self, value: T) -> bool {
        &&& self@ == before@.insert(type_key::<T>(), self@[type_key::<T>()])
        &&& self@[type_key::<T>()].cell().holds(value)
    }

    /// The map is `before` without its entry of the type `T`; every other entry
    /// is as it was.
    pub open spec fn drops<T: 'static>(self, before: Self) -> bool {
        self@ == before@.remove(type_key::<T>())
    }

    /// An empty map of the bound `A`.
    pub fn custom() -> (map: Self)
        ensures
            map@ == Map::<TypeId, Object<A>>::empty(),
    {
        let map = TypeMap { data: Vec::new() };
        assert(map@ =~= Map::<TypeId, Object<A>>::empty());
        map
    }

    /// Where the object under `key` stands.
    fn position(&self, key: &TypeKey) -> (at: Option<usize>)
        ensures
            match at {
                Some(at) => at < self.data@.len() && self.data@[at as int].id() == key@,
                None => forall|i: int|
                    0 <= i < self.data@.len() ==> (#[trigger] self.data@[i]).id() != key@,
            },
    {
        let mut at: usize = 0;
        while at < self.data.len()
            invariant
                at <= self.data@.len(),
                forall|i: int| 0 <= i < at ==> (#[trigger] self.data@[i]).id() != key@,
            decreases self.data@.len() - at,
        {
            if self.data[at].key().same(key) {
                return Some(at);
            }
            at += 1;
        }
        None
    }

    /// Whether the map has a value of type `T`.
    pub fn contains<T: Implements<A>>(&self) -> (has: bool)
        ensures
            has == self.has::<T>(),
            has == self.value::<T>().is_some(),
    {
        proof {
            use_type_invariant(self);
        }
        let key = TypeKey::of::<T>();
        match self.position(&key) {
            Some(at) => {
                proof {
                    lemma_at(self.data@, at as int);
                }
                true
            },
            None => {
                proof {
                    lemma_absent(self.data@, key@);
                }
                false
            },
        }
    }

    /// The value of type `T`, if the map has one.
    pub fn get<T: Implements<A>>(&self) -> (found: Option<&T>)
        ensures
            match found {
                Some(value) => self.value::<T>() == Some(*value),
                None => self.value::<T>() is None,
            },
            found.is_some() == self.has::<T>(),
    {
        proof {
            use_type_invariant(self);
        }
        let key = TypeKey::of::<T>();
        match self.position(&key) {
            Some(at) => {
                proof {
                    lemma_at(self.data@, at as int);
                }
                self.data[at].get::<T>()
            },
            None => {
                proof {
                    lemma_absent(self.data@, key@);
                }
                None
            },
        }
    }
    /// The value of type `T` for writing, if the map has one. What is written
    /// is what the map holds for `T` afterwards; nothing else changes.
    pub fn get_mut<T: Implements<A>>(&mut self) -> (found: Option<&mut T>)
        ensures
            match found {
                Some(value) => {
                    &&& old(self).value::<T>() == Some(*value)
                    &&& final(self).puts(*old(self), *final(value))
                    &&& final(self)@[type_key::<T>()].ops() == old(self)@[type_key::<T>()].ops()
                },
                None => old(self).value::<T>() is None && final(self)@ == old(self)@,
            },
            found.is_some() == old(self).has::<T>(),
    {
        proof {
            use_type_invariant(&*self);
        }
        let key = TypeKey::of::<T>();
        match self.position(&key) {
            Some(at) => {
                proof {
                    lemma_at(self.data@, at as int);
                }
                value_at::<A, T>(&mut self.data, at)
            },
            None => {
                proof {
                    lemma_absent(self.data@, key@);
                }
                None
            },
        }
    }

    /// Puts `value` into the map under its type. If the map had a value of that
    /// type, that value leaves the map and is returned.
    pub fn insert<T: Implements<A>>(&mut self, value: T) -> (prev: Option<T>)
        ensures
            final(self).puts(*old(self), value),
            final(self)@[type_key::<T>()].holds(value),
            prev == old(self).value::<T>(),
            prev.is_some() == old(self).has::<T>(),
    {
        proof {
            use_type_invariant(&*self);
        }
        let object = value.into_object();
        let found = self.position(object.key());
        let mut data: Vec<Object<A>> = Vec::new();
        core::mem::swap(&mut self.data, &mut data);
        let ghost before = data@;
        match found {
            Some(at) => {
                proof {
                    lemma_at(before, at as int);
                    lemma_update(before, at as int, object);
                }
                data.push(object);
                let old = data.swap_remove(at);
                assert(data@ =~= before.update(at as int, object));
                core::mem::swap(&mut self.data, &mut data);
                old.into_value::<T>()
            },
            None => {
                proof {
                    lemma_absent(before, object.id());
                    lemma_push(before, object);
                }
                data.push(object);
                core::mem::swap(&mut self.data, &mut data);
                None
            },
        }
    }

    /// Takes the value of type `T` out of the map, if it has one.
    pub fn remove<T: Implements<A>>(&mut self) -> (taken: Option<T>)
        ensures
            final(self).drops::<T>(*old(self)),
            taken == old(self).value::<T>(),
            taken.is_some() == old(self).has::<T>(),
    {
        proof {
            use_type_invariant(&*self);
        }
        let key = TypeKey::of::<T>();
        let found = self.position(&key);
        match found {
            Some(at) => {
                let mut data: Vec<Object<A>> = Vec::new();
                core::mem::swap(&mut self.data, &mut data);
                proof {
                    lemma_at(data@, at as int);
                    lemma_swap_remove(data@, at as int);
                }
                let old = data.swap_remove(at);
                core::mem::swap(&mut self.data, &mut data);
                old.into_value::<T>()
            },
            None => {
                proof {
                    lemma_absent(self.data@, key@);
                    assert(self@ =~= self@.remove(key@));
                }
                None
            },
        }
    }

    /// Whether the map has no value at all.
    pub fn is_empty(&self) -> (empty: bool)
        ensures
            empty == (self@ == Map::<TypeId, Object<A>>::empty()),
    {
        proof {
            use_type_invariant(self);
            if self.data@.len() > 0 {
                lemma_at(self.data@, 0);
            } else {
                assert(self@ =~= Map::<TypeId, Object<A>>::empty());
            }
        }
        self.data.len() == 0
    }

    /// Takes every value out of the map.
    pub fn clear(&mut self)
        ensures
            final(self)@ == Map::<TypeId, Object<A>>::empty(),
    {
        let mut data: Vec<Object<A>> = Vec::new();
        core::mem::swap(&mut self.data, &mut data);
        assert(self@ =~= Map::<TypeId, Object<A>>::empty());
    }
    /// The number of values in the map.
    pub fn len(&self) -> (len: usize)
        ensures
            self@.dom().finite(),
            len == self@.dom().len(),
    {
        proof {
            use_type_invariant(self);
            lemma_len(self.data@);
        }
        self.data.len()
    }
}

impl TypeMap<dyn PlainAny> {
    /// An empty map that takes a value of any type.
    pub fn new() -> (map: Self)
        ensures
            map@ == Map::<TypeId, Object<dyn PlainAny>>::empty(),
    {
        TypeMap::custom()
    }
}

impl TypeMap<dyn DebugAny> {
    /// `lines` holds one line for each entry of the map, and in each what
    /// `{:?}` prints for the value of that entry.
    pub open spec fn prints(self, lines: Seq<String>) -> bool {
        exists|ids: Seq<TypeId>|
            {
                &&& #[trigger] ids.no_duplicates()
                &&& ids.len() == lines.len()
                &&& ids.to_set() == self@.dom()
                &&& forall|i: int|
                    0 <= i < ids.len() ==> self@[#[trigger] ids[i]].ops().ops.prints(
                        self@[ids[i]].cell(),
                        lines[i],
                    )
            }
    }

    /// What `{:?}` prints for each value in the map, one line for each, in no
    /// order that a caller can rely on.
    pub fn debug(&self) -> (lines: Vec<String>)
        ensures
            lines@.len() == self@.dom().len(),
            self.prints(lines@),
    {
        proof {
            use_type_invariant(self);
            lemma_len(self.data@);
        }
        let mut lines: Vec<String> = Vec::new();
        let mut at: usize = 0;
        while at < self.data.len()
            invariant
                listed(self.data@),
                at <= self.data@.len(),
                lines@.len() == at,
                forall|i: int|
                    0 <= i < at ==> (#[trigger] self.data@[i]).ops().ops.prints(
                        self.data@[i].cell(),
                        lines@[i],
                    ),
            decreases self.data@.len() - at,
        {
            lines.push(self.data[at].debug());
            at += 1;
        }
        proof {
            let data = self.data@;
            let ids = Seq::new(data.len(), |i: int| data[i].id());
            assert forall|i: int, j: int| 0 <= i < ids.len() && 0 <= j < ids.len() && i != j implies ids[i]
                != ids[j] by {
                if i < j {
                    assert(data[i].id() != data[j].id());
                } else {
                    assert(data[j].id() != data[i].id());
                }
            }
            assert forall|id: TypeId| ids.to_set().contains(id) <==> self@.contains_key(id) by {
                if ids.to_set().contains(id) {
                    let i = choose|i: int| 0 <= i < ids.len() && ids[i] == id;
                    assert(data[i].id() == id);
                }
                if self@.contains_key(id) {
                    let i = choose|i: int| 0 <= i < data.len() && (#[trigger] data[i]).id() == id;
                    assert(ids[i] == id);
                }
            }
            assert(ids.to_set() =~= self@.dom());
            assert forall|i: int| 0 <= i < ids.len() implies self@[#[trigger] ids[i]].ops().ops.prints(
                self@[ids[i]].cell(),
                lines@[i],
            ) by {
                lemma_at(data, i);
                assert(data[i].ops().ops.prints(data[i].cell(), lines@[i]));
            }
            assert(ids.no_duplicates());
        }
        lines
    }
}

impl TypeMap<dyn CloneAny> {
    /// The map is a copy of `source`: it has an entry for the same types, and
    /// each entry is of the same type and has the same operations as the
    /// source's, around a clone of the source's value.
    pub open spec fn copies(self, source: Self) -> bool {
        &&& self@.dom() == source@.dom()
        &&& forall|id: TypeId| #[trigger]
            source@.contains_key(id) ==> {
                &&& self@[id].id() == source@[id].id()
                &&& self@[id].ops() == source@[id].ops()
                &&& source@[id].ops().ops.clones(source@[id].cell(), self@[id].cell())
            }
    }

    /// A map with a clone of each value of this one. The two maps share no
    /// value: what is done to one afterwards leaves the other as it was.
    pub fn duplicate(&self) -> (copy: Self)
        ensures
            copy.copies(*self),
    {
        proof {
            use_type_invariant(self);
        }
        let mut data: Vec<Object<dyn CloneAny>> = Vec::new();
        let mut at: usize = 0;
        while at < self.data.len()
            invariant
                listed(self.data@),
                at <= self.data@.len(),
                data@.len() == at,
                forall|i: int|
                    0 <= i < at ==> {
                        &&& (#[trigger] data@[i]).wf()
                        &&& data@[i].id() == self.data@[i].id()
                        &&& data@[i].ops() == self.data@[i].ops()
                        &&& self.data@[i].ops().ops.clones(self.data@[i].cell(), data@[i].cell())
                    },
            decreases self.data@.len() - at,
        {
            assert(self.data@[at as int].wf());
            let object = self.data[at].clone();
            data.push(object);
            at += 1;
        }
        proof {
            lemma_same_ids(self.data@, data@);
            assert forall|id: TypeId| #[trigger] by_id(self.data@).contains_key(id) implies {
                &&& by_id(data@)[id].id() == by_id(self.data@)[id].id()
                &&& by_id(data@)[id].ops() == by_id(self.data@)[id].ops()
                &&& by_id(self.data@)[id].ops().ops.clones(
                    by_id(self.data@)[id].cell(),
                    by_id(data@)[id].cell(),
                )
            } by {
                let i = choose|i: int| 0 <= i < self.data@.len() && (#[trigger] self.data@[i]).id() == id;
                lemma_at(self.data@, i);
                assert(data@[i].id() == id);
                lemma_at(data@, i);
            }
        }
        TypeMap { data }
    }
}

impl Clone for TypeMap<dyn CloneAny> {
    /// A map with a clone of each value of this one.
    fn clone(&self) -> (copy: Self)
        ensures
            copy.copies(*self),
    {
        self.duplicate()
    }
}

} // verus!
