use vstd::prelude::*;
use crate::entity::{Entity, group_entity};

verus! {

broadcast use group_entity;

/// Where an entity is: a pair of coordinates.
#[derive(Debug, PartialEq)]
pub struct Position<S> {
    pub x: S,
    pub y: S,
}

impl<S: Copy> Clone for Position<S> {
    fn clone(&self) -> (copy: Self)
        ensures
            copy == *self,
    {
        *self
    }
}

impl<S: Copy> Copy for Position<S> {}

/// How far an entity goes in one update: a pair of deltas.
#[derive(Debug, PartialEq)]
pub struct Velocity<S> {
    pub dx: S,
    pub dy: S,
}

impl<S: Copy> Clone for Velocity<S> {
    fn clone(&self) -> (copy: Self)
        ensures
            copy == *self,
    {
        *self
    }
}

impl<S: Copy> Copy for Velocity<S> {}

/// The values of one component type, by entity. An entity has at most one.
pub struct ComponentList<T> {
    slots: Vec<Option<T>>,
}

impl<T> View for ComponentList<T> {
    type V = Map<Entity, T>;

    closed spec fn view(&self) -> Map<Entity, T> {
        Map::new(
            |e: Entity| e.id() < self.slots.len() && self.slots[e.id() as int] is Some,
            |e: Entity| self.slots[e.id() as int]->0,
        )
    }
}

impl<T> ComponentList<T> {
    /// A list in which no entity has a value.
    pub fn new() -> (list: Self)
        ensures
            list@ == Map::<Entity, T>::empty(),
    {
        let list = ComponentList { slots: Vec::new() };
        assert(list@ =~= Map::<Entity, T>::empty());
        list
    }

    /// Attaches `value` to `entity`, in place of the value it had, if any,
    /// and returns that earlier value.
    pub fn add(&mut self, entity: Entity, value: T) -> (earlier: Option<T>)
        ensures
            final(self)@ == old(self)@.insert(entity, value),
            earlier == if old(self)@.contains_key(entity) {
                Some(old(self)@[entity])
            } else {
                None
            },
    {
        let index: usize = entity.index();
        while self.slots.len() <= index
            invariant
                self@ == old(self)@,
                index == entity.id(),
            decreases index + 1 - self.slots.len(),
        {
            let ghost before = self@;
            self.slots.push(None);
            assert(self@ =~= before);
        }
        let mut slot: Option<T> = Some(value);
        std::mem::swap(&mut self.slots[index], &mut slot);
        assert(self@ =~= old(self)@.insert(entity, value));
        slot
    }

    /// Whether `entity` has a value in this list.
    pub fn has(&self, entity: Entity) -> (present: bool)
        ensures
            present == self@.contains_key(entity),
    {
        let index: usize = entity.index();
        index < self.slots.len() && self.slots[index].is_some()
    }

    /// The value of `entity`, which has one.
    pub fn at(&self, entity: Entity) -> (value: &T)
        requires
            self@.contains_key(entity),
        ensures
            *value == self@[entity],
    {
        self.slots[entity.index()].as_ref().unwrap()
    }

    /// Overwrites the value of `entity`, which has one.
    pub fn set(&mut self, entity: Entity, value: T)
        requires
            old(self)@.contains_key(entity),
        ensures
            final(self)@ == old(self)@.insert(entity, value),
    {
        let index: usize = entity.index();
        self.slots[index] = Some(value);
        assert(self@ =~= old(self)@.insert(entity, value));
    }
}

impl<T: Copy> ComponentList<T> {
    /// The value of `entity`, if it has one.
    pub fn get(&self, entity: Entity) -> (value: Option<T>)
        ensures
            value == if self@.contains_key(entity) {
                Some(self@[entity])
            } else {
                None
            },
    {
        let index: usize = entity.index();
        if index < self.slots.len() {
            self.slots[index]
        } else {
            None
        }
    }
}

} // verus!
