use vstd::prelude::*;

verus! {

/// An identity with no data of its own: a key into the component lists.
///
/// Entities are handed out by a store, numbered in the order of creation.
#[derive(Clone, Copy, Debug, PartialEq, Eq, Hash)]
pub struct Entity {
    index: usize,
}

impl Entity {
    /// The number of this entity: its place in the order of creation.
    pub closed spec fn id(self) -> usize {
        self.index
    }

    /// The entity that carries the number `id`.
    pub closed spec fn numbered(id: usize) -> Entity {
        Entity { index: id }
    }

    pub(crate) fn new(index: usize) -> (entity: Entity)
        ensures
            entity == Entity::numbered(index),
    {
        Entity { index }
    }

    /// The number of this entity.
    pub fn index(&self) -> (index: usize)
        ensures
            index == self.id(),
    {
        self.index
    }

    /// An entity is its number and nothing else.
    pub broadcast proof fn lemma_numbered_id(id: usize)
        ensures
            (#[trigger] Entity::numbered(id)).id() == id,
    {
    }

    /// Two entities with the same number are the same entity.
    pub broadcast proof fn lemma_id_numbered(entity: Entity)
        ensures
            Entity::numbered(#[trigger] entity.id()) == entity,
    {
    }
}

pub broadcast group group_entity {
    Entity::lemma_numbered_id,
    Entity::lemma_id_numbered,
}

} // verus!
