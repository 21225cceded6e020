use vstd::prelude::*;
use crate::component::{ComponentList, Position, Velocity};
use crate::entity::{group_entity, Entity};

verus! {

broadcast use group_entity;

/// A set of component types that an entity must have in order to be selected.
#[derive(Clone, Copy, Debug, PartialEq, Eq)]
pub struct Aspect {
    /// The entity must have a position.
    pub position: bool,
    /// The entity must have a velocity.
    pub velocity: bool,
}

/// The component store: the entities created so far, and for each of them an
/// optional position and an optional velocity, held independently.
pub struct Components<S> {
    spawned: usize,
    pos: ComponentList<Position<S>>,
    vel: ComponentList<Velocity<S>>,
}

impl<S> Components<S> {
    /// The entities of this store, in the order of their creation.
    pub closed spec fn entities(self) -> Seq<Entity> {
        Seq::new(self.spawned as nat, |i: int| Entity::numbered(i as usize))
    }

    /// The position of each entity that has one.
    pub closed spec fn positions(self) -> Map<Entity, Position<S>> {
        self.pos@
    }

    /// The velocity of each entity that has one.
    pub closed spec fn velocities(self) -> Map<Entity, Velocity<S>> {
        self.vel@
    }

    /// Only entities of this store have components.
    pub closed spec fn wf(self) -> bool {
        &&& forall|e: Entity| #[trigger] self.pos@.contains_key(e) ==> e.id() < self.spawned
        &&& forall|e: Entity| #[trigger] self.vel@.contains_key(e) ==> e.id() < self.spawned
    }

    /// Whether the components of `entity` include all that `aspect` requires.
    pub open spec fn admits(self, aspect: Aspect, entity: Entity) -> bool {
        &&& aspect.position ==> self.positions().contains_key(entity)
        &&& aspect.velocity ==> self.velocities().contains_key(entity)
    }

    /// The entities that `aspect` selects, in the order of their creation.
    pub open spec fn matching(self, aspect: Aspect) -> Seq<Entity> {
        self.entities().filter(|e: Entity| self.admits(aspect, e))
    }

    /// The entities of a store are numbered in the order of their creation,
    /// from zero.
    pub proof fn lemma_entities_numbered(self, i: int)
        requires
            0 <= i < self.entities().len(),
        ensures
            self.entities()[i].id() == i,
    {
    }

    /// No entity occurs twice among the entities of a store.
    pub proof fn lemma_entities_distinct(self)
        ensures
            self.entities().no_duplicates(),
    {
        let s = self.entities();
        assert forall|i: int, j: int| 0 <= i < s.len() && 0 <= j < s.len() && i != j implies s[i]
            != s[j] by {
            self.lemma_entities_numbered(i);
            self.lemma_entities_numbered(j);
        }
    }

    /// Whatever has a component is an entity of the store.
    pub proof fn lemma_components_belong(self, entity: Entity)
        requires
            self.wf(),
            self.positions().contains_key(entity) || self.velocities().contains_key(entity),
        ensures
            self.entities().contains(entity),
    {
        assert(self.entities()[entity.id() as int] == entity);
    }

    /// The aspect query is exact: it selects the entities of the store whose
    /// components include all that `aspect` requires, those and no others,
    /// and each of them once.
    pub proof fn lemma_matching_exact(self, aspect: Aspect)
        ensures
            self.matching(aspect).no_duplicates(),
            forall|e: Entity| #[trigger]
                self.matching(aspect).contains(e) <==> self.entities().contains(e) && self.admits(
                    aspect,
                    e,
                ),
    {
        let all = self.entities();
        let pred = |e: Entity| self.admits(aspect, e);
        self.lemma_entities_distinct();
        lemma_filter_distinct(all, pred);
        assert forall|e: Entity| #[trigger]
            all.filter(pred).contains(e) <==> all.contains(e) && pred(e) by {
            if all.filter(pred).contains(e) {
                all.lemma_filter_contains_rev(pred, e);
                let i = choose|i: int| 0 <= i < all.filter(pred).len() && all.filter(pred)[i] == e;
                all.lemma_filter_pred(pred, i);
            }
            if all.contains(e) && pred(e) {
                let i = choose|i: int| 0 <= i < all.len() && all[i] == e;
                all.lemma_filter_contains(pred, i);
            }
        }
    }

    /// A store without entities.
    pub fn new() -> (store: Self)
        ensures
            store.wf(),
            store.entities() == Seq::<Entity>::empty(),
            store.positions() == Map::<Entity, Position<S>>::empty(),
            store.velocities() == Map::<Entity, Velocity<S>>::empty(),
    {
        let store = Components { spawned: 0, pos: ComponentList::new(), vel: ComponentList::new() };
        assert(store.entities() =~= Seq::<Entity>::empty());
        store
    }

    /// How many entities were created.
    pub fn entity_count(&self) -> (count: usize)
        ensures
            count == self.entities().len(),
    {
        self.spawned
    }

    /// Creates an entity with the components given, and no others.
    pub fn create_entity(
        &mut self,
        position: Option<Position<S>>,
        velocity: Option<Velocity<S>>,
    ) -> (entity: Entity)
        requires
            old(self).wf(),
            old(self).entities().len() < usize::MAX,
        ensures
            final(self).wf(),
            entity.id() == old(self).entities().len(),
            !old(self).entities().contains(entity),
            final(self).entities() == old(self).entities().push(entity),
            final(self).positions() == match position {
                Some(p) => old(self).positions().insert(entity, p),
                None => old(self).positions(),
            },
            final(self).velocities() == match velocity {
                Some(v) => old(self).velocities().insert(entity, v),
                None => old(self).velocities(),
            },
    {
        let entity = Entity::new(self.spawned);
        assert(!old(self).entities().contains(entity)) by {
            let s = old(self).entities();
            assert forall|i: int| 0 <= i < s.len() implies s[i] != entity by {
                assert(s[i].id() == i);
            }
        }
        if let Some(p) = position {
            self.pos.add(entity, p);
        }
        if let Some(v) = velocity {
            self.vel.add(entity, v);
        }
        self.spawned = self.spawned + 1;
        assert(self.entities() =~= old(self).entities().push(entity));
        entity
    }

    /// Whether `entity` has a position.
    pub fn has_position(&self, entity: Entity) -> (present: bool)
        ensures
            present == self.positions().contains_key(entity),
    {
        self.pos.has(entity)
    }

    /// Whether `entity` has a velocity.
    pub fn has_velocity(&self, entity: Entity) -> (present: bool)
        ensures
            present == self.velocities().contains_key(entity),
    {
        self.vel.has(entity)
    }

    /// The position of `entity`, which has one.
    pub fn position(&self, entity: Entity) -> (position: &Position<S>)
        requires
            self.positions().contains_key(entity),
        ensures
            *position == self.positions()[entity],
    {
        self.pos.at(entity)
    }

    /// The velocity of `entity`, which has one.
    pub fn velocity(&self, entity: Entity) -> (velocity: &Velocity<S>)
        requires
            self.velocities().contains_key(entity),
        ensures
            *velocity == self.velocities()[entity],
    {
        self.vel.at(entity)
    }

    /// Overwrites the position of `entity`, which has one.
    pub fn set_position(&mut self, entity: Entity, position: Position<S>)
        requires
            old(self).wf(),
            old(self).positions().contains_key(entity),
        ensures
            final(self).wf(),
            final(self).entities() == old(self).entities(),
            final(self).positions() == old(self).positions().insert(entity, position),
            final(self).velocities() == old(self).velocities(),
    {
        self.pos.set(entity, position);
    }

    /// Whether the components of `entity` include all that `aspect` requires.
    pub fn check(&self, aspect: Aspect, entity: Entity) -> (selected: bool)
        ensures
            selected == self.admits(aspect, entity),
    {
        (!aspect.position || self.pos.has(entity)) && (!aspect.velocity || self.vel.has(entity))
    }

    /// The aspect query: the entities whose components include all that
    /// `aspect` requires, in the order of their creation.
    pub fn query(&self, aspect: Aspect) -> (found: Vec<Entity>)
        ensures
            found@ == self.matching(aspect),
    {
        let ghost all = self.entities();
        let ghost pred = |e: Entity| self.admits(aspect, e);
        let mut found: Vec<Entity> = Vec::new();
        let mut i: usize = 0;
        proof {
            reveal(Seq::filter);
            assert(all.take(0) =~= Seq::<Entity>::empty());
        }
        while i < self.spawned
            invariant
                i <= self.spawned,
                all == self.entities(),
                pred == (|e: Entity| self.admits(aspect, e)),
                found@ == all.take(i as int).filter(pred),
            decreases self.spawned - i,
        {
            let entity = Entity::new(i);
            proof {
                all.take(i as int).lemma_filter_push(entity, pred);
                assert(all.take(i as int + 1) =~= all.take(i as int).push(entity));
            }
            if self.check(aspect, entity) {
                found.push(entity);
            }
            i = i + 1;
        }
        proof {
            assert(all.take(i as int) =~= all);
        }
        found
    }
}

/// Filtering keeps a sequence free of repetitions.
proof fn lemma_filter_distinct<A>(s: Seq<A>, pred: spec_fn(A) -> bool)
    requires
        s.no_duplicates(),
    ensures
        s.filter(pred).no_duplicates(),
    decreases s.len(),
{
    reveal(Seq::filter);
    if s.len() > 0 {
        let front = s.drop_last();
        let last = s.last();
        lemma_filter_distinct(front, pred);
        if pred(last) && front.filter(pred).contains(last) {
            front.lemma_filter_contains_rev(pred, last);
            let i = choose|i: int| 0 <= i < front.len() && front[i] == last;
            assert(s[i] == s[s.len() - 1]);
        }
    }
}

} // verus!
