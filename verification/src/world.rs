use vstd::prelude::*;
use crate::component::{Position, Velocity};
use crate::entity::Entity;
use crate::store::Components;
use crate::system::{MotionProcess, Notice, Particles};

verus! {

/// The systems of a world, in the order in which an update runs them.
#[derive(Clone, Copy, Debug, PartialEq, Eq)]
pub struct Systems {
    pub particles: Particles,
    pub motion: MotionProcess,
}

/// The world: one component store and the systems that work on it.
pub struct World<S> {
    systems: Systems,
    data: Components<S>,
}

impl<S> World<S> {
    /// The component store of this world.
    pub closed spec fn store(&self) -> Components<S> {
        self.data
    }

    /// The world is valid when its store is.
    pub open spec fn wf(&self) -> bool {
        self.store().wf()
    }

    /// Whether `sum` takes the coordinates that an update of `store` hands
    /// it: those of every entity with a position and a velocity, each with
    /// its delta.
    pub open spec fn ready<F: Fn(S, S) -> S>(store: Components<S>, sum: F) -> bool {
        forall|e: Entity|
            #![trigger store.positions()[e]]
            store.positions().contains_key(e) && store.velocities().contains_key(e) ==> {
                &&& sum.requires((store.positions()[e].x, store.velocities()[e].dx))
                &&& sum.requires((store.positions()[e].y, store.velocities()[e].dy))
            }
    }

    /// Whether `post` is what one update can leave of `pre`. Every entity
    /// with a position and a velocity has gone on by its velocity, as `sum`
    /// adds them. Every other position is as it was. No entity and no
    /// component has come or gone, and no velocity has changed.
    pub open spec fn ticked<F: Fn(S, S) -> S>(
        pre: Components<S>,
        post: Components<S>,
        sum: F,
    ) -> bool {
        &&& post.entities() == pre.entities()
        &&& post.velocities() == pre.velocities()
        &&& post.positions().dom() == pre.positions().dom()
        &&& forall|e: Entity|
            #![trigger post.positions()[e]]
            pre.positions().contains_key(e) && pre.velocities().contains_key(e) ==> {
                &&& sum.ensures(
                    (pre.positions()[e].x, pre.velocities()[e].dx),
                    post.positions()[e].x,
                )
                &&& sum.ensures(
                    (pre.positions()[e].y, pre.velocities()[e].dy),
                    post.positions()[e].y,
                )
            }
        &&& forall|e: Entity|
            #![trigger post.positions()[e]]
            pre.positions().contains_key(e) && !pre.velocities().contains_key(e)
                ==> post.positions()[e] == pre.positions()[e]
    }

    /// What one update of `pre` reports: first the particle system, once,
    /// then the motion system for each entity that it moves, in the order
    /// of their creation.
    pub open spec fn report(pre: Components<S>) -> Seq<Notice> {
        seq![Notice::Particles] + MotionProcess::notices(pre.matching(MotionProcess::aspect()))
    }

    /// A world without entities.
    pub fn new() -> (world: Self)
        ensures
            world.wf(),
            world.store().entities() == Seq::<Entity>::empty(),
            world.store().positions() == Map::<Entity, Position<S>>::empty(),
            world.store().velocities() == Map::<Entity, Velocity<S>>::empty(),
    {
        World {
            systems: Systems { particles: Particles, motion: MotionProcess },
            data: Components::new(),
        }
    }

    /// The component store of this world.
    pub fn components(&self) -> (store: &Components<S>)
        ensures
            *store == self.store(),
    {
        &self.data
    }

    /// Creates an entity with the components given, and no others.
    pub fn create_entity(
        &mut self,
        position: Option<Position<S>>,
        velocity: Option<Velocity<S>>,
    ) -> (entity: Entity)
        requires
            old(self).wf(),
            old(self).store().entities().len() < usize::MAX,
        ensures
            final(self).wf(),
            entity.id() == old(self).store().entities().len(),
            !old(self).store().entities().contains(entity),
            final(self).store().entities() == old(self).store().entities().push(entity),
            final(self).store().positions() == match position {
                Some(p) => old(self).store().positions().insert(entity, p),
                None => old(self).store().positions(),
            },
            final(self).store().velocities() == match velocity {
                Some(v) => old(self).store().velocities().insert(entity, v),
                None => old(self).store().velocities(),
            },
    {
        self.data.create_entity(position, velocity)
    }
}

impl<S: Copy> World<S> {
    /// Advances the world by one tick: runs each system once, the particle
    /// system and then the motion system, and returns what they report.
    pub fn update<F: Fn(S, S) -> S>(&mut self, sum: F) -> (log: Vec<Notice>)
        requires
            old(self).wf(),
            Self::ready(old(self).store(), sum),
        ensures
            final(self).wf(),
            Self::ticked(old(self).store(), final(self).store(), sum),
            log@ == Self::report(old(self).store()),
    {
        let ghost pre = self.data;
        let mut log: Vec<Notice> = Vec::new();
        let notice = self.systems.particles.process(&self.data);
        log.push(notice);
        let moving = self.data.query(MotionProcess::aspect());
        proof {
            pre.lemma_matching_exact(MotionProcess::aspect());
        }
        let mut moved = self.systems.motion.process(&moving, &mut self.data, sum);
        log.append(&mut moved);
        proof {
            assert forall|e: Entity|
                pre.positions().contains_key(e) && pre.velocities().contains_key(
                    e,
                ) implies moving@.contains(e) by {
                pre.lemma_components_belong(e);
            }
            assert(log@ =~= Self::report(pre));
        }
        log
    }

    /// A world of particles: one entity for each of `velocities`, in their
    /// order, each at `origin` and with that velocity.
    pub fn with_particles(origin: Position<S>, velocities: &Vec<Velocity<S>>) -> (world: Self)
        ensures
            world.wf(),
            world.store().entities().len() == velocities.len(),
            world.store().entities().no_duplicates(),
            world.store().positions().dom() == world.store().entities().to_set(),
            world.store().velocities().dom() == world.store().entities().to_set(),
            forall|i: int|
                #![trigger world.store().entities()[i]]
                0 <= i < velocities.len() ==> {
                    &&& world.store().positions()[world.store().entities()[i]] == origin
                    &&& world.store().velocities()[world.store().entities()[i]]
                        == velocities[i]
                },
    {
        let mut world: World<S> = World::new();
        let mut i: usize = 0;
        proof {
            assert(world.store().positions().dom() =~= world.store().entities().to_set());
            assert(world.store().velocities().dom() =~= world.store().entities().to_set());
        }
        while i < velocities.len()
            invariant
                i <= velocities.len(),
                world.wf(),
                world.store().entities().len() == i,
                world.store().entities().no_duplicates(),
                world.store().positions().dom() == world.store().entities().to_set(),
                world.store().velocities().dom() == world.store().entities().to_set(),
                forall|j: int|
                    #![trigger world.store().entities()[j]]
                    0 <= j < i ==> {
                        &&& world.store().positions()[world.store().entities()[j]]
                            == origin
                        &&& world.store().velocities()[world.store().entities()[j]]
                            == velocities[j]
                    },
            decreases velocities.len() - i,
        {
            let ghost before = world.store();
            let entity = world.create_entity(Some(origin), Some(velocities[i]));
            proof {
                let after = world.store();
                assert(after.positions().dom() =~= after.entities().to_set()) by {
                    assert forall|e: Entity|
                        after.entities().contains(e) <==> before.entities().contains(e) || e
                            == entity by {
                        vstd::seq_lib::lemma_seq_contains_after_push(before.entities(), entity, e);
                    }
                }
                assert(after.velocities().dom() =~= after.entities().to_set());
                assert forall|j: int| 0 <= j < i implies after.entities()[j] != entity by {
                    assert(before.entities()[j] == after.entities()[j]);
                }
            }
            i = i + 1;
        }
        world
    }
}

} // verus!
