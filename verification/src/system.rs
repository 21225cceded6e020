use vstd::prelude::*;
use crate::component::Position;
use crate::entity::Entity;
use crate::store::{Aspect, Components};

verus! {

/// What a system reports when it runs: one notice for each diagnostic line.
#[derive(Clone, Copy, Debug, PartialEq, Eq)]
pub enum Notice {
    /// The particle system ran.
    Particles,
    /// The motion system moved this entity.
    Entity(Entity),
}

impl Notice {
    /// The diagnostic line of this notice.
    pub fn message(&self) -> (text: &'static str)
        ensures
            text@ == match *self {
                Notice::Particles => "Processing particles?"@,
                Notice::Entity(_) => "Process entity"@,
            },
    {
        match self {
            Notice::Particles => "Processing particles?",
            Notice::Entity(_) => "Process entity",
        }
    }
}

/// The particle system: it runs once in every update, whatever entities
/// there are, and changes nothing.
#[derive(Clone, Copy, Debug, PartialEq, Eq)]
pub struct Particles;

impl Particles {
    /// Runs the system: reads nothing, changes nothing, reports that it ran.
    pub fn process<S>(&mut self, components: &Components<S>) -> (notice: Notice)
        ensures
            notice == Notice::Particles,
    {
        Notice::Particles
    }
}

/// The motion system: it adds the velocity of an entity into its position.
#[derive(Clone, Copy, Debug, PartialEq, Eq)]
pub struct MotionProcess;

impl MotionProcess {
    /// What the motion system asks of an entity: a position and a velocity.
    pub open spec fn spec_aspect() -> Aspect {
        Aspect { position: true, velocity: true }
    }

    /// What the motion system asks of an entity: a position and a velocity.
    #[verifier::when_used_as_spec(spec_aspect)]
    pub fn aspect() -> (aspect: Aspect)
        ensures
            aspect == Self::spec_aspect(),
    {
        Aspect { position: true, velocity: true }
    }

    /// Whether the motion system can run over `entities`: none occurs twice,
    /// each has a position and a velocity, and `sum` takes each coordinate
    /// with its delta.
    pub open spec fn accepts<S, F: Fn(S, S) -> S>(
        store: Components<S>,
        entities: Seq<Entity>,
        sum: F,
    ) -> bool {
        &&& entities.no_duplicates()
        &&& forall|e: Entity| #[trigger]
            entities.contains(e) ==> {
                &&& store.positions().contains_key(e)
                &&& store.velocities().contains_key(e)
                &&& sum.requires((store.positions()[e].x, store.velocities()[e].dx))
                &&& sum.requires((store.positions()[e].y, store.velocities()[e].dy))
            }
    }

    /// Whether `post` is what one run of the motion system over `entities`
    /// can leave of `pre`: each of them has gone on by its velocity, as `sum`
    /// adds them, and nothing else has changed.
    pub open spec fn moved<S, F: Fn(S, S) -> S>(
        pre: Components<S>,
        post: Components<S>,
        entities: Seq<Entity>,
        sum: F,
    ) -> bool {
        &&& post.entities() == pre.entities()
        &&& post.velocities() == pre.velocities()
        &&& post.positions().dom() == pre.positions().dom()
        &&& forall|e: Entity| #[trigger]
            entities.contains(e) ==> {
                &&& sum.ensures(
                    (pre.positions()[e].x, pre.velocities()[e].dx),
                    post.positions()[e].x,
                )
                &&& sum.ensures(
                    (pre.positions()[e].y, pre.velocities()[e].dy),
                    post.positions()[e].y,
                )
            }
        &&& forall|e: Entity|
            !entities.contains(e) ==> #[trigger] post.positions()[e] == pre.positions()[e]
    }

    /// The notices of one run over `entities`: one for each, in their order.
    pub open spec fn notices(entities: Seq<Entity>) -> Seq<Notice> {
        entities.map_values(|e: Entity| Notice::Entity(e))
    }

    /// Runs the system over `entities`: the position of each becomes the sum
    /// of its position and its velocity, coordinate by coordinate.
    pub fn process<S: Copy, F: Fn(S, S) -> S>(
        &mut self,
        entities: &Vec<Entity>,
        components: &mut Components<S>,
        sum: F,
    ) -> (log: Vec<Notice>)
        requires
            old(components).wf(),
            Self::accepts(*old(components), entities@, sum),
        ensures
            final(components).wf(),
            Self::moved(*old(components), *final(components), entities@, sum),
            log@ == Self::notices(entities@),
    {
        let mut log: Vec<Notice> = Vec::new();
        let mut k: usize = 0;
        while k < entities.len()
            invariant
                k <= entities.len(),
                components.wf(),
                Self::accepts(*old(components), entities@, sum),
                Self::moved(*old(components), *components, entities@.take(k as int), sum),
                log@ == Self::notices(entities@.take(k as int)),
            decreases entities.len() - k,
        {
            let entity = entities[k];
            let ghost before = *components;
            assert(entities@.contains(entity));
            assert(!entities@.take(k as int).contains(entity));
            let position = *components.position(entity);
            let velocity = *components.velocity(entity);
            let x = sum(position.x, velocity.dx);
            let y = sum(position.y, velocity.dy);
            components.set_position(entity, Position { x, y });
            log.push(Notice::Entity(entity));
            proof {
                let done = entities@.take(k as int);
                let next = entities@.take(k as int + 1);
                assert(next =~= done.push(entity));
                assert forall|e: Entity| next.contains(e) <==> done.contains(e) || e
                    == entity by {
                    vstd::seq_lib::lemma_seq_contains_after_push(done, entity, e);
                }
                assert(components.positions().dom() =~= before.positions().dom());
                assert(Self::notices(next) =~= Self::notices(done).push(Notice::Entity(entity)));
            }
            k = k + 1;
        }
        proof {
            assert(entities@.take(k as int) =~= entities@);
        }
        log
    }
}

} // verus!
