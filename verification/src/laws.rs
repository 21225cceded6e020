use vstd::prelude::*;
use crate::entity::Entity;
use crate::store::Components;
use crate::system::{MotionProcess, Notice};
use crate::world::World;

verus! {

/// Whether `trace` is a run of updates: each state but the first is what one
/// update with `sum` can leave of the state before it.
pub open spec fn is_run<S, F: Fn(S, S) -> S>(trace: Seq<Components<S>>, sum: F) -> bool {
    forall|i: int|
        #![trigger trace[i]]
        0 <= i < trace.len() - 1 ==> World::<S>::ticked(trace[i], trace[i + 1], sum)
}

/// `start` with `delta` added to it `times` times, one after the other.
pub open spec fn accumulated<S>(plus: spec_fn(S, S) -> S, start: S, delta: S, times: nat) -> S
    decreases times,
{
    if times == 0 {
        start
    } else {
        plus(accumulated(plus, start, delta, (times - 1) as nat), delta)
    }
}

/// An update runs the particle system exactly once, however many entities
/// there are, and even if there are none: its notice opens the report and
/// occurs nowhere else in it. The motion system reports once for each entity
/// that has a position and a velocity.
pub proof fn lemma_particles_run_once<S>(pre: Components<S>)
    ensures
        World::<S>::report(pre).len() == 1 + pre.matching(MotionProcess::aspect()).len(),
        World::<S>::report(pre)[0] == Notice::Particles,
        forall|i: int|
            1 <= i < World::<S>::report(pre).len() ==> #[trigger] World::<S>::report(pre)[i]
                == Notice::Entity(pre.matching(MotionProcess::aspect())[i - 1]),
{
}

/// The motion system never visits an entity that lacks a position or a
/// velocity: no report of an update names it.
pub proof fn lemma_unmoved_not_reported<S>(pre: Components<S>, entity: Entity)
    requires
        !pre.positions().contains_key(entity) || !pre.velocities().contains_key(entity),
    ensures
        !World::<S>::report(pre).contains(Notice::Entity(entity)),
{
    let moving = pre.matching(MotionProcess::aspect());
    let report = World::<S>::report(pre);
    pre.lemma_matching_exact(MotionProcess::aspect());
    if report.contains(Notice::Entity(entity)) {
        let i = choose|i: int| 0 <= i < report.len() && report[i] == Notice::Entity(entity);
        assert(moving[i - 1] == entity);
        assert(moving.contains(entity));
    }
}

/// An entity without a velocity stays as it is through any number of
/// updates: it gains no velocity, it keeps its position if it has one, and
/// gains none if it has none.
pub proof fn lemma_still_without_velocity<S, F: Fn(S, S) -> S>(
    trace: Seq<Components<S>>,
    sum: F,
    entity: Entity,
    n: int,
)
    requires
        is_run(trace, sum),
        0 <= n < trace.len(),
        !trace[0].velocities().contains_key(entity),
    ensures
        !trace[n].velocities().contains_key(entity),
        trace[n].positions().contains_key(entity) == trace[0].positions().contains_key(entity),
        trace[0].positions().contains_key(entity) ==> trace[n].positions()[entity]
            == trace[0].positions()[entity],
    decreases n,
{
    if n > 0 {
        lemma_still_without_velocity(trace, sum, entity, n - 1);
        assert(World::<S>::ticked(trace[n - 1], trace[n - 1 + 1], sum));
    }
}

/// An entity with a position and a velocity keeps both through any number
/// of updates, and its velocity never changes.
pub proof fn lemma_velocity_constant<S, F: Fn(S, S) -> S>(
    trace: Seq<Components<S>>,
    sum: F,
    entity: Entity,
    n: int,
)
    requires
        is_run(trace, sum),
        0 <= n < trace.len(),
        trace[0].positions().contains_key(entity),
        trace[0].velocities().contains_key(entity),
    ensures
        trace[n].positions().contains_key(entity),
        trace[n].velocities().contains_key(entity),
        trace[n].velocities()[entity] == trace[0].velocities()[entity],
    decreases n,
{
    if n > 0 {
        lemma_velocity_constant(trace, sum, entity, n - 1);
        assert(World::<S>::ticked(trace[n - 1], trace[n - 1 + 1], sum));
    }
}

/// Where `sum` returns `plus` of its arguments, the position of an entity
/// after `n` updates is its first position with its velocity added `n` times,
/// coordinate by coordinate.
pub proof fn lemma_updates_accumulate<S, F: Fn(S, S) -> S>(
    trace: Seq<Components<S>>,
    sum: F,
    plus: spec_fn(S, S) -> S,
    entity: Entity,
    n: int,
)
    requires
        is_run(trace, sum),
        0 <= n < trace.len(),
        forall|a: S, b: S, r: S| #[trigger] sum.ensures((a, b), r) ==> r == plus(a, b),
        trace[0].positions().contains_key(entity),
        trace[0].velocities().contains_key(entity),
    ensures
        trace[n].positions()[entity].x == accumulated(
            plus,
            trace[0].positions()[entity].x,
            trace[0].velocities()[entity].dx,
            n as nat,
        ),
        trace[n].positions()[entity].y == accumulated(
            plus,
            trace[0].positions()[entity].y,
            trace[0].velocities()[entity].dy,
            n as nat,
        ),
    decreases n,
{
    if n > 0 {
        lemma_updates_accumulate(trace, sum, plus, entity, n - 1);
        lemma_velocity_constant(trace, sum, entity, n - 1);
        assert(World::<S>::ticked(trace[n - 1], trace[n - 1 + 1], sum));
    }
}

/// Where `sum` is exact, so that the number that `value` gives its result is
/// the sum of the numbers of its arguments, updates are linear: after `n` of
/// them each coordinate of an entity has grown by `n` times its delta.
pub proof fn lemma_updates_linear<S, F: Fn(S, S) -> S>(
    trace: Seq<Components<S>>,
    sum: F,
    value: spec_fn(S) -> int,
    entity: Entity,
    n: int,
)
    requires
        is_run(trace, sum),
        0 <= n < trace.len(),
        forall|a: S, b: S, r: S| #[trigger] sum.ensures((a, b), r) ==> value(r) == value(a) + value(b),
        trace[0].positions().contains_key(entity),
        trace[0].velocities().contains_key(entity),
    ensures
        value(trace[n].positions()[entity].x) == value(trace[0].positions()[entity].x) + n * value(
            trace[0].velocities()[entity].dx,
        ),
        value(trace[n].positions()[entity].y) == value(trace[0].positions()[entity].y) + n * value(
            trace[0].velocities()[entity].dy,
        ),
    decreases n,
{
    if n > 0 {
        lemma_updates_linear(trace, sum, value, entity, n - 1);
        lemma_velocity_constant(trace, sum, entity, n - 1);
        assert(World::<S>::ticked(trace[n - 1], trace[n - 1 + 1], sum));
        let dx = value(trace[0].velocities()[entity].dx);
        let dy = value(trace[0].velocities()[entity].dy);
        assert((n - 1) * dx + dx == n * dx) by (nonlinear_arith);
        assert((n - 1) * dy + dy == n * dy) by (nonlinear_arith);
    }
}

} // verus!
