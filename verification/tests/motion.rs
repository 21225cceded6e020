use particle_world::{Aspect, Components, Entity, MotionProcess, Notice, Position, Velocity, World};

fn plus(a: f32, b: f32) -> f32 {
    a + b
}

fn position_of(world: &World<f32>, entity: Entity) -> Position<f32> {
    assert!(world.components().has_position(entity));
    *world.components().position(entity)
}

fn velocity_of(world: &World<f32>, entity: Entity) -> Velocity<f32> {
    assert!(world.components().has_velocity(entity));
    *world.components().velocity(entity)
}

#[test]
fn ten_particles_are_at_three_six_after_three_updates() {
    let mut world: World<f32> = World::new();
    let mut entities = Vec::new();
    for _ in 0..10 {
        let entity = world.create_entity(
            Some(Position { x: 0.0, y: 0.0 }),
            Some(Velocity { dx: 1.0, dy: 2.0 }),
        );
        entities.push(entity);
    }
    for _ in 0..3 {
        world.update(plus);
    }
    assert_eq!(entities.len(), 10);
    for entity in entities {
        assert_eq!(position_of(&world, entity), Position { x: 3.0, y: 6.0 });
    }
}

#[test]
fn entity_with_only_a_position_is_never_moved_nor_visited() {
    let mut world: World<f32> = World::new();
    let entity = world.create_entity(Some(Position { x: 4.5, y: -1.25 }), None);
    for _ in 0..25 {
        let log = world.update(plus);
        assert_eq!(log, vec![Notice::Particles]);
        assert_eq!(position_of(&world, entity), Position { x: 4.5, y: -1.25 });
        assert!(!world.components().has_velocity(entity));
    }
}

#[test]
fn entity_with_only_a_velocity_gains_no_position() {
    let mut world: World<f32> = World::new();
    let entity = world.create_entity(None, Some(Velocity { dx: 1.0, dy: 1.0 }));
    for _ in 0..3 {
        let log = world.update(plus);
        assert_eq!(log, vec![Notice::Particles]);
    }
    assert!(!world.components().has_position(entity));
    assert_eq!(velocity_of(&world, entity), Velocity { dx: 1.0, dy: 1.0 });
}

#[test]
fn one_update_adds_the_velocity_to_the_position() {
    let mut world: World<f32> = World::new();
    let entity = world.create_entity(
        Some(Position { x: 1.5, y: -2.25 }),
        Some(Velocity { dx: 0.1, dy: 0.7 }),
    );
    world.update(plus);
    let expected = Position { x: 1.5f32 + 0.1f32, y: -2.25f32 + 0.7f32 };
    assert_eq!(position_of(&world, entity), expected);
    assert_eq!(position_of(&world, entity), Position { x: 1.6, y: -1.55 });
}

#[test]
fn update_leaves_velocities_as_they_are() {
    let mut world: World<f32> = World::new();
    let entity = world.create_entity(
        Some(Position { x: 0.0, y: 0.0 }),
        Some(Velocity { dx: 0.25, dy: -0.5 }),
    );
    for _ in 0..4 {
        world.update(plus);
        assert_eq!(velocity_of(&world, entity), Velocity { dx: 0.25, dy: -0.5 });
    }
    assert_eq!(world.components().entity_count(), 1);
}

#[test]
fn repeated_updates_add_the_velocity_each_time() {
    let mut world: World<f32> = World::new();
    let entity = world.create_entity(
        Some(Position { x: 0.0, y: 0.0 }),
        Some(Velocity { dx: 0.5, dy: 0.25 }),
    );
    for n in 1..=8 {
        world.update(plus);
        let n = n as f32;
        assert_eq!(position_of(&world, entity), Position { x: n * 0.5, y: n * 0.25 });
    }
    assert_eq!(position_of(&world, entity), Position { x: 4.0, y: 2.0 });
}

#[test]
fn repeated_updates_are_repeated_sums_where_the_sum_rounds() {
    let mut world: World<f32> = World::new();
    let entity = world.create_entity(
        Some(Position { x: 0.0, y: 0.0 }),
        Some(Velocity { dx: 0.1, dy: 0.1 }),
    );
    let mut expected = 0.0f32;
    for _ in 0..10 {
        world.update(plus);
        expected = expected + 0.1f32;
    }
    assert_eq!(position_of(&world, entity), Position { x: expected, y: expected });
}

#[test]
fn updates_are_linear_for_whole_numbers() {
    let mut world: World<i64> = World::new();
    let entity = world.create_entity(
        Some(Position { x: 0, y: 0 }),
        Some(Velocity { dx: 7, dy: -3 }),
    );
    for _ in 0..100 {
        world.update(|a: i64, b: i64| a + b);
    }
    assert!(world.components().has_position(entity));
    assert_eq!(*world.components().position(entity), Position { x: 700, y: -300 });
}

#[test]
fn the_sum_handed_in_is_the_one_applied() {
    let mut world: World<i64> = World::new();
    let entity = world.create_entity(
        Some(Position { x: 10, y: 20 }),
        Some(Velocity { dx: 3, dy: 4 }),
    );
    world.update(|a: i64, b: i64| a - b);
    assert_eq!(*world.components().position(entity), Position { x: 7, y: 16 });
}

#[test]
fn particle_system_runs_once_in_every_update() {
    for count in [0usize, 1, 10] {
        let mut world: World<f32> = World::new();
        for _ in 0..count {
            world.create_entity(
                Some(Position { x: 0.0, y: 0.0 }),
                Some(Velocity { dx: 1.0, dy: 1.0 }),
            );
        }
        for _ in 0..3 {
            let log = world.update(plus);
            assert_eq!(log.len(), 1 + count);
            assert_eq!(log[0], Notice::Particles);
            let runs = log.iter().filter(|notice| **notice == Notice::Particles).count();
            assert_eq!(runs, 1);
        }
    }
}

#[test]
fn update_of_an_empty_world_reports_the_particle_system_alone() {
    let mut world: World<f32> = World::new();
    assert_eq!(world.update(plus), vec![Notice::Particles]);
    assert_eq!(world.components().entity_count(), 0);
}

#[test]
fn update_reports_the_moved_entities_in_order_of_creation() {
    let mut world: World<f32> = World::new();
    let a = world.create_entity(
        Some(Position { x: 0.0, y: 0.0 }),
        Some(Velocity { dx: 1.0, dy: 1.0 }),
    );
    let _still = world.create_entity(Some(Position { x: 0.0, y: 0.0 }), None);
    let _bare = world.create_entity(None, None);
    let b = world.create_entity(
        Some(Position { x: 9.0, y: 9.0 }),
        Some(Velocity { dx: -1.0, dy: -1.0 }),
    );
    let log = world.update(plus);
    assert_eq!(log, vec![Notice::Particles, Notice::Entity(a), Notice::Entity(b)]);
    assert_eq!(position_of(&world, a), Position { x: 1.0, y: 1.0 });
    assert_eq!(position_of(&world, b), Position { x: 8.0, y: 8.0 });
}

#[test]
fn notices_carry_the_diagnostic_lines() {
    let mut world: World<f32> = World::new();
    let entity = world.create_entity(
        Some(Position { x: 0.0, y: 0.0 }),
        Some(Velocity { dx: 1.0, dy: 1.0 }),
    );
    assert_eq!(Notice::Particles.message(), "Processing particles?");
    assert_eq!(Notice::Entity(entity).message(), "Process entity");
    let lines: Vec<&str> = world.update(plus).iter().map(|notice| notice.message()).collect();
    assert_eq!(lines, vec!["Processing particles?", "Process entity"]);
}

#[test]
fn motion_system_moves_the_entities_it_is_given_and_no_others() {
    let mut store: Components<f32> = Components::new();
    let a = store.create_entity(
        Some(Position { x: 0.0, y: 0.0 }),
        Some(Velocity { dx: 1.0, dy: 2.0 }),
    );
    let b = store.create_entity(
        Some(Position { x: 0.0, y: 0.0 }),
        Some(Velocity { dx: 1.0, dy: 2.0 }),
    );
    let mut motion = MotionProcess;
    let log = motion.process(&vec![b], &mut store, plus);
    assert_eq!(log, vec![Notice::Entity(b)]);
    assert_eq!(*store.position(a), Position { x: 0.0, y: 0.0 });
    assert_eq!(*store.position(b), Position { x: 1.0, y: 2.0 });
    let log = motion.process(&Vec::new(), &mut store, plus);
    assert_eq!(log, Vec::new());
    assert_eq!(*store.position(b), Position { x: 1.0, y: 2.0 });
}

#[test]
fn motion_system_asks_for_a_position_and_a_velocity() {
    assert_eq!(MotionProcess::aspect(), Aspect { position: true, velocity: true });
}

#[test]
fn world_of_particles_starts_each_at_the_origin_with_its_velocity() {
    let velocities = vec![
        Velocity { dx: 0.25f32, dy: 0.5 },
        Velocity { dx: 0.75, dy: 0.125 },
        Velocity { dx: 0.0, dy: 0.9 },
    ];
    let mut world = World::with_particles(Position { x: 0.0, y: 0.0 }, &velocities);
    assert_eq!(world.components().entity_count(), 3);
    let entities = world.components().query(Aspect { position: false, velocity: false });
    assert_eq!(entities.len(), 3);
    for (i, entity) in entities.iter().enumerate() {
        assert_eq!(entity.index(), i);
        assert_eq!(position_of(&world, *entity), Position { x: 0.0, y: 0.0 });
        assert_eq!(velocity_of(&world, *entity), velocities[i]);
    }
    world.update(plus);
    for (i, entity) in entities.iter().enumerate() {
        let expected = Position { x: velocities[i].dx, y: velocities[i].dy };
        assert_eq!(position_of(&world, *entity), expected);
    }
}

#[test]
fn world_of_no_particles_is_empty() {
    let world: World<f32> = World::with_particles(Position { x: 0.0, y: 0.0 }, &Vec::new());
    assert_eq!(world.components().entity_count(), 0);
}
