use arcade_core::components::Boundary;
use arcade_core::components::BoundingBox;
use arcade_core::components::Collidee;
use arcade_core::components::CollideeDetails;
use arcade_core::components::Collider;
use arcade_core::components::Counterpart;
use arcade_core::components::Motion;
use arcade_core::components::Vector2;
use arcade_core::systems::collision::CollisionSystem;

struct World {
    colliders: Vec<Option<Collider>>,
    collidees: Vec<Option<Collidee>>,
    boundaries: Vec<Option<Boundary>>,
    motions: Vec<Option<Motion>>,
    names: Vec<Option<String>>,
}

impl World {
    fn new() -> World {
        World {
            colliders: Vec::new(),
            collidees: Vec::new(),
            boundaries: Vec::new(),
            motions: Vec::new(),
            names: Vec::new(),
        }
    }

    /// An entity with every component; its hit box is half as wide as its
    /// collision box.
    fn add(&mut self, name: &str, x: i32, half: i32, velocity: (i32, i32)) -> usize {
        let bounding_box = BoundingBox::new(Vector2::new(x, 0), Vector2::new(half, half));
        let hit_box = BoundingBox::new(Vector2::new(x, 0), Vector2::new(half / 2, half / 2));
        self.colliders.push(Some(Collider::new(bounding_box, hit_box)));
        self.collidees.push(Some(Collidee::new()));
        self.boundaries.push(Some(Boundary { left: -1000, right: 1000 }));
        self.motions.push(Some(Motion { velocity: Vector2::new(velocity.0, velocity.1) }));
        self.names.push(Some(String::from(name)));
        self.colliders.len() - 1
    }

    fn tick(&mut self) {
        CollisionSystem.run(
            &self.colliders,
            &mut self.collidees,
            &self.boundaries,
            &self.motions,
            &self.names,
        );
    }

    fn outcome(&self, entity: usize) -> Option<CollideeDetails> {
        self.collidees[entity].clone().unwrap().horizontal
    }
}

fn details(name: &str, x: i32, half: i32) -> CollideeDetails {
    CollideeDetails {
        name: String::from(name),
        position: Vector2::new(x, 0),
        half_size: Vector2::new(half, half),
        correction: 0,
    }
}

#[test]
fn passing_the_right_limit_installs_the_boundary_outcome() {
    let mut world = World::new();
    let a = world.add("Marine", 9, 2, (5, 0));
    world.boundaries[a] = Some(Boundary { left: 0, right: 10 });
    world.tick();
    assert_eq!(
        world.outcome(a),
        Some(CollideeDetails {
            name: String::from("Boundary"),
            position: Vector2::new(0, 0),
            half_size: Vector2::new(0, 0),
            correction: 1,
        })
    );
    assert_eq!(world.outcome(a).unwrap().counterpart(), Counterpart::Boundary);
}

#[test]
fn passing_the_left_limit_gives_a_negative_correction() {
    let mut world = World::new();
    let a = world.add("Marine", 1, 4, (-5, 0));
    world.boundaries[a] = Some(Boundary { left: 0, right: 100 });
    world.tick();
    assert_eq!(world.outcome(a), Some(CollideeDetails::boundary(-3)));
}

#[test]
fn a_resting_entity_still_answers_to_its_boundary() {
    let mut world = World::new();
    let a = world.add("Crate", 9, 2, (0, 0));
    world.boundaries[a] = Some(Boundary { left: 0, right: 10 });
    world.tick();
    assert_eq!(world.outcome(a), Some(CollideeDetails::boundary(1)));
}

#[test]
fn a_moving_entity_records_the_entity_it_overlaps() {
    let mut world = World::new();
    let a = world.add("Marine", 0, 4, (5, 0));
    let b = world.add("Pincer", 6, 4, (0, 0));
    world.tick();
    assert_eq!(world.outcome(a), Some(details("Pincer", 6, 4)));
    assert_eq!(world.outcome(a).unwrap().counterpart(), Counterpart::Other);
    assert_eq!(world.outcome(b), None);
}

#[test]
fn entities_moving_along_a_shared_axis_are_tested_by_their_hit_boxes() {
    let mut world = World::new();
    let a = world.add("Marine", 0, 4, (5, 0));
    let b = world.add("Pincer", 6, 4, (-1, 0));
    world.tick();
    assert_eq!(world.outcome(a), None);
    assert_eq!(world.outcome(b), None);
    world.colliders[b] = Some(Collider::new(
        BoundingBox::new(Vector2::new(3, 0), Vector2::new(4, 4)),
        BoundingBox::new(Vector2::new(3, 0), Vector2::new(2, 2)),
    ));
    world.tick();
    assert_eq!(world.outcome(a), Some(details("Pincer", 3, 2)));
    assert_eq!(world.outcome(b), Some(details("Marine", 0, 2)));
}

#[test]
fn the_last_overlapping_entity_in_entity_order_wins() {
    let mut world = World::new();
    let near = world.add("Near", 1, 4, (0, 0));
    let a = world.add("Marine", 0, 4, (5, 0));
    let middle = world.add("Middle", 2, 4, (0, 0));
    let far = world.add("Far", 7, 4, (0, 0));
    let _beyond = world.add("Beyond", 50, 4, (0, 0));
    world.tick();
    assert_eq!(world.outcome(a), Some(details("Far", 7, 4)));
    assert_eq!(world.outcome(near), None);
    assert_eq!(world.outcome(middle), None);
    assert_eq!(world.outcome(far), None);
}

#[test]
fn an_earlier_entity_wins_when_no_later_one_overlaps() {
    let mut world = World::new();
    let _first = world.add("First", 1, 4, (0, 0));
    let a = world.add("Marine", 0, 4, (5, 0));
    let _later = world.add("Later", 40, 4, (0, 0));
    world.tick();
    assert_eq!(world.outcome(a), Some(details("First", 1, 4)));
}

#[test]
fn the_boundary_wins_over_an_entity_hit_in_the_same_tick() {
    let mut world = World::new();
    let a = world.add("Marine", 9, 2, (5, 0));
    let _b = world.add("Pincer", 10, 2, (0, 0));
    world.boundaries[a] = Some(Boundary { left: 0, right: 10 });
    world.tick();
    assert_eq!(world.outcome(a), Some(CollideeDetails::boundary(1)));
}

#[test]
fn a_resting_entity_starts_no_test_but_can_be_hit() {
    let mut world = World::new();
    let still = world.add("Crate", 0, 4, (0, 0));
    let mover = world.add("Marine", 3, 4, (0, -2));
    world.tick();
    assert_eq!(world.outcome(still), None);
    assert_eq!(world.outcome(mover), Some(details("Crate", 0, 4)));
}

#[test]
fn an_entity_does_not_collide_with_itself() {
    let mut world = World::new();
    let a = world.add("Marine", 0, 4, (5, 5));
    world.tick();
    assert_eq!(world.outcome(a), None);
}

#[test]
fn an_entity_without_a_name_is_no_target() {
    let mut world = World::new();
    let a = world.add("Marine", 0, 4, (5, 0));
    let b = world.add("Ghost", 1, 4, (0, 0));
    world.names[b] = None;
    world.tick();
    assert_eq!(world.outcome(a), None);
}

#[test]
fn an_entity_without_a_motion_is_no_target_and_no_subject() {
    let mut world = World::new();
    let a = world.add("Marine", 0, 4, (5, 0));
    let b = world.add("Wall", 1, 4, (0, 0));
    world.motions[b] = None;
    world.boundaries[b] = Some(Boundary { left: 100, right: 200 });
    world.tick();
    assert_eq!(world.outcome(a), None);
    assert_eq!(world.outcome(b), None);
}

#[test]
fn an_entity_without_a_boundary_is_a_target_but_no_subject() {
    let mut world = World::new();
    let a = world.add("Marine", 0, 4, (5, 0));
    let b = world.add("Drone", 1, 4, (0, 3));
    world.boundaries[b] = None;
    world.tick();
    assert_eq!(world.outcome(a), Some(details("Drone", 1, 4)));
    assert_eq!(world.outcome(b), None);
}

#[test]
fn an_entity_without_a_slot_gets_none() {
    let mut world = World::new();
    let a = world.add("Marine", 9, 2, (5, 0));
    world.boundaries[a] = Some(Boundary { left: 0, right: 10 });
    world.collidees[a] = None;
    world.tick();
    assert_eq!(world.collidees[a], None);
}

#[test]
fn an_outcome_of_an_earlier_tick_is_gone_when_nothing_is_detected() {
    let mut world = World::new();
    let a = world.add("Marine", 0, 4, (5, 0));
    let still = world.add("Crate", 100, 4, (0, 0));
    world.collidees[a] = Some(Collidee { horizontal: Some(details("Earlier", 3, 1)) });
    world.collidees[still] = Some(Collidee { horizontal: Some(CollideeDetails::boundary(9)) });
    world.tick();
    assert_eq!(world.outcome(a), None);
    assert_eq!(world.outcome(still), None);
}

#[test]
fn an_entity_that_is_no_subject_keeps_what_its_slot_held() {
    let mut world = World::new();
    let no_boundary = world.add("Drone", 0, 4, (5, 0));
    let no_motion = world.add("Wall", 100, 4, (0, 0));
    let no_collider = world.add("Ghost", 200, 4, (5, 0));
    world.boundaries[no_boundary] = None;
    world.motions[no_motion] = None;
    world.colliders[no_collider] = None;
    for entity in [no_boundary, no_motion, no_collider] {
        world.collidees[entity] = Some(Collidee { horizontal: Some(details("Earlier", 3, 1)) });
    }
    world.tick();
    for entity in [no_boundary, no_motion, no_collider] {
        assert_eq!(world.outcome(entity), Some(details("Earlier", 3, 1)));
    }
}

#[test]
fn a_left_edge_on_its_limit_still_answers_to_the_right_limit() {
    let mut world = World::new();
    let a = world.add("Marine", 5, 5, (0, 0));
    world.boundaries[a] = Some(Boundary { left: 0, right: 8 });
    world.tick();
    assert_eq!(world.outcome(a), Some(CollideeDetails::boundary(2)));
}

#[test]
fn edges_on_their_limits_install_nothing() {
    let mut world = World::new();
    let a = world.add("Marine", 5, 5, (3, 0));
    world.boundaries[a] = Some(Boundary { left: 0, right: 10 });
    world.collidees[a] = Some(Collidee { horizontal: Some(CollideeDetails::boundary(4)) });
    world.tick();
    assert_eq!(world.outcome(a), None);
}

#[test]
fn a_detected_outcome_replaces_what_the_slot_held() {
    let mut world = World::new();
    let a = world.add("Marine", 0, 4, (5, 0));
    let _b = world.add("Pincer", 2, 4, (0, 0));
    world.collidees[a] = Some(Collidee { horizontal: Some(CollideeDetails::boundary(9)) });
    world.tick();
    assert_eq!(world.outcome(a), Some(details("Pincer", 2, 4)));
}

#[test]
fn detecting_again_on_an_unchanged_scene_gives_the_same_outcomes() {
    let mut world = World::new();
    let a = world.add("Marine", 0, 4, (5, 0));
    let b = world.add("Pincer", 6, 4, (0, 0));
    let c = world.add("Bullet", 995, 8, (9, 0));
    let d = world.add("Crate", 500, 4, (0, 0));
    world.collidees[d] = Some(Collidee { horizontal: Some(details("Earlier", 3, 1)) });
    world.tick();
    let first: Vec<Option<Collidee>> = world.collidees.clone();
    assert_eq!(world.outcome(a), Some(details("Pincer", 6, 4)));
    assert_eq!(world.outcome(b), None);
    assert_eq!(world.outcome(c), Some(CollideeDetails::boundary(3)));
    assert_eq!(world.outcome(d), None);
    world.tick();
    assert_eq!(world.collidees, first);
    world.tick();
    assert_eq!(world.collidees, first);
}

#[test]
fn an_empty_world_is_left_empty() {
    let mut world = World::new();
    world.tick();
    assert!(world.collidees.is_empty());
}

#[test]
fn only_the_outcome_storage_changes() {
    let mut world = World::new();
    let _a = world.add("Marine", 0, 4, (5, 0));
    let _b = world.add("Pincer", 6, 4, (0, 0));
    let colliders = world.colliders.clone();
    let motions = world.motions.clone();
    let names = world.names.clone();
    world.tick();
    assert_eq!(world.colliders, colliders);
    assert_eq!(world.motions, motions);
    assert_eq!(world.names, names);
    assert_eq!(world.collidees.len(), 2);
}
