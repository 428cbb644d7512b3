//! The broad-phase detector and the resolvers that consume its outcomes.

use crate::components::counterpart_of;
use crate::components::Boundary;
use crate::components::BoundingBox;
use crate::components::Bullet;
use crate::components::Collidee;
use crate::components::CollideeDetails;
use crate::components::Collider;
use crate::components::Counterpart;
use crate::components::Direction;
use crate::components::Directions;
use crate::components::Motion;
use crate::components::Outcome;
use crate::components::Pincer;
use crate::components::PINCER_HITS;
use crate::components::Vector2;
use vstd::prelude::*;

verus! {

/// Both velocities are non-zero along at least one shared axis: their
/// product is non-zero on x or on y.
pub open spec fn moves_along_shared_axis(velocity_a: Vector2, velocity_b: Vector2) -> bool {
    velocity_a.x * velocity_b.x != 0 || velocity_a.y * velocity_b.y != 0
}

/// Whether a test between entities of these velocities goes by the hit boxes.
pub fn use_hit_box(velocity_a: Vector2, velocity_b: Vector2) -> (flag: bool)
    ensures
        flag == moves_along_shared_axis(velocity_a, velocity_b),
{
    proof {
        let (ax, bx) = (velocity_a.x as int, velocity_b.x as int);
        let (ay, by) = (velocity_a.y as int, velocity_b.y as int);
        assert(ax * bx != 0 <==> ax != 0 && bx != 0) by (nonlinear_arith);
        assert(ay * by != 0 <==> ay != 0 && by != 0) by (nonlinear_arith);
    }
    (velocity_a.x != 0 && velocity_b.x != 0) || (velocity_a.y != 0 && velocity_b.y != 0)
}

/// How far a box has passed a boundary: negative where its left edge is
/// beyond the left limit, else positive where its right edge is beyond the
/// right limit, else zero. An edge that lies on its limit has not passed it.
pub open spec fn overshoot(bounds: BoundingBox, boundary: Boundary) -> int {
    if bounds.left() < boundary.left {
        bounds.left() - boundary.left
    } else if bounds.right() > boundary.right {
        bounds.right() - boundary.right
    } else {
        0
    }
}

/// How far `bounds` has passed `boundary`.
pub fn boundary_correction(bounds: &BoundingBox, boundary: &Boundary) -> (correction: i64)
    ensures
        correction == overshoot(*bounds, *boundary),
{
    let left = bounds.left_edge();
    let right = bounds.right_edge();
    if left < boundary.left as i64 {
        left - boundary.left as i64
    } else if right > boundary.right as i64 {
        right - boundary.right as i64
    } else {
        0
    }
}

/// What the detector reads: slot `i` of each storage belongs to entity `i`.
pub struct Scene {
    pub colliders: Seq<Option<Collider>>,
    pub boundaries: Seq<Option<Boundary>>,
    pub motions: Seq<Option<Motion>>,
    pub names: Seq<Option<String>>,
}

/// The scene made of the four storages.
pub open spec fn scene_of(
    colliders: Seq<Option<Collider>>,
    boundaries: Seq<Option<Boundary>>,
    motions: Seq<Option<Motion>>,
    names: Seq<Option<String>>,
) -> Scene {
    Scene { colliders, boundaries, motions, names }
}

/// The view of a slot of the outcome storage: whether the entity has the
/// component, and the outcome that it holds.
pub open spec fn slot_view(slot: Option<Collidee>) -> Option<Option<Outcome>> {
    match slot {
        Some(collidee) => Some(collidee@),
        None => None,
    }
}

impl Scene {
    /// Every storage has a slot for every entity.
    pub open spec fn wf(self) -> bool {
        &&& self.boundaries.len() == self.colliders.len()
        &&& self.motions.len() == self.colliders.len()
        &&& self.names.len() == self.colliders.len()
    }

    /// The number of entities.
    pub open spec fn len(self) -> int {
        self.colliders.len() as int
    }

    /// Entity `a` has what the detector needs of an entity that it checks: a
    /// collider, a boundary and a motion.
    pub open spec fn is_subject(self, a: int) -> bool {
        &&& 0 <= a < self.len()
        &&& self.colliders[a] is Some
        &&& self.boundaries[a] is Some
        &&& self.motions[a] is Some
    }

    /// Entity `b` can be collided with: it has a collider, a motion and a
    /// name.
    pub open spec fn is_target(self, b: int) -> bool {
        &&& 0 <= b < self.len()
        &&& self.colliders[b] is Some
        &&& self.motions[b] is Some
        &&& self.names[b] is Some
    }

    /// Whether the test between `a` and `b` goes by the hit boxes.
    pub open spec fn by_hit_box(self, a: int, b: int) -> bool {
        moves_along_shared_axis(self.motions[a].unwrap().velocity, self.motions[b].unwrap().velocity)
    }

    /// Subject `a` collides with `b`: another entity, a target, whose collider
    /// overlaps that of `a`.
    pub open spec fn hits(self, a: int, b: int) -> bool {
        &&& a != b
        &&& self.is_target(b)
        &&& self.colliders[a].unwrap().overlaps_spec(
            self.colliders[b].unwrap(),
            self.by_hit_box(a, b),
        )
    }

    /// The last entity among the first `n` that `a` collides with.
    pub open spec fn last_hit(self, a: int, n: int) -> Option<int>
        decreases n,
    {
        if n <= 0 {
            None
        } else if self.hits(a, n - 1) {
            Some(n - 1)
        } else {
            self.last_hit(a, n - 1)
        }
    }

    /// The outcome of `a` colliding with `b`.
    pub open spec fn met(self, a: int, b: int) -> Outcome {
        Outcome::entity(
            self.names[b].unwrap()@,
            self.colliders[b].unwrap().chosen(self.by_hit_box(a, b)),
        )
    }

    /// How far the collision box of `a` has passed the boundary of `a`.
    pub open spec fn correction(self, a: int) -> int {
        overshoot(self.colliders[a].unwrap().bounding_box, self.boundaries[a].unwrap())
    }

    /// What the tick finds for subject `a`. A passed boundary goes before any
    /// entity; among entities the last one in entity order counts, and only
    /// a moving subject looks for them.
    pub open spec fn written(self, a: int) -> Option<Outcome> {
        if self.correction(a) != 0 {
            Some(Outcome::boundary(self.correction(a)))
        } else if self.motions[a].unwrap().is_moving() {
            match self.last_hit(a, self.len()) {
                Some(b) => Some(self.met(a, b)),
                None => None,
            }
        } else {
            None
        }
    }

    /// The slot of entity `a` after a tick. A subject that has the slot holds
    /// what this tick found and nothing of what the slot held before; any
    /// other entity keeps what it had.
    pub open spec fn after_tick(self, a: int, slot: Option<Option<Outcome>>) -> Option<
        Option<Outcome>,
    > {
        if slot is Some && self.is_subject(a) {
            Some(self.written(a))
        } else {
            slot
        }
    }
}

/// Finds, for every entity that can collide, what it collided with in this
/// tick.
pub struct CollisionSystem;

impl CollisionSystem {
    /// The entity that subject `a` collides with last, in entity order, with
    /// the outcome of that collision in a fresh slot.
    fn scan(
        colliders: &Vec<Option<Collider>>,
        boundaries: &Vec<Option<Boundary>>,
        motions: &Vec<Option<Motion>>,
        names: &Vec<Option<String>>,
        a: usize,
    ) -> (found: Collidee)
        requires
            scene_of(colliders@, boundaries@, motions@, names@).wf(),
            scene_of(colliders@, boundaries@, motions@, names@).is_subject(a as int),
        ensures
            ({
                let scene = scene_of(colliders@, boundaries@, motions@, names@);
                found@ == match scene.last_hit(a as int, scene.len()) {
                    Some(b) => Some(scene.met(a as int, b)),
                    None => None,
                }
            }),
    {
        let ghost scene = scene_of(colliders@, boundaries@, motions@, names@);
        let count = colliders.len();
        let collider_a = colliders[a].unwrap();
        let velocity_a = motions[a].unwrap().velocity;
        let mut found = Collidee::new();
        let mut b: usize = 0;
        while b < count
            invariant
                scene == scene_of(colliders@, boundaries@, motions@, names@),
                scene.wf(),
                scene.is_subject(a as int),
                count == scene.len(),
                b <= count,
                collider_a == scene.colliders[a as int].unwrap(),
                velocity_a == scene.motions[a as int].unwrap().velocity,
                found@ == match scene.last_hit(a as int, b as int) {
                    Some(j) => Some(scene.met(a as int, j)),
                    None => None,
                },
            decreases count - b,
        {
            if b != a {
                match (&colliders[b], &motions[b], &names[b]) {
                    (Some(collider_b), Some(motion_b), Some(name_b)) => {
                        let flag = use_hit_box(velocity_a, motion_b.velocity);
                        if collider_a.overlaps(collider_b, flag) {
                            found.set_collidee_details(name_b.clone(), collider_b, flag);
                        }
                    },
                    _ => {},
                }
            }
            b += 1;
        }
        found
    }

    /// One tick of detection. Every entity that has a collider, a boundary, a
    /// motion and an outcome slot gets its slot computed afresh: it holds the
    /// boundary outcome where the entity has passed its boundary, else the
    /// last entity that it overlaps while moving, else nothing. What the
    /// slot held before the tick is gone. No other slot changes.
    pub fn run(
        &self,
        colliders: &Vec<Option<Collider>>,
        collidees: &mut Vec<Option<Collidee>>,
        boundaries: &Vec<Option<Boundary>>,
        motions: &Vec<Option<Motion>>,
        names: &Vec<Option<String>>,
    )
        requires
            scene_of(colliders@, boundaries@, motions@, names@).wf(),
            old(collidees)@.len() == colliders@.len(),
        ensures
            final(collidees)@.len() == old(collidees)@.len(),
            forall|a: int|
                0 <= a < colliders@.len() ==> slot_view(#[trigger] final(collidees)@[a])
                    == scene_of(colliders@, boundaries@, motions@, names@).after_tick(
                    a,
                    slot_view(old(collidees)@[a]),
                ),
    {
        let ghost scene = scene_of(colliders@, boundaries@, motions@, names@);
        let count = colliders.len();
        let mut a: usize = 0;
        while a < count
            invariant
                scene == scene_of(colliders@, boundaries@, motions@, names@),
                scene.wf(),
                count == scene.len(),
                a <= count,
                collidees@.len() == count,
                forall|k: int|
                    0 <= k < a ==> slot_view(#[trigger] collidees@[k]) == scene.after_tick(
                        k,
                        slot_view(old(collidees)@[k]),
                    ),
                forall|k: int| a <= k < count ==> #[trigger] collidees@[k] == old(collidees)@[k],
            decreases count - a,
        {
            match (&colliders[a], &boundaries[a], &motions[a]) {
                (Some(collider_a), Some(boundary), Some(motion_a)) => {
                    if collidees[a].is_some() {
                        let velocity_a = motion_a.velocity;
                        let mut slot = Collidee::new();
                        if velocity_a.x != 0 || velocity_a.y != 0 {
                            slot = Self::scan(colliders, boundaries, motions, names, a);
                        }
                        let correction = boundary_correction(&collider_a.bounding_box, boundary);
                        if correction != 0 {
                            slot.horizontal = Some(CollideeDetails::boundary(correction));
                        }
                        collidees.set(a, Some(slot));
                    }
                },
                _ => {},
            }
            a += 1;
        }
    }
}

/// The last hit is a hit, and no later entity among those looked at is one;
/// where there is none, no entity looked at is hit.
pub proof fn law_last_hit_wins(scene: Scene, a: int, n: int)
    ensures
        match scene.last_hit(a, n) {
            Some(b) => 0 <= b < n && scene.hits(a, b) && forall|k: int|
                b < k < n ==> !#[trigger] scene.hits(a, k),
            None => forall|k: int| 0 <= k < n ==> !#[trigger] scene.hits(a, k),
        },
    decreases n,
{
    if n > 0 {
        law_last_hit_wins(scene, a, n - 1);
    }
}

/// A passed boundary is what the slot holds after the tick, whatever
/// entities the subject overlaps and whatever the slot held.
pub proof fn law_boundary_wins(scene: Scene, a: int, prior: Option<Outcome>)
    requires
        scene.is_subject(a),
        scene.correction(a) != 0,
    ensures
        scene.after_tick(a, Some(prior)) == Some(
            Some(Outcome::boundary(scene.correction(a))),
        ),
{
}

/// The boundary outcome is there exactly when an edge of the collision box
/// lies beyond its limit, and its correction is how far: negative on the
/// left, positive on the right.
pub proof fn law_correction_is_the_overshoot(bounds: BoundingBox, boundary: Boundary)
    ensures
        bounds.left() < boundary.left ==> overshoot(bounds, boundary) == bounds.left()
            - boundary.left && overshoot(bounds, boundary) < 0,
        bounds.left() >= boundary.left && bounds.right() > boundary.right ==> overshoot(
            bounds,
            boundary,
        ) == bounds.right() - boundary.right && overshoot(bounds, boundary) > 0,
        boundary.left <= bounds.left() && bounds.right() <= boundary.right ==> overshoot(
            bounds,
            boundary,
        ) == 0,
{
}

/// A subject at rest within its boundary starts no test against other
/// entities: its slot is empty after the tick, whatever it held.
pub proof fn law_rest_finds_nothing(scene: Scene, a: int, prior: Option<Outcome>)
    requires
        scene.is_subject(a),
        !scene.motions[a].unwrap().is_moving(),
        scene.correction(a) == 0,
    ensures
        scene.after_tick(a, Some(prior)) == Some(None::<Outcome>),
{
}

/// No outcome outlives its tick: what a subject's slot holds after the tick
/// does not depend on what it held before. A subject within its boundary
/// that overlaps nothing is left with an empty slot.
pub proof fn law_nothing_is_carried_over(
    scene: Scene,
    a: int,
    earlier: Option<Outcome>,
    other: Option<Outcome>,
)
    requires
        scene.is_subject(a),
    ensures
        scene.after_tick(a, Some(earlier)) == scene.after_tick(a, Some(other)),
        scene.correction(a) == 0 && (forall|b: int| 0 <= b < scene.len() ==> !scene.hits(a, b))
            ==> scene.after_tick(a, Some(earlier)) == Some(None::<Outcome>),
{
    law_last_hit_wins(scene, a, scene.len());
}

/// Detecting again on an unchanged scene changes no slot: the second tick
/// leaves every entity with the outcome of the first.
pub proof fn law_detection_is_idempotent(scene: Scene, a: int, slot: Option<Option<Outcome>>)
    ensures
        scene.after_tick(a, scene.after_tick(a, slot)) == scene.after_tick(a, slot),
{
}

/// What a resolver asks of the world; it takes effect when the tick is over.
#[derive(Clone, Copy, Debug, PartialEq, Eq, Structural)]
pub enum Command {
    /// Show a small explosion at this place.
    SpawnExplosion { at: Vector2 },
    /// Show the flash of a bullet's impact at this place, for a bullet of this
    /// horizontal velocity.
    SpawnBulletImpact { x: i64, y: i32, velocity_x: i32 },
    /// Remove the entity.
    Delete { entity: usize },
}

/// Every removal among `commands` names one of the first `n` entities.
pub open spec fn removes_below(commands: Seq<Command>, n: int) -> bool {
    forall|k: int|
        0 <= k < commands.len() ==> (#[trigger] commands[k] matches Command::Delete { entity }
            ==> entity < n)
}

/// What the pincer resolver reads at the start of a tick.
pub struct PincerWorld {
    pub pincers: Seq<Option<Pincer>>,
    pub collidees: Seq<Option<Collidee>>,
    pub dirs: Seq<Option<Direction>>,
    pub motions: Seq<Option<Motion>>,
    pub transforms: Seq<Option<Vector2>>,
}

/// The world made of the five storages.
pub open spec fn pincer_world(
    pincers: Seq<Option<Pincer>>,
    collidees: Seq<Option<Collidee>>,
    dirs: Seq<Option<Direction>>,
    motions: Seq<Option<Motion>>,
    transforms: Seq<Option<Vector2>>,
) -> PincerWorld {
    PincerWorld { pincers, collidees, dirs, motions, transforms }
}

impl PincerWorld {
    /// Every storage has a slot for every entity.
    pub open spec fn wf(self) -> bool {
        &&& self.collidees.len() == self.pincers.len()
        &&& self.dirs.len() == self.pincers.len()
        &&& self.motions.len() == self.pincers.len()
        &&& self.transforms.len() == self.pincers.len()
    }

    /// The number of entities.
    pub open spec fn len(self) -> int {
        self.pincers.len() as int
    }

    /// What entity `i` has to answer for in this tick: the counterpart of its
    /// outcome, where it is a pincer with a facing, a motion and a place, and
    /// its slot holds an outcome.
    pub open spec fn struck(self, i: int) -> Option<Counterpart> {
        if 0 <= i < self.len() && self.pincers[i] is Some && self.collidees[i] is Some
            && self.dirs[i] is Some && self.motions[i] is Some && self.transforms[i] is Some {
            match self.collidees[i].unwrap()@ {
                Some(outcome) => Some(counterpart_of(outcome.name)),
                None => None,
            }
        } else {
            None
        }
    }

    /// The numbers that entity `i` is about to change can change: a velocity
    /// to negate has a negative, a count to raise is below the largest.
    pub open spec fn within_limits(self, i: int) -> bool {
        &&& self.struck(i) == Some(Counterpart::Boundary) ==> self.motions[i].unwrap().velocity.x
            > i32::MIN
        &&& self.struck(i) == Some(Counterpart::Bullet) ==> self.pincers[i].unwrap().hit_count
            < u32::MAX
    }

    /// The pincer slot of entity `i` after the tick: a bullet raises the
    /// count of hits by one.
    pub open spec fn pincer_after(self, i: int) -> Option<Pincer> {
        if self.struck(i) == Some(Counterpart::Bullet) {
            Some(Pincer { hit_count: (self.pincers[i].unwrap().hit_count + 1) as u32 })
        } else {
            self.pincers[i]
        }
    }

    /// The facing of entity `i` after the tick: a boundary turns it round.
    pub open spec fn dir_after(self, i: int) -> Option<Direction> {
        if self.struck(i) == Some(Counterpart::Boundary) {
            Some(self.dirs[i].unwrap().turned())
        } else {
            self.dirs[i]
        }
    }

    /// The motion of entity `i` after the tick: a boundary sends it back.
    pub open spec fn motion_after(self, i: int) -> Option<Motion> {
        if self.struck(i) == Some(Counterpart::Boundary) {
            Some(self.motions[i].unwrap().bounced())
        } else {
            self.motions[i]
        }
    }

    /// Entity `i` takes the hit that destroys it.
    pub open spec fn dies(self, i: int) -> bool {
        &&& self.struck(i) == Some(Counterpart::Bullet)
        &&& self.pincers[i].unwrap().hit_count + 1 == PINCER_HITS
    }

    /// What entity `i` asks for: a pincer that dies leaves an explosion where
    /// it stood and is removed.
    pub open spec fn commands_of(self, i: int) -> Seq<Command> {
        if self.dies(i) {
            seq![
                Command::SpawnExplosion { at: self.transforms[i].unwrap() },
                Command::Delete { entity: i as usize },
            ]
        } else {
            Seq::empty()
        }
    }

    /// What the first `n` entities ask for, in entity order.
    pub open spec fn commands(self, n: int) -> Seq<Command>
        decreases n,
    {
        if n <= 0 {
            Seq::empty()
        } else {
            self.commands(n - 1) + self.commands_of(n - 1)
        }
    }
}

/// Lets every pincer answer for its collision of this tick.
pub struct PincerCollisionSystem;

impl PincerCollisionSystem {
    /// One tick of pincer resolution. A pincer that met its boundary turns
    /// round and has its horizontal velocity negated; one that met a bullet
    /// counts the hit, and with its fourth hit asks for an explosion at its
    /// place and for its own removal. Any other outcome changes nothing.
    pub fn run(
        &self,
        pincers: &mut Vec<Option<Pincer>>,
        collidees: &Vec<Option<Collidee>>,
        dirs: &mut Vec<Option<Direction>>,
        motions: &mut Vec<Option<Motion>>,
        transforms: &Vec<Option<Vector2>>,
    ) -> (commands: Vec<Command>)
        requires
            pincer_world(
                old(pincers)@,
                collidees@,
                old(dirs)@,
                old(motions)@,
                transforms@,
            ).wf(),
            forall|i: int|
                0 <= i < old(pincers)@.len() ==> #[trigger] pincer_world(
                    old(pincers)@,
                    collidees@,
                    old(dirs)@,
                    old(motions)@,
                    transforms@,
                ).within_limits(i),
        ensures
            final(pincers)@.len() == old(pincers)@.len(),
            final(dirs)@.len() == old(dirs)@.len(),
            final(motions)@.len() == old(motions)@.len(),
            forall|i: int|
                0 <= i < old(pincers)@.len() ==> #[trigger] final(pincers)@[i] == pincer_world(
                    old(pincers)@,
                    collidees@,
                    old(dirs)@,
                    old(motions)@,
                    transforms@,
                ).pincer_after(i),
            forall|i: int|
                0 <= i < old(pincers)@.len() ==> #[trigger] final(dirs)@[i] == pincer_world(
                    old(pincers)@,
                    collidees@,
                    old(dirs)@,
                    old(motions)@,
                    transforms@,
                ).dir_after(i),
            forall|i: int|
                0 <= i < old(pincers)@.len() ==> #[trigger] final(motions)@[i] == pincer_world(
                    old(pincers)@,
                    collidees@,
                    old(dirs)@,
                    old(motions)@,
                    transforms@,
                ).motion_after(i),
            commands@ == pincer_world(
                old(pincers)@,
                collidees@,
                old(dirs)@,
                old(motions)@,
                transforms@,
            ).commands(old(pincers)@.len() as int),
            removes_below(commands@, old(pincers)@.len() as int),
    {
        let ghost world = pincer_world(
            old(pincers)@,
            collidees@,
            old(dirs)@,
            old(motions)@,
            transforms@,
        );
        let count = pincers.len();
        let mut commands: Vec<Command> = Vec::new();
        let mut i: usize = 0;
        while i < count
            invariant
                world == pincer_world(
                    old(pincers)@,
                    collidees@,
                    old(dirs)@,
                    old(motions)@,
                    transforms@,
                ),
                world.wf(),
                forall|k: int| 0 <= k < count ==> #[trigger] world.within_limits(k),
                count == world.len(),
                i <= count,
                pincers@.len() == count,
                dirs@.len() == count,
                motions@.len() == count,
                forall|k: int| 0 <= k < i ==> #[trigger] pincers@[k] == world.pincer_after(k),
                forall|k: int| 0 <= k < i ==> #[trigger] dirs@[k] == world.dir_after(k),
                forall|k: int| 0 <= k < i ==> #[trigger] motions@[k] == world.motion_after(k),
                forall|k: int| i <= k < count ==> #[trigger] pincers@[k] == world.pincers[k],
                forall|k: int| i <= k < count ==> #[trigger] dirs@[k] == world.dirs[k],
                forall|k: int| i <= k < count ==> #[trigger] motions@[k] == world.motions[k],
                commands@ == world.commands(i as int),
            decreases count - i,
        {
            assert(world.within_limits(i as int));
            assert(pincers@[i as int] == world.pincers[i as int]);
            assert(dirs@[i as int] == world.dirs[i as int]);
            assert(motions@[i as int] == world.motions[i as int]);
            let ghost before = commands@;
            match (pincers[i], &collidees[i], dirs[i], motions[i], transforms[i]) {
                (Some(pincer), Some(collidee), Some(dir), Some(motion), Some(place)) => {
                    match &collidee.horizontal {
                        Some(details) => {
                            match details.counterpart() {
                                Counterpart::Boundary => {
                                    let facing = match dir.x {
                                        Directions::Left => Directions::Right,
                                        Directions::Right => Directions::Left,
                                        Directions::Neutral => Directions::Neutral,
                                    };
                                    dirs.set(i, Some(Direction { x: facing, y: dir.y }));
                                    motions.set(
                                        i,
                                        Some(
                                            Motion {
                                                velocity: Vector2 {
                                                    x: -motion.velocity.x,
                                                    y: motion.velocity.y,
                                                },
                                            },
                                        ),
                                    );
                                },
                                Counterpart::Bullet => {
                                    let hit_count = pincer.hit_count + 1;
                                    pincers.set(i, Some(Pincer { hit_count }));
                                    if hit_count == PINCER_HITS {
                                        commands.push(Command::SpawnExplosion { at: place });
                                        commands.push(Command::Delete { entity: i });
                                    }
                                },
                                Counterpart::Other => {},
                            }
                        },
                        None => {},
                    }
                },
                _ => {},
            }
            assert(commands@ =~= before + world.commands_of(i as int));
            i += 1;
        }
        proof {
            law_pincer_commands_name_entities(world, count as int);
        }
        commands
    }
}

/// A pincer asks for something only with the hit that brings its count to
/// four: then for one explosion at its place, and for its removal. Every
/// removal asked for by the first `n` entities names one of them.
pub proof fn law_pincer_commands_name_entities(world: PincerWorld, n: int)
    requires
        n <= world.len() <= usize::MAX,
    ensures
        forall|i: int|
            0 <= i < world.len() ==> #[trigger] world.commands_of(i) == if world.struck(i) == Some(
                Counterpart::Bullet,
            ) && world.pincers[i].unwrap().hit_count == 3 {
                seq![
                    Command::SpawnExplosion { at: world.transforms[i].unwrap() },
                    Command::Delete { entity: i as usize },
                ]
            } else {
                Seq::empty()
            },
        removes_below(world.commands(n), n),
    decreases n,
{
    if n > 0 {
        law_pincer_commands_name_entities(world, n - 1);
        let earlier = world.commands(n - 1);
        let last = world.commands_of(n - 1);
        assert forall|k: int| 0 <= k < world.commands(n).len() implies (
        #[trigger] world.commands(n)[k] matches Command::Delete { entity } ==> entity < n) by {
            if k < earlier.len() {
                assert(world.commands(n)[k] == earlier[k]);
            } else {
                assert(world.commands(n)[k] == last[k - earlier.len()]);
            }
        }
    }
}

/// What the bullet resolver reads.
pub struct BulletWorld {
    pub bullets: Seq<Option<Bullet>>,
    pub colliders: Seq<Option<Collider>>,
    pub collidees: Seq<Option<Collidee>>,
    pub dirs: Seq<Option<Direction>>,
    pub motions: Seq<Option<Motion>>,
}

/// The world made of the five storages.
pub open spec fn bullet_world(
    bullets: Seq<Option<Bullet>>,
    colliders: Seq<Option<Collider>>,
    collidees: Seq<Option<Collidee>>,
    dirs: Seq<Option<Direction>>,
    motions: Seq<Option<Motion>>,
) -> BulletWorld {
    BulletWorld { bullets, colliders, collidees, dirs, motions }
}

/// Where the flash of an impact goes on the horizontal axis: at the edge of
/// the counterpart that a bullet of this facing reaches first; at zero for a
/// bullet that faces neither way.
pub open spec fn impact_x(facing: Directions, outcome: Outcome) -> int {
    match facing {
        Directions::Right => outcome.position.x - outcome.half_size.x,
        Directions::Left => outcome.position.x + outcome.half_size.x,
        Directions::Neutral => 0,
    }
}

impl BulletWorld {
    /// Every storage has a slot for every entity.
    pub open spec fn wf(self) -> bool {
        &&& self.colliders.len() == self.bullets.len()
        &&& self.collidees.len() == self.bullets.len()
        &&& self.dirs.len() == self.bullets.len()
        &&& self.motions.len() == self.bullets.len()
    }

    /// The number of entities.
    pub open spec fn len(self) -> int {
        self.bullets.len() as int
    }

    /// The outcome that entity `i` has to answer for in this tick, where it
    /// is a bullet with a collider, a facing and a motion, and its slot holds
    /// one.
    pub open spec fn struck(self, i: int) -> Option<Outcome> {
        if 0 <= i < self.len() && self.bullets[i] is Some && self.colliders[i] is Some
            && self.collidees[i] is Some && self.dirs[i] is Some && self.motions[i] is Some {
            self.collidees[i].unwrap()@
        } else {
            None
        }
    }

    /// What entity `i` asks for: a bullet with an outcome is removed, and
    /// unless the outcome is its boundary, it first leaves a flash at the
    /// place of the impact, at its own height.
    pub open spec fn commands_of(self, i: int) -> Seq<Command> {
        match self.struck(i) {
            None => Seq::empty(),
            Some(outcome) => if counterpart_of(outcome.name) == Counterpart::Boundary {
                seq![Command::Delete { entity: i as usize }]
            } else {
                seq![
                    Command::SpawnBulletImpact {
                        x: impact_x(self.dirs[i].unwrap().x, outcome) as i64,
                        y: self.colliders[i].unwrap().bounding_box.position.y,
                        velocity_x: self.motions[i].unwrap().velocity.x,
                    },
                    Command::Delete { entity: i as usize },
                ]
            },
        }
    }

    /// What the first `n` entities ask for, in entity order.
    pub open spec fn commands(self, n: int) -> Seq<Command>
        decreases n,
    {
        if n <= 0 {
            Seq::empty()
        } else {
            self.commands(n - 1) + self.commands_of(n - 1)
        }
    }
}

/// Lets every bullet answer for its collision of this tick.
pub struct BulletCollisionSystem;

impl BulletCollisionSystem {
    /// One tick of bullet resolution. Every bullet whose slot holds an outcome
    /// asks for its own removal; one that met anything but its boundary first
    /// asks for a flash at the place of the impact. No component changes.
    pub fn run(
        &self,
        bullets: &Vec<Option<Bullet>>,
        colliders: &Vec<Option<Collider>>,
        collidees: &Vec<Option<Collidee>>,
        dirs: &Vec<Option<Direction>>,
        motions: &Vec<Option<Motion>>,
    ) -> (commands: Vec<Command>)
        requires
            bullet_world(bullets@, colliders@, collidees@, dirs@, motions@).wf(),
        ensures
            commands@ == bullet_world(bullets@, colliders@, collidees@, dirs@, motions@).commands(
                bullets@.len() as int,
            ),
            removes_below(commands@, bullets@.len() as int),
    {
        let ghost world = bullet_world(bullets@, colliders@, collidees@, dirs@, motions@);
        let count = bullets.len();
        let mut commands: Vec<Command> = Vec::new();
        let mut i: usize = 0;
        while i < count
            invariant
                world == bullet_world(bullets@, colliders@, collidees@, dirs@, motions@),
                world.wf(),
                count == world.len(),
                i <= count,
                commands@ == world.commands(i as int),
            decreases count - i,
        {
            let ghost before = commands@;
            match (bullets[i], colliders[i], &collidees[i], dirs[i], motions[i]) {
                (Some(_), Some(collider), Some(collidee), Some(dir), Some(motion)) => {
                    match &collidee.horizontal {
                        Some(details) => {
                            match details.counterpart() {
                                Counterpart::Boundary => {},
                                _ => {
                                    let reach = details.half_size.x as i64;
                                    let x: i64 = match dir.x {
                                        Directions::Right => details.position.x as i64 - reach,
                                        Directions::Left => details.position.x as i64 + reach,
                                        Directions::Neutral => 0,
                                    };
                                    commands.push(
                                        Command::SpawnBulletImpact {
                                            x,
                                            y: collider.bounding_box.position.y,
                                            velocity_x: motion.velocity.x,
                                        },
                                    );
                                },
                            }
                            commands.push(Command::Delete { entity: i });
                        },
                        None => {},
                    }
                },
                _ => {},
            }
            assert(commands@ =~= before + world.commands_of(i as int));
            i += 1;
        }
        proof {
            law_bullet_commands_name_entities(world, count as int);
        }
        commands
    }
}

/// A bullet whose slot holds an outcome always asks for its own removal, last
/// of all. Every removal asked for by the first `n` entities names one of
/// them.
pub proof fn law_bullet_commands_name_entities(world: BulletWorld, n: int)
    requires
        n <= world.len() <= usize::MAX,
    ensures
        forall|i: int|
            0 <= i < world.len() && world.struck(i) is Some ==> (#[trigger] world.commands_of(
                i,
            )).last() == (Command::Delete { entity: i as usize }),
        forall|i: int|
            0 <= i < world.len() && world.struck(i) is None ==> (#[trigger] world.commands_of(
                i,
            )).len() == 0,
        removes_below(world.commands(n), n),
    decreases n,
{
    if n > 0 {
        law_bullet_commands_name_entities(world, n - 1);
        let earlier = world.commands(n - 1);
        let last = world.commands_of(n - 1);
        assert forall|k: int| 0 <= k < world.commands(n).len() implies (
        #[trigger] world.commands(n)[k] matches Command::Delete { entity } ==> entity < n) by {
            if k < earlier.len() {
                assert(world.commands(n)[k] == earlier[k]);
            } else {
                assert(world.commands(n)[k] == last[k - earlier.len()]);
            }
        }
    }
}

} // verus!
