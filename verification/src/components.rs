//! The data each entity may carry, and the overlap test between colliders.

use vstd::prelude::*;
use vstd::string::*;

verus! {

/// A point or an extent in world units.
#[derive(Clone, Copy, Debug, PartialEq, Eq, Structural)]
pub struct Vector2 {
    pub x: i32,
    pub y: i32,
}

impl Vector2 {
    pub fn new(x: i32, y: i32) -> (v: Vector2)
        ensures
            v.x == x,
            v.y == y,
    {
        Vector2 { x, y }
    }
}

/// An axis-aligned box given by its centre and its half extent on each axis.
#[derive(Clone, Copy, Debug, PartialEq, Eq, Structural)]
pub struct BoundingBox {
    pub position: Vector2,
    pub half_size: Vector2,
}

impl BoundingBox {
    /// Half extents are not negative.
    pub open spec fn wf(self) -> bool {
        self.half_size.x >= 0 && self.half_size.y >= 0
    }

    pub open spec fn left(self) -> int {
        self.position.x - self.half_size.x
    }

    pub open spec fn right(self) -> int {
        self.position.x + self.half_size.x
    }

    pub open spec fn bottom(self) -> int {
        self.position.y - self.half_size.y
    }

    pub open spec fn top(self) -> int {
        self.position.y + self.half_size.y
    }

    /// The centres are closer than the combined half extents, on both axes.
    /// Boxes that only touch along an edge do not intersect.
    pub open spec fn intersects(self, other: BoundingBox) -> bool {
        &&& distance(self.position.x as int, other.position.x as int) < self.half_size.x
            + other.half_size.x
        &&& distance(self.position.y as int, other.position.y as int) < self.half_size.y
            + other.half_size.y
    }

    /// The interiors are apart on at least one axis.
    pub open spec fn apart_from(self, other: BoundingBox) -> bool {
        ||| self.right() <= other.left()
        ||| other.right() <= self.left()
        ||| self.top() <= other.bottom()
        ||| other.top() <= self.bottom()
    }

    pub fn new(position: Vector2, half_size: Vector2) -> (b: BoundingBox)
        ensures
            b.position == position,
            b.half_size == half_size,
    {
        BoundingBox { position, half_size }
    }

    /// The left edge.
    pub fn left_edge(&self) -> (e: i64)
        ensures
            e == self.left(),
    {
        self.position.x as i64 - self.half_size.x as i64
    }

    /// The right edge.
    pub fn right_edge(&self) -> (e: i64)
        ensures
            e == self.right(),
    {
        self.position.x as i64 + self.half_size.x as i64
    }

    /// Whether the two boxes intersect.
    pub fn intersects_with(&self, other: &BoundingBox) -> (hit: bool)
        ensures
            hit == self.intersects(*other),
    {
        let dx: i64 = gap(self.position.x, other.position.x);
        let dy: i64 = gap(self.position.y, other.position.y);
        let reach_x: i64 = self.half_size.x as i64 + other.half_size.x as i64;
        let reach_y: i64 = self.half_size.y as i64 + other.half_size.y as i64;
        dx < reach_x && dy < reach_y
    }
}

/// The distance between two coordinates.
pub open spec fn distance(a: int, b: int) -> int {
    if a >= b {
        a - b
    } else {
        b - a
    }
}

fn gap(a: i32, b: i32) -> (d: i64)
    ensures
        d == distance(a as int, b as int),
{
    if a >= b {
        a as i64 - b as i64
    } else {
        b as i64 - a as i64
    }
}

/// The two boxes of an entity: the collision box, always in force, and the hit
/// box, used between two entities that both move along a shared axis.
#[derive(Clone, Copy, Debug, PartialEq, Eq, Structural)]
pub struct Collider {
    pub bounding_box: BoundingBox,
    pub hit_box: BoundingBox,
}

impl Collider {
    /// The box that takes part in a test.
    pub open spec fn chosen(self, use_hit_box: bool) -> BoundingBox {
        if use_hit_box {
            self.hit_box
        } else {
            self.bounding_box
        }
    }

    pub open spec fn overlaps_spec(self, other: Collider, use_hit_box: bool) -> bool {
        self.chosen(use_hit_box).intersects(other.chosen(use_hit_box))
    }

    pub fn new(bounding_box: BoundingBox, hit_box: BoundingBox) -> (c: Collider)
        ensures
            c.bounding_box == bounding_box,
            c.hit_box == hit_box,
    {
        Collider { bounding_box, hit_box }
    }

    /// Whether the hit boxes (`use_hit_box`) or else the collision boxes of the
    /// two colliders intersect.
    pub fn overlaps(&self, other: &Collider, use_hit_box: bool) -> (hit: bool)
        ensures
            hit == self.overlaps_spec(*other, use_hit_box),
    {
        if use_hit_box {
            self.hit_box.intersects_with(&other.hit_box)
        } else {
            self.bounding_box.intersects_with(&other.bounding_box)
        }
    }
}

/// The horizontal limits an entity stays between.
#[derive(Clone, Copy, Debug, PartialEq, Eq, Structural)]
pub struct Boundary {
    pub left: i32,
    pub right: i32,
}

/// The current velocity of an entity.
#[derive(Clone, Copy, Debug, PartialEq, Eq, Structural)]
pub struct Motion {
    pub velocity: Vector2,
}

impl Motion {
    /// Whether the velocity is not zero on some axis.
    pub open spec fn is_moving(self) -> bool {
        self.velocity.x != 0 || self.velocity.y != 0
    }

    /// The same motion with the horizontal velocity negated.
    pub open spec fn bounced(self) -> Motion
        recommends
            self.velocity.x > i32::MIN,
    {
        Motion { velocity: Vector2 { x: (-self.velocity.x) as i32, y: self.velocity.y } }
    }
}

/// Where an entity faces on one axis.
#[derive(Clone, Copy, Debug, PartialEq, Eq, Structural)]
pub enum Directions {
    Left,
    Right,
    Neutral,
}

impl Directions {
    /// Left for right and right for left; any other facing stays.
    pub open spec fn reversed(self) -> Directions {
        match self {
            Directions::Left => Directions::Right,
            Directions::Right => Directions::Left,
            Directions::Neutral => Directions::Neutral,
        }
    }
}

/// Where an entity faces.
#[derive(Clone, Copy, Debug, PartialEq, Eq, Structural)]
pub struct Direction {
    pub x: Directions,
    pub y: Directions,
}

impl Direction {
    /// The same facing, reversed on the horizontal axis.
    pub open spec fn turned(self) -> Direction {
        Direction { x: self.x.reversed(), y: self.y }
    }
}

/// An enemy that dies of its fourth hit.
#[derive(Clone, Copy, Debug, PartialEq, Eq, Structural)]
pub struct Pincer {
    pub hit_count: u32,
}

/// The number of hits that destroys a pincer.
pub const PINCER_HITS: u32 = 4;

/// Marks an entity as a projectile.
#[derive(Clone, Copy, Debug, PartialEq, Eq, Structural)]
pub struct Bullet {
}

/// What an outcome's name says of the counterpart.
#[derive(Clone, Copy, Debug, PartialEq, Eq, Structural)]
pub enum Counterpart {
    /// The entity's own horizontal boundary.
    Boundary,
    /// A projectile.
    Bullet,
    /// Any other entity.
    Other,
}

/// The counterpart that a name stands for: `Boundary` and `Bullet` are
/// reserved, every other name is an ordinary entity's.
pub open spec fn counterpart_of(name: Seq<char>) -> Counterpart {
    if name == "Boundary"@ {
        Counterpart::Boundary
    } else if name == "Bullet"@ {
        Counterpart::Bullet
    } else {
        Counterpart::Other
    }
}

/// What an entity collided with on the horizontal axis.
#[derive(Clone, Debug, PartialEq, Eq)]
pub struct CollideeDetails {
    pub name: String,
    pub position: Vector2,
    pub half_size: Vector2,
    pub correction: i64,
}

/// The mathematical content of a [`CollideeDetails`].
pub struct Outcome {
    pub name: Seq<char>,
    pub position: Vector2,
    pub half_size: Vector2,
    pub correction: int,
}

impl Outcome {
    /// The outcome of passing a boundary by `correction`.
    pub open spec fn boundary(correction: int) -> Outcome {
        Outcome {
            name: "Boundary"@,
            position: Vector2 { x: 0, y: 0 },
            half_size: Vector2 { x: 0, y: 0 },
            correction,
        }
    }

    /// The outcome of meeting an entity called `name` whose box in force is
    /// `met`.
    pub open spec fn entity(name: Seq<char>, met: BoundingBox) -> Outcome {
        Outcome { name, position: met.position, half_size: met.half_size, correction: 0 }
    }
}

impl View for CollideeDetails {
    type V = Outcome;

    open spec fn view(&self) -> Outcome {
        Outcome {
            name: self.name@,
            position: self.position,
            half_size: self.half_size,
            correction: self.correction as int,
        }
    }
}

impl CollideeDetails {
    /// The details of passing a boundary by `correction`.
    pub fn boundary(correction: i64) -> (details: CollideeDetails)
        ensures
            details@ == Outcome::boundary(correction as int),
    {
        CollideeDetails {
            name: String::from_str("Boundary"),
            position: Vector2 { x: 0, y: 0 },
            half_size: Vector2 { x: 0, y: 0 },
            correction,
        }
    }

    /// What the name says of the counterpart.
    pub fn counterpart(&self) -> (kind: Counterpart)
        ensures
            kind == counterpart_of(self.name@),
    {
        if self.name == String::from_str("Boundary") {
            Counterpart::Boundary
        } else if self.name == String::from_str("Bullet") {
            Counterpart::Bullet
        } else {
            Counterpart::Other
        }
    }
}

/// The slot that holds an entity's collision outcome of the current tick, if
/// it has one.
#[derive(Clone, Debug, PartialEq, Eq)]
pub struct Collidee {
    pub horizontal: Option<CollideeDetails>,
}

impl View for Collidee {
    type V = Option<Outcome>;

    open spec fn view(&self) -> Option<Outcome> {
        match self.horizontal {
            Some(details) => Some(details@),
            None => None,
        }
    }
}

impl Collidee {
    /// A slot without an outcome.
    pub fn new() -> (collidee: Collidee)
        ensures
            collidee@ is None,
    {
        Collidee { horizontal: None }
    }

    /// Records a collision with the entity called `name`: the outcome holds
    /// that name and the counterpart's box in force, and no correction.
    /// Whatever the slot held before is gone.
    pub fn set_collidee_details(&mut self, name: String, collider_b: &Collider, use_hit_box: bool)
        ensures
            final(self)@ == Some(Outcome::entity(name@, collider_b.chosen(use_hit_box))),
    {
        let met = if use_hit_box {
            collider_b.hit_box
        } else {
            collider_b.bounding_box
        };
        self.horizontal = Some(
            CollideeDetails { name, position: met.position, half_size: met.half_size, correction: 0 },
        );
    }
}

/// Two boxes intersect exactly when, on both axes, each begins before the
/// other ends.
pub proof fn law_intersects_by_edges(a: BoundingBox, b: BoundingBox)
    ensures
        a.intersects(b) <==> (a.left() < b.right() && b.left() < a.right() && a.bottom() < b.top()
            && b.bottom() < a.top()),
        a.intersects(b) <==> !a.apart_from(b),
{
}

/// Intersection does not depend on the order of the two boxes.
pub proof fn law_intersects_symmetric(a: BoundingBox, b: BoundingBox)
    ensures
        a.intersects(b) == b.intersects(a),
{
}

/// Colliders whose boxes in force are apart on some axis do not overlap; where
/// both pairs of boxes are apart, they overlap under neither setting of the
/// flag.
pub proof fn law_apart_never_overlaps(a: Collider, b: Collider, use_hit_box: bool)
    ensures
        a.chosen(use_hit_box).apart_from(b.chosen(use_hit_box)) ==> !a.overlaps_spec(
            b,
            use_hit_box,
        ),
        a.bounding_box.apart_from(b.bounding_box) && a.hit_box.apart_from(b.hit_box) ==> forall|
            flag: bool,
        |
            !#[trigger] a.overlaps_spec(b, flag),
{
}

/// Colliders whose boxes in force share interior on both axes overlap.
pub proof fn law_shared_interior_overlaps(a: Collider, b: Collider, use_hit_box: bool)
    requires
        a.chosen(use_hit_box).left() < b.chosen(use_hit_box).right(),
        b.chosen(use_hit_box).left() < a.chosen(use_hit_box).right(),
        a.chosen(use_hit_box).bottom() < b.chosen(use_hit_box).top(),
        b.chosen(use_hit_box).bottom() < a.chosen(use_hit_box).top(),
    ensures
        a.overlaps_spec(b, use_hit_box),
{
}

} // verus!
