//! The entity model: tagged body variants with position, size, friction and
//! the per-tick map of directional contacts.

use vstd::prelude::*;

use crate::fx::spec_abs;
use crate::vec2::Vec2;

verus! {

/// The side of a box on which a contact lies.
#[derive(Clone, Copy, Debug, PartialEq, Eq, Structural)]
pub enum Direction {
    Left,
    Right,
    Up,
    Down,
}

/// Press state of a key, as reported by the input collaborator.
#[derive(Clone, Copy, Debug, PartialEq, Eq, Structural)]
pub enum KeyState {
    Pressed,
    Released,
}

/// The one input primitive: a key transition for a direction.
#[derive(Clone, Copy, Debug, PartialEq, Eq, Structural)]
pub enum Event {
    Keyboard { button: Direction, state: KeyState },
}

/// Classify a separation vector by dominant axis and sign: the side of the
/// *other* box that the vector points out of.
pub open spec fn spec_from_vector(v: Vec2) -> Direction {
    if spec_abs(v.x as int) > spec_abs(v.y as int) {
        if v.x > 0 {
            Direction::Right
        } else {
            Direction::Left
        }
    } else if v.y > 0 {
        Direction::Up
    } else {
        Direction::Down
    }
}

impl Direction {
    pub open spec fn spec_invert(&self) -> Direction {
        match *self {
            Direction::Left => Direction::Right,
            Direction::Right => Direction::Left,
            Direction::Up => Direction::Down,
            Direction::Down => Direction::Up,
        }
    }

    /// The opposite side.
    #[verifier::when_used_as_spec(spec_invert)]
    pub fn invert(&self) -> (r: Direction)
        ensures
            r == self.spec_invert(),
    {
        match self {
            Direction::Left => Direction::Right,
            Direction::Right => Direction::Left,
            Direction::Up => Direction::Down,
            Direction::Down => Direction::Up,
        }
    }

    /// Classify a vector by dominant axis and sign.
    pub fn from_vector(v: &Vec2) -> (r: Direction)
        ensures
            r == spec_from_vector(*v),
    {
        let ax: i128 = if v.x >= 0 {
            v.x as i128
        } else {
            -(v.x as i128)
        };
        let ay: i128 = if v.y >= 0 {
            v.y as i128
        } else {
            -(v.y as i128)
        };
        if ax > ay {
            if v.x > 0 {
                Direction::Right
            } else {
                Direction::Left
            }
        } else if v.y > 0 {
            Direction::Up
        } else {
            Direction::Down
        }
    }
}

/// Body variants.  Only `Movable` carries a real velocity and can be pushed
/// by collision response; a `Treadmill` only pretends to move, lending its
/// `fake_velocity` to surface-velocity averaging and friction transfer.
#[derive(Clone, Copy, Debug, PartialEq, Eq, Structural)]
pub enum ObjectType {
    Static,
    Movable { velocity: Vec2, mass: i64 },
    Treadmill { fake_velocity: Vec2 },
}

/// A rectangular body of the world.
///
/// `touching` maps other-entity handles to the side of *this* entity on
/// which the contact lies; it is kept as an association list in insertion
/// order, which the simulation rebuilds every tick.
#[derive(Clone)]
pub struct Object {
    pub ty: ObjectType,
    pub pos: Vec2,
    pub size: Vec2,
    pub surface_friction: i64,
    pub touching: Vec<(usize, Direction)>,
}

/// Mathematical model of an [`Object`].
pub struct ObjectModel {
    pub ty: ObjectType,
    pub pos: Vec2,
    pub size: Vec2,
    pub surface_friction: i64,
    pub touching: Seq<(usize, Direction)>,
}

impl View for Object {
    type V = ObjectModel;

    open spec fn view(&self) -> ObjectModel {
        ObjectModel {
            ty: self.ty,
            pos: self.pos,
            size: self.size,
            surface_friction: self.surface_friction,
            touching: self.touching@,
        }
    }
}

impl ObjectModel {
    /// The velocity the body lends to its surface.
    pub open spec fn velocity(self) -> Vec2 {
        match self.ty {
            ObjectType::Static => Vec2 { x: 0, y: 0 },
            ObjectType::Movable { velocity, .. } => velocity,
            ObjectType::Treadmill { fake_velocity } => fake_velocity,
        }
    }

    /// `Some(mass)` exactly when collision response may move the body.
    pub open spec fn pushable(self) -> Option<i64> {
        match self.ty {
            ObjectType::Static => Option::None,
            ObjectType::Movable { mass, .. } => Option::Some(mass),
            ObjectType::Treadmill { .. } => Option::None,
        }
    }

    /// Zero the requested velocity components; other bodies are unchanged.
    pub open spec fn with_reset_velocity(self, zero_x: bool, zero_y: bool) -> ObjectModel {
        match self.ty {
            ObjectType::Movable { velocity, mass } => ObjectModel {
                ty: ObjectType::Movable {
                    velocity: Vec2 {
                        x: if zero_x {
                            0
                        } else {
                            velocity.x
                        },
                        y: if zero_y {
                            0
                        } else {
                            velocity.y
                        },
                    },
                    mass,
                },
                ..self
            },
            _ => self,
        }
    }

    /// Add to the velocity of a movable body; other bodies are unchanged.
    pub open spec fn with_push(self, push: Vec2) -> ObjectModel {
        match self.ty {
            ObjectType::Movable { velocity, mass } => ObjectModel {
                ty: ObjectType::Movable {
                    velocity: crate::vec2::spec_v2_add(velocity, push),
                    mass,
                },
                ..self
            },
            _ => self,
        }
    }

    pub open spec fn with_pos(self, pos: Vec2) -> ObjectModel {
        ObjectModel { pos, ..self }
    }

    pub open spec fn with_touching(self, touching: Seq<(usize, Direction)>) -> ObjectModel {
        ObjectModel { touching, ..self }
    }

}

/// A contact map holds each other-entity handle at most once.
pub open spec fn touch_keys_unique(t: Seq<(usize, Direction)>) -> bool {
    forall|i: int, j: int|
        0 <= i < j < t.len() ==> (#[trigger] t[i]).0 != (#[trigger] t[j]).0
}

/// Whether a contact map holds an entry for the handle.
pub open spec fn touch_has_key(t: Seq<(usize, Direction)>, k: usize) -> bool {
    exists|i: int| 0 <= i < t.len() && (#[trigger] t[i]).0 == k
}

/// Model of the world's entity collection: a slot per handle, empty slots
/// standing for removed entities.
pub open spec fn objects_view(v: Seq<Option<Object>>) -> Seq<Option<ObjectModel>> {
    v.map_values(
        |o: Option<Object>|
            match o {
                Option::Some(x) => Option::Some(x@),
                Option::None => Option::<ObjectModel>::None,
            },
    )
}

/// Total lookup by handle: absent or out-of-range handles give `None`.
pub open spec fn obj_at(objs: Seq<Option<ObjectModel>>, k: int) -> Option<ObjectModel> {
    if 0 <= k < objs.len() {
        objs[k]
    } else {
        Option::None
    }
}

/// Total lookup by handle in the entity collection.
pub fn obj_get(objects: &Vec<Option<Object>>, k: usize) -> (r: Option<&Object>)
    ensures
        match r {
            Option::Some(o) => obj_at(objects_view(objects@), k as int) == Option::Some(o@),
            Option::None => obj_at(objects_view(objects@), k as int) is None,
        },
{
    if k < objects.len() {
        match &objects[k] {
            Option::Some(o) => Option::Some(o),
            Option::None => Option::None,
        }
    } else {
        Option::None
    }
}

/// Copy a contact map.
pub fn copy_touching(t: &Vec<(usize, Direction)>) -> (r: Vec<(usize, Direction)>)
    ensures
        r@ == t@,
{
    let mut r: Vec<(usize, Direction)> = Vec::new();
    let mut i: usize = 0;
    while i < t.len()
        invariant
            i <= t@.len(),
            r@ == t@.take(i as int),
        decreases t@.len() - i,
    {
        r.push(t[i]);
        proof {
            assert(t@.take(i as int).push(t@[i as int]) =~= t@.take(i + 1));
        }
        i += 1;
    }
    proof {
        assert(t@.take(t@.len() as int) =~= t@);
    }
    r
}

/// Record a contact in a map: replace the side stored for the handle, or
/// append the pair if the handle is new.
pub open spec fn spec_touch_insert(
    t: Seq<(usize, Direction)>,
    k: usize,
    d: Direction,
) -> Seq<(usize, Direction)>
    decreases t.len(),
{
    if t.len() == 0 {
        seq![(k, d)]
    } else if t[0].0 == k {
        seq![(k, d)] + t.drop_first()
    } else {
        seq![t[0]] + spec_touch_insert(t.drop_first(), k, d)
    }
}

proof fn lemma_touch_insert_not_found(t: Seq<(usize, Direction)>, k: usize, d: Direction)
    requires
        forall|j: int| 0 <= j < t.len() ==> (#[trigger] t[j]).0 != k,
    ensures
        spec_touch_insert(t, k, d) =~= t.push((k, d)),
    decreases t.len(),
{
    if t.len() == 0 {
    } else {
        lemma_touch_insert_not_found(t.drop_first(), k, d);
    }
}

proof fn lemma_touch_insert_found(t: Seq<(usize, Direction)>, k: usize, d: Direction, i: int)
    requires
        0 <= i < t.len(),
        t[i].0 == k,
        forall|j: int| 0 <= j < i ==> (#[trigger] t[j]).0 != k,
    ensures
        spec_touch_insert(t, k, d) =~= t.update(i, (k, d)),
    decreases t.len(),
{
    if i == 0 {
    } else {
        lemma_touch_insert_found(t.drop_first(), k, d, i - 1);
    }
}

pub(crate) proof fn lemma_touch_has_key_concat(
    a: Seq<(usize, Direction)>,
    b: Seq<(usize, Direction)>,
    x: usize,
)
    ensures
        touch_has_key(a + b, x) <==> (touch_has_key(a, x) || touch_has_key(b, x)),
{
    let c = a + b;
    if touch_has_key(c, x) {
        let i = choose|i: int| 0 <= i < c.len() && (#[trigger] c[i]).0 == x;
        if i < a.len() {
            assert(a[i].0 == x);
        } else {
            assert(b[i - a.len()].0 == x);
        }
    }
    if touch_has_key(a, x) {
        let i = choose|i: int| 0 <= i < a.len() && (#[trigger] a[i]).0 == x;
        assert(c[i].0 == x);
    }
    if touch_has_key(b, x) {
        let i = choose|i: int| 0 <= i < b.len() && (#[trigger] b[i]).0 == x;
        assert(c[a.len() + i].0 == x);
    }
}

pub(crate) proof fn lemma_touch_has_key_singleton(e: (usize, Direction), x: usize)
    ensures
        touch_has_key(seq![e], x) <==> e.0 == x,
{
    if touch_has_key(seq![e], x) {
        let i = choose|i: int| 0 <= i < seq![e].len() && (#[trigger] seq![e][i]).0 == x;
        assert(i == 0);
    }
    if e.0 == x {
        assert(seq![e][0].0 == x);
    }
}

/// Inserting a contact adds the new handle to the map's keys and keeps
/// every key that was there.
proof fn lemma_touch_insert_keys(t: Seq<(usize, Direction)>, k: usize, d: Direction, x: usize)
    ensures
        touch_has_key(spec_touch_insert(t, k, d), x) <==> (touch_has_key(t, x) || x == k),
    decreases t.len(),
{
    let c = spec_touch_insert(t, k, d);
    if t.len() == 0 {
        lemma_touch_has_key_singleton((k, d), x);
        assert(c =~= seq![(k, d)]);
        assert(!touch_has_key(t, x));
    } else {
        assert(t =~= seq![t[0]] + t.drop_first());
        lemma_touch_has_key_concat(seq![t[0]], t.drop_first(), x);
        lemma_touch_has_key_singleton(t[0], x);
        if t[0].0 == k {
            assert(c =~= seq![(k, d)] + t.drop_first());
            lemma_touch_has_key_concat(seq![(k, d)], t.drop_first(), x);
            lemma_touch_has_key_singleton((k, d), x);
        } else {
            let rec = spec_touch_insert(t.drop_first(), k, d);
            assert(c =~= seq![t[0]] + rec);
            lemma_touch_has_key_concat(seq![t[0]], rec, x);
            lemma_touch_insert_keys(t.drop_first(), k, d, x);
        }
    }
}

/// Inserting a contact keeps the map's keys unique.
pub(crate) proof fn lemma_touch_insert_unique(t: Seq<(usize, Direction)>, k: usize, d: Direction)
    requires
        touch_keys_unique(t),
    ensures
        touch_keys_unique(spec_touch_insert(t, k, d)),
    decreases t.len(),
{
    let c = spec_touch_insert(t, k, d);
    if t.len() == 0 {
    } else if t[0].0 == k {
        assert(c =~= seq![(k, d)] + t.drop_first());
        assert forall|i: int, j: int| 0 <= i < j < c.len() implies (#[trigger] c[i]).0 != (
        #[trigger] c[j]).0 by {
            assert(c[j] == t[j]);
            if i > 0 {
                assert(c[i] == t[i]);
            } else {
                assert(c[0].0 == t[0].0);
            }
        }
    } else {
        assert forall|i: int, j: int|
            0 <= i < j < t.drop_first().len() implies (#[trigger] t.drop_first()[i]).0 != (
        #[trigger] t.drop_first()[j]).0 by {
            assert(t.drop_first()[i] == t[i + 1]);
            assert(t.drop_first()[j] == t[j + 1]);
        }
        lemma_touch_insert_unique(t.drop_first(), k, d);
        let rec = spec_touch_insert(t.drop_first(), k, d);
        assert(c =~= seq![t[0]] + rec);
        assert forall|i: int, j: int| 0 <= i < j < c.len() implies (#[trigger] c[i]).0 != (
        #[trigger] c[j]).0 by {
            if i == 0 {
                let key = c[j].0;
                assert(rec[j - 1].0 == key);
                assert(touch_has_key(rec, key));
                lemma_touch_insert_keys(t.drop_first(), k, d, key);
                if c[0].0 == key {
                    if touch_has_key(t.drop_first(), key) {
                        let w = choose|w: int|
                            0 <= w < t.drop_first().len() && (#[trigger] t.drop_first()[w]).0
                                == key;
                        assert(t[w + 1].0 == t[0].0);
                        assert(false);
                    }
                }
            } else {
                assert(c[i] == rec[i - 1]);
                assert(c[j] == rec[j - 1]);
            }
        }
    }
}

/// Record a contact: replace the side stored for `k`, or append it.
pub fn touch_insert(t: &mut Vec<(usize, Direction)>, k: usize, d: Direction)
    ensures
        final(t)@ == spec_touch_insert(old(t)@, k, d),
{
    let mut i: usize = 0;
    while i < t.len()
        invariant
            i <= t@.len(),
            t@ == old(t)@,
            forall|j: int| 0 <= j < i ==> (#[trigger] t@[j]).0 != k,
        decreases t@.len() - i,
    {
        if t[i].0 == k {
            t[i] = (k, d);
            proof {
                lemma_touch_insert_found(old(t)@, k, d, i as int);
            }
            return ;
        }
        i += 1;
    }
    t.push((k, d));
    proof {
        lemma_touch_insert_not_found(old(t)@, k, d);
    }
}

/// Whether any contact lies on the given side.
pub open spec fn spec_touching_has(t: Seq<(usize, Direction)>, d: Direction) -> bool {
    exists|i: int| 0 <= i < t.len() && (#[trigger] t[i]).1 == d
}

/// Whether any contact lies on the given side.
pub fn touching_has(t: &Vec<(usize, Direction)>, d: Direction) -> (r: bool)
    ensures
        r == spec_touching_has(t@, d),
{
    let mut i: usize = 0;
    while i < t.len()
        invariant
            i <= t@.len(),
            forall|j: int| 0 <= j < i ==> (#[trigger] t@[j]).1 != d,
        decreases t@.len() - i,
    {
        if t[i].1 == d {
            return true;
        }
        i += 1;
    }
    false
}

impl Object {
    /// Build a body with an empty contact map.
    pub fn new(ty: ObjectType, pos: Vec2, size: Vec2, surface_friction: i64) -> (r: Object)
        ensures
            r@ == (ObjectModel {
                ty,
                pos,
                size,
                surface_friction,
                touching: Seq::<(usize, Direction)>::empty(),
            }),
    {
        let r = Object { ty, pos, size, surface_friction, touching: Vec::new() };
        proof {
            assert(r@.touching =~= Seq::<(usize, Direction)>::empty());
        }
        r
    }

    pub fn get_pos(&self) -> (r: Vec2)
        ensures
            r == self@.pos,
    {
        self.pos
    }

    pub fn get_size(&self) -> (r: Vec2)
        ensures
            r == self@.size,
    {
        self.size
    }

    pub fn get_type(&self) -> (r: ObjectType)
        ensures
            r == self@.ty,
    {
        self.ty
    }

    pub fn get_surface_friction(&self) -> (r: i64)
        ensures
            r == self@.surface_friction,
    {
        self.surface_friction
    }

    /// The contact map, as handle/side pairs in insertion order.
    pub fn get_touching(&self) -> (r: &Vec<(usize, Direction)>)
        ensures
            r@ == self@.touching,
    {
        &self.touching
    }

    /// The velocity the body lends to its surface: movable bodies report
    /// their real velocity, treadmills their pretend one, static bodies zero.
    pub fn get_velocity(&self) -> (r: Vec2)
        ensures
            r == self@.velocity(),
    {
        match &self.ty {
            ObjectType::Static => Vec2 { x: 0, y: 0 },
            ObjectType::Movable { velocity, .. } => *velocity,
            ObjectType::Treadmill { fake_velocity } => *fake_velocity,
        }
    }

    /// `Some(mass)` exactly when collision response may move the body.
    pub fn can_be_pushed(&self) -> (r: Option<i64>)
        ensures
            r == self@.pushable(),
    {
        match &self.ty {
            ObjectType::Static => Option::None,
            ObjectType::Movable { mass, .. } => Option::Some(*mass),
            ObjectType::Treadmill { .. } => Option::None,
        }
    }

    /// Zero the requested velocity components of a movable body.
    pub fn reset_velocity_components(&mut self, zero: (bool, bool))
        ensures
            *final(self) == (Object { ty: final(self).ty, ..*old(self) }),
            final(self)@ == old(self)@.with_reset_velocity(zero.0, zero.1),
    {
        match &mut self.ty {
            ObjectType::Static => {},
            ObjectType::Movable { velocity, .. } => {
                if zero.0 {
                    velocity.x = 0;
                }
                if zero.1 {
                    velocity.y = 0;
                }
            },
            ObjectType::Treadmill { .. } => {},
        }
    }

    /// Add to the velocity of a movable body.
    pub fn apply_push(&mut self, push: Vec2)
        ensures
            *final(self) == (Object { ty: final(self).ty, ..*old(self) }),
            final(self)@ == old(self)@.with_push(push),
    {
        match &mut self.ty {
            ObjectType::Movable { velocity, .. } => {
                *velocity = crate::vec2::v2_add(*velocity, push);
            },
            _ => {},
        }
    }
}

} // verus!
