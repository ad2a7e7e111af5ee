//! The player controller: drains buffered input events, drives horizontal
//! velocity relative to the surface the player stands on, and triggers
//! jumps.

use vstd::prelude::*;

use crate::entity::copy_touching;
use crate::entity::obj_at;
use crate::entity::obj_get;
use crate::entity::objects_view;
use crate::entity::spec_touching_has;
use crate::entity::touching_has;
use crate::entity::Direction;
use crate::entity::Event;
use crate::entity::KeyState;
use crate::entity::Object;
use crate::entity::ObjectModel;
use crate::entity::ObjectType;
use crate::fx::fx_abs;
use crate::fx::fx_add;
use crate::fx::fx_div;
use crate::fx::fx_mul;
use crate::fx::fx_neg;
use crate::fx::fx_sub;
use crate::fx::spec_fx_abs;
use crate::fx::spec_fx_add;
use crate::fx::spec_fx_div;
use crate::fx::spec_fx_mul;
use crate::fx::spec_fx_neg;
use crate::fx::spec_fx_sub;
use crate::fx::FX_SCALE;
use crate::params::GRAVITY;
use crate::params::JUMP_KICK;
use crate::params::JUMP_SPEED;
use crate::vec2::spec_v2_add;
use crate::vec2::spec_v2_div;
use crate::vec2::spec_v2_scale;
use crate::vec2::v2_add;
use crate::vec2::v2_div;
use crate::vec2::v2_scale;
use crate::vec2::Vec2;

verus! {

/// Current press state of the four direction keys.
#[derive(Clone, Copy, Debug, PartialEq, Eq, Structural)]
pub struct KeyStates {
    pub left: KeyState,
    pub right: KeyState,
    pub up: KeyState,
    pub down: KeyState,
}

impl KeyStates {
    pub open spec fn spec_all_released() -> KeyStates {
        KeyStates {
            left: KeyState::Released,
            right: KeyState::Released,
            up: KeyState::Released,
            down: KeyState::Released,
        }
    }

    /// All keys initially released.
    #[verifier::when_used_as_spec(spec_all_released)]
    pub fn all_released() -> (r: KeyStates)
        ensures
            r == KeyStates::spec_all_released(),
    {
        KeyStates {
            left: KeyState::Released,
            right: KeyState::Released,
            up: KeyState::Released,
            down: KeyState::Released,
        }
    }

    pub open spec fn spec_with_key(&self, d: Direction, s: KeyState) -> KeyStates {
        match d {
            Direction::Left => KeyStates { left: s, ..*self },
            Direction::Right => KeyStates { right: s, ..*self },
            Direction::Up => KeyStates { up: s, ..*self },
            Direction::Down => KeyStates { down: s, ..*self },
        }
    }

    /// Record a key transition.
    #[verifier::when_used_as_spec(spec_with_key)]
    pub fn with_key(&self, d: Direction, s: KeyState) -> (r: KeyStates)
        ensures
            r == self.spec_with_key(d, s),
    {
        match d {
            Direction::Left => KeyStates { left: s, ..*self },
            Direction::Right => KeyStates { right: s, ..*self },
            Direction::Up => KeyStates { up: s, ..*self },
            Direction::Down => KeyStates { down: s, ..*self },
        }
    }
}

/// Drives one controlled entity from buffered keyboard events.
#[derive(Clone)]
pub struct PlayerController {
    pub pending_events: Vec<Event>,
    pub controlled_object: usize,
    pub key_states: KeyStates,
    pub last_touch_velocity: Vec2,
    pub top_speed: i64,
    pub acceleration_speed: i64,
}

/// Mathematical model of a [`PlayerController`].
pub struct PlayerControllerModel {
    pub pending_events: Seq<Event>,
    pub controlled_object: usize,
    pub key_states: KeyStates,
    pub last_touch_velocity: Vec2,
    pub top_speed: i64,
    pub acceleration_speed: i64,
}

impl View for PlayerController {
    type V = PlayerControllerModel;

    open spec fn view(&self) -> PlayerControllerModel {
        PlayerControllerModel {
            pending_events: self.pending_events@,
            controlled_object: self.controlled_object,
            key_states: self.key_states,
            last_touch_velocity: self.last_touch_velocity,
            top_speed: self.top_speed,
            acceleration_speed: self.acceleration_speed,
        }
    }
}

/// Fold the buffered events into the key-state map, in arrival order, and
/// note whether an `Up`-press (a jump intent) occurred.
pub open spec fn spec_drain_events(evs: Seq<Event>, ks: KeyStates, jump: bool) -> (
    KeyStates,
    bool,
)
    decreases evs.len(),
{
    if evs.len() == 0 {
        (ks, jump)
    } else {
        match evs[0] {
            Event::Keyboard { button, state } => spec_drain_events(
                evs.drop_first(),
                ks.spec_with_key(button, state),
                jump || (button is Up && state is Pressed),
            ),
        }
    }
}

/// Friction-weighted mean of the touched surfaces' velocities, walked in
/// contact-map order with a running sum and weight.  A zero-friction surface
/// short-circuits: its velocity is adopted outright.  Stale handles are
/// skipped.  An empty walk ends in `sum / weights` (zero when the weight is
/// zero).
pub open spec fn spec_average_touch_velocity(
    objs: Seq<Option<ObjectModel>>,
    t: Seq<(usize, Direction)>,
    sum: Vec2,
    weights: i64,
) -> Vec2
    decreases t.len(),
{
    if t.len() == 0 {
        spec_v2_div(sum, weights)
    } else {
        match obj_at(objs, t[0].0 as int) {
            Option::Some(o) => {
                if o.surface_friction == 0 {
                    o.velocity()
                } else {
                    let c = spec_fx_div(FX_SCALE, o.surface_friction);
                    spec_average_touch_velocity(
                        objs,
                        t.drop_first(),
                        spec_v2_add(sum, spec_v2_scale(o.velocity(), c)),
                        spec_fx_add(weights, c),
                    )
                }
            },
            Option::None => spec_average_touch_velocity(objs, t.drop_first(), sum, weights),
        }
    }
}

/// New horizontal velocity: with exactly one of left/right pressed,
/// accelerate that way, capped at `top` relative to the surface velocity;
/// otherwise step toward the surface velocity without overshooting.
pub open spec fn spec_horizontal_drive(
    vx: i64,
    avg_x: i64,
    ks: KeyStates,
    accel: i64,
    top: i64,
    dt: i64,
) -> i64 {
    if ks.left != ks.right {
        if ks.left is Pressed {
            let v1 = spec_fx_add(vx, spec_fx_neg(spec_fx_mul(accel, dt)));
            if v1 < spec_fx_sub(avg_x, top) {
                spec_fx_sub(avg_x, top)
            } else {
                v1
            }
        } else {
            let v1 = spec_fx_add(vx, spec_fx_mul(accel, dt));
            if v1 > spec_fx_add(avg_x, top) {
                spec_fx_add(avg_x, top)
            } else {
                v1
            }
        }
    } else {
        let target = spec_fx_sub(avg_x, vx);
        let step0 = spec_fx_mul(accel, dt);
        let step = if step0 > spec_fx_abs(target) {
            spec_fx_abs(target)
        } else {
            step0
        };
        if target >= 0 {
            spec_fx_add(vx, step)
        } else {
            spec_fx_add(vx, spec_fx_neg(step))
        }
    }
}

/// Velocity gained by a jump: straight up, with a horizontal kick away from
/// a touched wall (left checked first).
pub open spec fn spec_jump_offset(t: Seq<(usize, Direction)>) -> Vec2 {
    Vec2 {
        x: if spec_touching_has(t, Direction::Left) {
            JUMP_KICK
        } else if spec_touching_has(t, Direction::Right) {
            spec_fx_neg(JUMP_KICK)
        } else {
            0
        },
        y: JUMP_SPEED,
    }
}

/// One controller tick: drain events, then—if the controlled entity exists
/// and is movable—recompute the average touch velocity, drive the
/// horizontal velocity, apply a jump if one was pressed while touching
/// something, and bleed downward velocity while grounded.
pub open spec fn spec_player_update(
    pc: PlayerControllerModel,
    objs: Seq<Option<ObjectModel>>,
    dt: i64,
) -> (PlayerControllerModel, Seq<Option<ObjectModel>>) {
    let (ks, jump) = spec_drain_events(pc.pending_events, pc.key_states, false);
    let pc1 = PlayerControllerModel { pending_events: Seq::empty(), key_states: ks, ..pc };
    match obj_at(objs, pc.controlled_object as int) {
        Option::Some(o) => match o.ty {
            ObjectType::Movable { velocity, mass } => {
                let avg = if o.touching.len() != 0 {
                    spec_average_touch_velocity(objs, o.touching, Vec2 { x: 0, y: 0 }, 0)
                } else {
                    pc.last_touch_velocity
                };
                let pc2 = PlayerControllerModel { last_touch_velocity: avg, ..pc1 };
                let v1 = Vec2 {
                    x: spec_horizontal_drive(
                        velocity.x,
                        avg.x,
                        ks,
                        pc.acceleration_speed,
                        pc.top_speed,
                        dt,
                    ),
                    y: velocity.y,
                };
                let v2 = if jump && o.touching.len() != 0 {
                    spec_v2_add(v1, spec_jump_offset(o.touching))
                } else {
                    v1
                };
                let v3 = if spec_touching_has(o.touching, Direction::Down) {
                    Vec2 { x: v2.x, y: spec_fx_add(v2.y, spec_fx_mul(GRAVITY, dt)) }
                } else {
                    v2
                };
                let o1 = ObjectModel { ty: ObjectType::Movable { velocity: v3, mass }, ..o };
                (pc2, objs.update(pc.controlled_object as int, Option::Some(o1)))
            },
            _ => (pc1, objs),
        },
        Option::None => (pc1, objs),
    }
}

/// Law: a zero-friction surface is glue.  Whatever running sum and weight
/// the walk has built, the first zero-friction contact's velocity is adopted
/// outright as the average touch velocity, and every other contact's
/// contribution is ignored.
pub proof fn lemma_zero_friction_glue(
    objs: Seq<Option<ObjectModel>>,
    t: Seq<(usize, Direction)>,
    i: int,
    sum: Vec2,
    weights: i64,
)
    requires
        0 <= i < t.len(),
        obj_at(objs, t[i].0 as int) matches Some(o) && o.surface_friction == 0,
        forall|j: int|
            0 <= j < i ==> match obj_at(objs, (#[trigger] t[j]).0 as int) {
                Option::Some(o) => o.surface_friction != 0,
                Option::None => true,
            },
    ensures
        spec_average_touch_velocity(objs, t, sum, weights) == obj_at(
            objs,
            t[i].0 as int,
        )->Some_0.velocity(),
    decreases i,
{
    if i > 0 {
        assert(t.drop_first()[i - 1] == t[i]);
        assert forall|j: int| 0 <= j < i - 1 implies match obj_at(
            objs,
            (#[trigger] t.drop_first()[j]).0 as int,
        ) {
            Option::Some(o) => o.surface_friction != 0,
            Option::None => true,
        } by {
            assert(t.drop_first()[j] == t[j + 1]);
        }
        match obj_at(objs, t[0].0 as int) {
            Option::Some(o0) => {
                let c = spec_fx_div(FX_SCALE, o0.surface_friction);
                lemma_zero_friction_glue(
                    objs,
                    t.drop_first(),
                    i - 1,
                    spec_v2_add(sum, spec_v2_scale(o0.velocity(), c)),
                    spec_fx_add(weights, c),
                );
            },
            Option::None => {
                lemma_zero_friction_glue(objs, t.drop_first(), i - 1, sum, weights);
            },
        }
    }
}

/// Law: jumps are gated on contact.  A controller tick run while the
/// controlled entity's contact map is empty leaves the vertical velocity
/// exactly as it was, whatever events are buffered — an Up-press included.
pub proof fn lemma_jump_gated_airborne(
    pc: PlayerControllerModel,
    objs: Seq<Option<ObjectModel>>,
    dt: i64,
)
    requires
        obj_at(objs, pc.controlled_object as int) matches Some(o) && o.ty matches ObjectType::Movable {
            ..
        } && o.touching.len() == 0,
    ensures
        obj_at(objs, pc.controlled_object as int) matches Some(o) && o.ty matches ObjectType::Movable {
            velocity,
            ..
        } && ({
            let (pc1, objs1) = spec_player_update(pc, objs, dt);
            obj_at(objs1, pc.controlled_object as int) matches Some(o1) && o1.ty
                matches ObjectType::Movable { velocity: v1, .. } && v1.y == velocity.y
        }),
{
}

/// Law: a jump while touching only non-side contacts adds exactly the jump
/// speed to the vertical velocity — plus the grounded bleed when one of the
/// contacts is below.
pub proof fn lemma_jump_grounded(
    pc: PlayerControllerModel,
    objs: Seq<Option<ObjectModel>>,
    dt: i64,
)
    requires
        spec_drain_events(pc.pending_events, pc.key_states, false).1,
        obj_at(objs, pc.controlled_object as int) matches Some(o) && o.ty matches ObjectType::Movable {
            ..
        } && o.touching.len() > 0 && !spec_touching_has(o.touching, Direction::Left)
            && !spec_touching_has(o.touching, Direction::Right),
    ensures
        obj_at(objs, pc.controlled_object as int) matches Some(o) && o.ty matches ObjectType::Movable {
            velocity,
            ..
        } && ({
            let (pc1, objs1) = spec_player_update(pc, objs, dt);
            obj_at(objs1, pc.controlled_object as int) matches Some(o1) && o1.ty
                matches ObjectType::Movable { velocity: v1, .. } && v1.y == (
            if spec_touching_has(o.touching, Direction::Down) {
                spec_fx_add(spec_fx_add(velocity.y, JUMP_SPEED), spec_fx_mul(GRAVITY, dt))
            } else {
                spec_fx_add(velocity.y, JUMP_SPEED)
            })
        }),
{
}

/// Friction-weighted mean of the touched surfaces' velocities.
fn average_touch_velocity(objects: &Vec<Option<Object>>, t: &Vec<(usize, Direction)>) -> (r:
    Vec2)
    ensures
        r == spec_average_touch_velocity(objects_view(objects@), t@, Vec2 { x: 0, y: 0 }, 0),
{
    let mut sum = Vec2 { x: 0, y: 0 };
    let mut weights: i64 = 0;
    let mut i: usize = 0;
    proof {
        assert(t@.skip(0) =~= t@);
    }
    while i < t.len()
        invariant
            i <= t@.len(),
            spec_average_touch_velocity(objects_view(objects@), t@, Vec2 { x: 0, y: 0 }, 0)
                == spec_average_touch_velocity(
                objects_view(objects@),
                t@.skip(i as int),
                sum,
                weights,
            ),
        decreases t@.len() - i,
    {
        proof {
            assert(t@.skip(i as int)[0] == t@[i as int]);
            assert(t@.skip(i as int).drop_first() =~= t@.skip(i as int + 1));
        }
        let k = t[i].0;
        match obj_get(objects, k) {
            Option::Some(o) => {
                if o.get_surface_friction() == 0 {
                    return o.get_velocity();
                }
                let c = fx_div(FX_SCALE, o.get_surface_friction());
                sum = v2_add(sum, v2_scale(o.get_velocity(), c));
                weights = fx_add(weights, c);
            },
            Option::None => {},
        }
        i += 1;
    }
    proof {
        assert(t@.skip(t@.len() as int) =~= Seq::<(usize, Direction)>::empty());
    }
    v2_div(sum, weights)
}

/// New horizontal velocity for the drained key states.
fn horizontal_drive(vx: i64, avg_x: i64, ks: KeyStates, accel: i64, top: i64, dt: i64) -> (r:
    i64)
    ensures
        r == spec_horizontal_drive(vx, avg_x, ks, accel, top, dt),
{
    if ks.left != ks.right {
        if ks.left == KeyState::Pressed {
            let v1 = fx_add(vx, fx_neg(fx_mul(accel, dt)));
            let floor = fx_sub(avg_x, top);
            if v1 < floor {
                floor
            } else {
                v1
            }
        } else {
            let v1 = fx_add(vx, fx_mul(accel, dt));
            let ceiling = fx_add(avg_x, top);
            if v1 > ceiling {
                ceiling
            } else {
                v1
            }
        }
    } else {
        let target = fx_sub(avg_x, vx);
        let step0 = fx_mul(accel, dt);
        let bound = fx_abs(target);
        let step = if step0 > bound {
            bound
        } else {
            step0
        };
        if target >= 0 {
            fx_add(vx, step)
        } else {
            fx_add(vx, fx_neg(step))
        }
    }
}

/// Velocity gained by a jump, with the wall-kick bias.
fn jump_offset(t: &Vec<(usize, Direction)>) -> (r: Vec2)
    ensures
        r == spec_jump_offset(t@),
{
    let x: i64 = if touching_has(t, Direction::Left) {
        JUMP_KICK
    } else if touching_has(t, Direction::Right) {
        fx_neg(JUMP_KICK)
    } else {
        0
    };
    Vec2 { x, y: JUMP_SPEED }
}

impl PlayerController {
    /// One controller tick (see [`spec_player_update`]).
    pub fn update(&mut self, objects: &mut Vec<Option<Object>>, dt: i64)
        ensures
            ({
                let (pc, objs) = spec_player_update(old(self)@, objects_view(old(objects)@), dt);
                &&& final(self)@ == pc
                &&& objects_view(final(objects)@) == objs
            }),
    {
        let ghost objs0 = objects_view(objects@);
        let mut jump: bool = false;
        let n = self.pending_events.len();
        let mut i: usize = 0;
        proof {
            assert(self.pending_events@.skip(0) =~= self.pending_events@);
        }
        while i < n
            invariant
                i <= n,
                n == self.pending_events@.len(),
                self.pending_events@ == old(self)@.pending_events,
                self.controlled_object == old(self)@.controlled_object,
                self.last_touch_velocity == old(self)@.last_touch_velocity,
                self.top_speed == old(self)@.top_speed,
                self.acceleration_speed == old(self)@.acceleration_speed,
                spec_drain_events(old(self)@.pending_events, old(self)@.key_states, false)
                    == spec_drain_events(
                    self.pending_events@.skip(i as int),
                    self.key_states,
                    jump,
                ),
            decreases n - i,
        {
            proof {
                assert(self.pending_events@.skip(i as int)[0] == self.pending_events@[i as int]);
                assert(self.pending_events@.skip(i as int).drop_first() =~= self.pending_events@.skip(
                    i as int + 1,
                ));
            }
            let ev = self.pending_events[i];
            match ev {
                Event::Keyboard { button, state } => {
                    self.key_states = self.key_states.with_key(button, state);
                    if button == Direction::Up && state == KeyState::Pressed {
                        jump = true;
                    }
                },
            }
            i += 1;
        }
        proof {
            assert(self.pending_events@.skip(n as int) =~= Seq::<Event>::empty());
        }
        self.pending_events.clear();
        let ghost drained = spec_drain_events(old(self)@.pending_events, old(self)@.key_states, false);
        proof {
            assert(drained == (self.key_states, jump));
        }
        let controlled = self.controlled_object;
        if controlled >= objects.len() {
            return ;
        }
        let (velocity, mass, pos, size, friction, touching) = match &objects[controlled] {
            Option::Some(o) => match o.ty {
                ObjectType::Movable { velocity, mass } => (
                    velocity,
                    mass,
                    o.pos,
                    o.size,
                    o.surface_friction,
                    copy_touching(&o.touching),
                ),
                _ => {
                    return ;
                },
            },
            Option::None => {
                return ;
            },
        };
        let avg: Vec2 = if touching.len() > 0 {
            average_touch_velocity(objects, &touching)
        } else {
            self.last_touch_velocity
        };
        self.last_touch_velocity = avg;
        let mut vel = Vec2 {
            x: horizontal_drive(
                velocity.x,
                avg.x,
                self.key_states,
                self.acceleration_speed,
                self.top_speed,
                dt,
            ),
            y: velocity.y,
        };
        if jump && touching.len() > 0 {
            vel = v2_add(vel, jump_offset(&touching));
        }
        if touching_has(&touching, Direction::Down) {
            vel = Vec2 { x: vel.x, y: fx_add(vel.y, fx_mul(GRAVITY, dt)) };
        }
        let updated = Object {
            ty: ObjectType::Movable { velocity: vel, mass },
            pos,
            size,
            surface_friction: friction,
            touching,
        };
        objects[controlled] = Option::Some(updated);
        proof {
            let (pc, objs) = spec_player_update(old(self)@, objs0, dt);
            assert(objects_view(objects@) =~= objs);
        }
    }
}

impl PlayerController {
    /// Enqueue one event for the next tick.
    pub fn push_event(&mut self, ev: Event)
        ensures
            final(self)@ == (PlayerControllerModel {
                pending_events: old(self)@.pending_events.push(ev),
                ..old(self)@
            }),
    {
        self.pending_events.push(ev);
    }
}

/// The closed set of controller kinds the world can own.
#[derive(Clone)]
pub enum Controller {
    PlayerController(PlayerController),
}

/// Mathematical model of a [`Controller`].
pub enum ControllerModel {
    PlayerController(PlayerControllerModel),
}

impl View for Controller {
    type V = ControllerModel;

    open spec fn view(&self) -> ControllerModel {
        match self {
            Controller::PlayerController(c) => ControllerModel::PlayerController(c@),
        }
    }
}

/// One tick of any controller kind.
pub open spec fn spec_controller_update(
    c: ControllerModel,
    objs: Seq<Option<ObjectModel>>,
    dt: i64,
) -> (ControllerModel, Seq<Option<ObjectModel>>) {
    match c {
        ControllerModel::PlayerController(pc) => {
            let (pc1, objs1) = spec_player_update(pc, objs, dt);
            (ControllerModel::PlayerController(pc1), objs1)
        },
    }
}

impl Controller {
    /// One tick of this controller (see [`spec_controller_update`]).
    pub fn update(&mut self, objects: &mut Vec<Option<Object>>, dt: i64)
        ensures
            ({
                let (c, objs) = spec_controller_update(old(self)@, objects_view(old(objects)@), dt);
                &&& final(self)@ == c
                &&& objects_view(final(objects)@) == objs
            }),
    {
        match self {
            Controller::PlayerController(c) => c.update(objects, dt),
        }
    }
}

} // verus!
