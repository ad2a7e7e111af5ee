//! The world: owns the entity collection and the controllers and runs one
//! fixed tick — input, gravity integration, contact refresh, pairwise
//! collision resolution.

use vstd::prelude::*;

use crate::collide::check_collision;
use crate::collide::spec_check_collision;
use crate::control::spec_controller_update;
use crate::control::Controller;
use crate::control::ControllerModel;
use crate::control::KeyStates;
use crate::control::PlayerController;
use crate::entity::copy_touching;
use crate::entity::obj_at;
use crate::entity::obj_get;
use crate::entity::objects_view;
use crate::entity::spec_from_vector;
use crate::entity::spec_touch_insert;
use crate::entity::touch_has_key;
use crate::entity::touch_insert;
use crate::entity::touch_keys_unique;
use crate::entity::Direction;
use crate::entity::Event;
use crate::entity::Object;
use crate::entity::ObjectModel;
use crate::entity::ObjectType;
use crate::fx::fx_add;
use crate::fx::fx_div;
use crate::fx::fx_mul;
use crate::fx::fx_sub;
use crate::fx::spec_fx_add;
use crate::fx::spec_fx_div;
use crate::fx::spec_fx_mul;
use crate::fx::spec_fx_sub;
use crate::fx::FX_SCALE;
use crate::params::CONTACT_MARGIN;
use crate::params::GRAVITY;
use crate::params::PLAYER_ACCELERATION;
use crate::params::PLAYER_TOP_SPEED;
use crate::vec2::spec_v2_add;
use crate::vec2::spec_v2_neg;
use crate::vec2::spec_v2_scale;
use crate::vec2::spec_v2_sub;
use crate::vec2::v2_add;
use crate::vec2::v2_neg;
use crate::vec2::v2_scale;
use crate::vec2::v2_sub;
use crate::vec2::Vec2;

verus! {

/// The whole simulation state: an ordered list of controllers, the entity
/// collection addressed by stable handles (slots keep their index across
/// unrelated removals), and the handle the external camera follows.
#[derive(Clone)]
pub struct GameState {
    pub controllers: Vec<Controller>,
    pub objects: Vec<Option<Object>>,
    pub view_object: usize,
}

/// Mathematical model of a [`GameState`].
pub struct GameStateModel {
    pub controllers: Seq<ControllerModel>,
    pub objects: Seq<Option<ObjectModel>>,
    pub view_object: usize,
}

impl View for GameState {
    type V = GameStateModel;

    open spec fn view(&self) -> GameStateModel {
        GameStateModel {
            controllers: self.controllers@.map_values(|c: Controller| c@),
            objects: objects_view(self.objects@),
            view_object: self.view_object,
        }
    }
}

/// Run the controllers from index `k` on, in order, each seeing the entity
/// state its predecessors left behind.
pub open spec fn spec_run_controllers(
    cs: Seq<ControllerModel>,
    objs: Seq<Option<ObjectModel>>,
    dt: i64,
    k: int,
) -> (Seq<ControllerModel>, Seq<Option<ObjectModel>>)
    decreases cs.len() - k,
{
    if k < 0 || k >= cs.len() {
        (cs, objs)
    } else {
        let (c1, objs1) = spec_controller_update(cs[k], objs, dt);
        spec_run_controllers(cs.update(k, c1), objs1, dt, k + 1)
    }
}

/// Gravity and velocity integration for one body: movable bodies lose
/// `(0, GRAVITY)·dt` of velocity and move by the new velocity times `dt`;
/// static bodies and treadmills never move.
pub open spec fn spec_integrate(o: ObjectModel, dt: i64) -> ObjectModel {
    match o.ty {
        ObjectType::Movable { velocity, mass } => {
            let v1 = spec_v2_sub(velocity, spec_v2_scale(Vec2 { x: 0, y: GRAVITY }, dt));
            ObjectModel {
                ty: ObjectType::Movable { velocity: v1, mass },
                pos: spec_v2_add(o.pos, spec_v2_scale(v1, dt)),
                ..o
            }
        },
        _ => o,
    }
}

pub open spec fn spec_integrate_all(objs: Seq<Option<ObjectModel>>, dt: i64) -> Seq<
    Option<ObjectModel>,
> {
    objs.map_values(
        |s: Option<ObjectModel>|
            match s {
                Option::Some(o) => Option::Some(spec_integrate(o, dt)),
                Option::None => Option::<ObjectModel>::None,
            },
    )
}

/// Re-validate one entity's contact map: every previously-touching entry is
/// kept exactly when the entity still overlaps the other's box inflated by
/// the contact margin, with the side re-derived from the fresh offset.
/// Self-references and stale handles are dropped.
pub open spec fn spec_refresh_touching(
    objs: Seq<Option<ObjectModel>>,
    pos: Vec2,
    size: Vec2,
    t: Seq<(usize, Direction)>,
    self_idx: usize,
) -> Seq<(usize, Direction)>
    decreases t.len(),
{
    if t.len() == 0 {
        Seq::empty()
    } else {
        let rest = spec_refresh_touching(objs, pos, size, t.drop_first(), self_idx);
        let k = t[0].0;
        if k == self_idx {
            rest
        } else {
            match obj_at(objs, k as int) {
                Option::Some(other) => {
                    let margin = Vec2 { x: CONTACT_MARGIN, y: CONTACT_MARGIN };
                    let epos = spec_v2_sub(other.pos, margin);
                    let esize = spec_v2_add(other.size, spec_v2_add(margin, margin));
                    match spec_check_collision(pos, size, epos, esize) {
                        Option::Some(off) => seq![(k, spec_from_vector(off).spec_invert())]
                            + rest,
                        Option::None => rest,
                    }
                },
                Option::None => rest,
            }
        }
    }
}

/// The contact refresh over the whole collection: each entity's map is
/// rebuilt from its previous map against the others' current geometry.
pub open spec fn spec_refresh_all(objs: Seq<Option<ObjectModel>>) -> Seq<Option<ObjectModel>> {
    Seq::new(
        objs.len(),
        |i: int|
            match objs[i] {
                Option::Some(o) => Option::Some(
                    o.with_touching(
                        spec_refresh_touching(objs, o.pos, o.size, o.touching, i as usize),
                    ),
                ),
                Option::None => Option::<ObjectModel>::None,
            },
    )
}

/// Pairwise collision response for handles `i` and `j`: when the boxes
/// overlap and at least one body is pushable, record the contact on both
/// sides, zero the velocity on the corrected axis, and split the positional
/// correction and the friction-weighted relative-velocity transfer by mass.
pub open spec fn spec_handle_collision(
    objs: Seq<Option<ObjectModel>>,
    i: usize,
    j: usize,
) -> Seq<Option<ObjectModel>> {
    if i == j {
        objs
    } else {
        match (obj_at(objs, i as int), obj_at(objs, j as int)) {
            (Option::Some(o1), Option::Some(o2)) => {
                if o1.pushable() is Some || o2.pushable() is Some {
                    match spec_check_collision(o1.pos, o1.size, o2.pos, o2.size) {
                        Option::Some(off) => {
                            let dir = spec_from_vector(off);
                            let o1a = o1.with_touching(
                                spec_touch_insert(o1.touching, j, dir.spec_invert()),
                            );
                            let o2a = o2.with_touching(spec_touch_insert(o2.touching, i, dir));
                            let o1b = o1a.with_reset_velocity(off.x != 0, off.y != 0);
                            let o2b = o2a.with_reset_velocity(off.x != 0, off.y != 0);
                            let total = spec_fx_mul(o1.surface_friction, o2.surface_friction);
                            let voff = if off.x == 0 {
                                Vec2 {
                                    x: spec_fx_div(
                                        spec_fx_sub(o1b.velocity().x, o2b.velocity().x),
                                        total,
                                    ),
                                    y: 0,
                                }
                            } else if off.y == 0 {
                                Vec2 {
                                    x: 0,
                                    y: spec_fx_div(
                                        spec_fx_sub(o1b.velocity().y, o2b.velocity().y),
                                        total,
                                    ),
                                }
                            } else {
                                Vec2 { x: 0, y: 0 }
                            };
                            match (o1.pushable(), o2.pushable()) {
                                (Option::Some(m1), Option::Some(m2)) => {
                                    let ratio = spec_fx_div(m1, spec_fx_add(m1, m2));
                                    let off1 = spec_v2_scale(off, ratio);
                                    let o1c = o1b.with_pos(spec_v2_add(o1b.pos, off1)).with_push(
                                        spec_v2_scale(spec_v2_neg(voff), ratio),
                                    );
                                    let o2c = o2b.with_pos(
                                        spec_v2_sub(o2b.pos, spec_v2_sub(off, off1)),
                                    ).with_push(spec_v2_scale(voff, spec_fx_sub(FX_SCALE, ratio)));
                                    objs.update(i as int, Option::Some(o1c)).update(
                                        j as int,
                                        Option::Some(o2c),
                                    )
                                },
                                (Option::Some(_), Option::None) => {
                                    let o1c = o1b.with_pos(spec_v2_add(o1b.pos, off)).with_push(
                                        spec_v2_neg(voff),
                                    );
                                    objs.update(i as int, Option::Some(o1c)).update(
                                        j as int,
                                        Option::Some(o2b),
                                    )
                                },
                                (Option::None, Option::Some(_)) => {
                                    let o2c = o2b.with_pos(spec_v2_sub(o2b.pos, off)).with_push(
                                        voff,
                                    );
                                    objs.update(i as int, Option::Some(o1b)).update(
                                        j as int,
                                        Option::Some(o2c),
                                    )
                                },
                                (Option::None, Option::None) => objs,
                            }
                        },
                        Option::None => objs,
                    }
                } else {
                    objs
                }
            },
            _ => objs,
        }
    }
}

/// Resolve the pairs `(i, j)` for `j` in `j0..n`, in order.
pub open spec fn spec_resolve_from(
    objs: Seq<Option<ObjectModel>>,
    i: usize,
    j0: int,
    n: int,
) -> Seq<Option<ObjectModel>>
    decreases n - j0,
{
    if j0 < 0 || j0 >= n {
        objs
    } else {
        spec_resolve_from(spec_handle_collision(objs, i, j0 as usize), i, j0 + 1, n)
    }
}

/// Resolve every unordered pair of distinct handles below `n`, in
/// lexicographic order starting from `i0`.
pub open spec fn spec_resolve_pairs(objs: Seq<Option<ObjectModel>>, i0: int, n: int) -> Seq<
    Option<ObjectModel>,
>
    decreases n - i0,
{
    if i0 < 0 || i0 >= n {
        objs
    } else {
        spec_resolve_pairs(spec_resolve_from(objs, i0 as usize, i0 + 1, n), i0 + 1, n)
    }
}

/// One fixed tick: controllers, then gravity/velocity integration, then the
/// contact refresh, then pairwise collision resolution.
pub open spec fn spec_world_update(gs: GameStateModel, dt: i64) -> GameStateModel {
    let (cs1, objs1) = spec_run_controllers(gs.controllers, gs.objects, dt, 0);
    let objs2 = spec_integrate_all(objs1, dt);
    let objs3 = spec_refresh_all(objs2);
    let objs4 = spec_resolve_pairs(objs3, 0, objs3.len() as int);
    GameStateModel { controllers: cs1, objects: objs4, view_object: gs.view_object }
}

impl GameState {
    /// Detect and respond to a collision between one pair of handles
    /// (see [`spec_handle_collision`]).
    pub fn handle_collision(&mut self, i: usize, j: usize)
        ensures
            final(self)@ == (GameStateModel {
                objects: spec_handle_collision(old(self)@.objects, i, j),
                ..old(self)@
            }),
            final(self).controllers == old(self).controllers,
            final(self).view_object == old(self).view_object,
            final(self).objects@.len() == old(self).objects@.len(),
    {
        let ghost objs0 = objects_view(self.objects@);
        if i == j {
            return ;
        }
        if i >= self.objects.len() || j >= self.objects.len() {
            return ;
        }
        let (ty1, pos1, size1, fr1, t1) = match &self.objects[i] {
            Option::Some(o) => (o.ty, o.pos, o.size, o.surface_friction, copy_touching(
                &o.touching,
            )),
            Option::None => {
                return ;
            },
        };
        let (ty2, pos2, size2, fr2, t2) = match &self.objects[j] {
            Option::Some(o) => (o.ty, o.pos, o.size, o.surface_friction, copy_touching(
                &o.touching,
            )),
            Option::None => {
                return ;
            },
        };
        let mut o1 = Object { ty: ty1, pos: pos1, size: size1, surface_friction: fr1, touching: t1 };
        let mut o2 = Object { ty: ty2, pos: pos2, size: size2, surface_friction: fr2, touching: t2 };
        proof {
            assert(obj_at(objs0, i as int) == Option::Some(o1@));
            assert(obj_at(objs0, j as int) == Option::Some(o2@));
        }
        if o1.can_be_pushed().is_none() && o2.can_be_pushed().is_none() {
            return ;
        }
        let off = match check_collision(&o1.pos, &o1.size, &o2.pos, &o2.size) {
            Option::Some(off) => off,
            Option::None => {
                return ;
            },
        };
        let dir = Direction::from_vector(&off);
        touch_insert(&mut o1.touching, j, dir.invert());
        touch_insert(&mut o2.touching, i, dir);
        o1.reset_velocity_components((off.x != 0, off.y != 0));
        o2.reset_velocity_components((off.x != 0, off.y != 0));
        let total = fx_mul(fr1, fr2);
        let voff: Vec2 = if off.x == 0 {
            Vec2 { x: fx_div(fx_sub(o1.get_velocity().x, o2.get_velocity().x), total), y: 0 }
        } else if off.y == 0 {
            Vec2 { x: 0, y: fx_div(fx_sub(o1.get_velocity().y, o2.get_velocity().y), total) }
        } else {
            Vec2 { x: 0, y: 0 }
        };
        match (o1.can_be_pushed(), o2.can_be_pushed()) {
            (Option::Some(m1), Option::Some(m2)) => {
                let ratio = fx_div(m1, fx_add(m1, m2));
                let off1 = v2_scale(off, ratio);
                o1.pos = v2_add(o1.pos, off1);
                o2.pos = v2_sub(o2.pos, v2_sub(off, off1));
                o1.apply_push(v2_scale(v2_neg(voff), ratio));
                o2.apply_push(v2_scale(voff, fx_sub(FX_SCALE, ratio)));
            },
            (Option::Some(_), Option::None) => {
                o1.pos = v2_add(o1.pos, off);
                o1.apply_push(v2_neg(voff));
            },
            (Option::None, Option::Some(_)) => {
                o2.pos = v2_sub(o2.pos, off);
                o2.apply_push(voff);
            },
            (Option::None, Option::None) => {
                proof {
                    assert(false);
                }
            },
        }
        self.objects[i] = Option::Some(o1);
        self.objects[j] = Option::Some(o2);
        proof {
            assert(objects_view(self.objects@) =~= spec_handle_collision(objs0, i, j));
        }
    }

    /// Apply gravity to every movable body and integrate its position by
    /// the new velocity (see [`spec_integrate_all`]).
    fn integrate_bodies(&mut self, dt: i64)
        ensures
            final(self)@ == (GameStateModel {
                objects: spec_integrate_all(old(self)@.objects, dt),
                ..old(self)@
            }),
            final(self).controllers == old(self).controllers,
            final(self).view_object == old(self).view_object,
            final(self).objects@.len() == old(self).objects@.len(),
    {
        let ghost objs0 = objects_view(self.objects@);
        let n = self.objects.len();
        let mut idx: usize = 0;
        while idx < n
            invariant
                idx <= n,
                n == self.objects@.len(),
                self.controllers == old(self).controllers,
                self.view_object == old(self).view_object,
                objs0 == objects_view(old(self).objects@),
                objs0.len() == n,
                forall|m: int|
                    0 <= m < idx ==> objects_view(self.objects@)[m] == spec_integrate_all(
                        objs0,
                        dt,
                    )[m],
                forall|m: int| idx <= m < n ==> objects_view(self.objects@)[m] == objs0[m],
            decreases n - idx,
        {
            let step = match &self.objects[idx] {
                Option::Some(o) => match o.ty {
                    ObjectType::Movable { velocity, mass } => Option::Some(
                        (velocity, mass, o.pos, o.size, o.surface_friction, copy_touching(
                            &o.touching,
                        )),
                    ),
                    _ => Option::None,
                },
                Option::None => Option::None,
            };
            match step {
                Option::Some((velocity, mass, pos, size, fr, touching)) => {
                    let v1 = v2_sub(velocity, v2_scale(Vec2 { x: 0, y: GRAVITY }, dt));
                    let newpos = v2_add(pos, v2_scale(v1, dt));
                    self.objects[idx] = Option::Some(
                        Object {
                            ty: ObjectType::Movable { velocity: v1, mass },
                            pos: newpos,
                            size,
                            surface_friction: fr,
                            touching,
                        },
                    );
                },
                Option::None => {},
            }
            idx += 1;
        }
        proof {
            assert(objects_view(self.objects@) =~= spec_integrate_all(objs0, dt));
        }
    }

    /// Re-derive every entity's contact map from scratch against the
    /// others' current, margin-inflated boxes (see [`spec_refresh_all`]).
    /// Only contact maps change; every body's geometry is left alone.
    pub fn check_whats_still_touching(&mut self)
        ensures
            final(self)@ == (GameStateModel {
                objects: spec_refresh_all(old(self)@.objects),
                ..old(self)@
            }),
            final(self).controllers == old(self).controllers,
            final(self).view_object == old(self).view_object,
            final(self).objects@.len() == old(self).objects@.len(),
    {
        let ghost objs0 = objects_view(self.objects@);
        let n = self.objects.len();
        let mut idx: usize = 0;
        while idx < n
            invariant
                idx <= n,
                n == self.objects@.len(),
                self.controllers == old(self).controllers,
                self.view_object == old(self).view_object,
                objs0 == objects_view(old(self).objects@),
                objs0.len() == n,
                forall|m: int|
                    0 <= m < idx ==> objects_view(self.objects@)[m] == spec_refresh_all(objs0)[m],
                forall|m: int| idx <= m < n ==> objects_view(self.objects@)[m] == objs0[m],
            decreases n - idx,
        {
            let step = match &self.objects[idx] {
                Option::Some(o) => Option::Some(
                    (o.ty, o.pos, o.size, o.surface_friction, copy_touching(&o.touching)),
                ),
                Option::None => Option::None,
            };
            match step {
                Option::Some((ty, pos, size, fr, touching)) => {
                    let mut newt: Vec<(usize, Direction)> = Vec::new();
                    let mut j: usize = 0;
                    proof {
                        assert(touching@.skip(0) =~= touching@);
                    }
                    while j < touching.len()
                        invariant
                            j <= touching@.len(),
                            idx < n,
                            n == self.objects@.len(),
                            self.controllers == old(self).controllers,
                            self.view_object == old(self).view_object,
                            objs0.len() == n,
                            forall|m: int|
                                0 <= m < idx ==> objects_view(self.objects@)[m]
                                    == spec_refresh_all(objs0)[m],
                            forall|m: int|
                                idx <= m < n ==> objects_view(self.objects@)[m] == objs0[m],
                            spec_refresh_touching(objs0, pos, size, touching@, idx) == newt@
                                + spec_refresh_touching(
                                objs0,
                                pos,
                                size,
                                touching@.skip(j as int),
                                idx,
                            ),
                        decreases touching@.len() - j,
                    {
                        proof {
                            assert(touching@.skip(j as int)[0] == touching@[j as int]);
                            assert(touching@.skip(j as int).drop_first() =~= touching@.skip(
                                j as int + 1,
                            ));
                        }
                        let k = touching[j].0;
                        let ghost suffix = spec_refresh_touching(
                            objs0,
                            pos,
                            size,
                            touching@.skip(j as int + 1),
                            idx,
                        );
                        if k != idx {
                            proof {
                                let curv = objects_view(self.objects@);
                                if 0 <= (k as int) < n {
                                    if (k as int) < idx {
                                        assert(curv[k as int] == spec_refresh_all(
                                            objs0,
                                        )[k as int]);
                                    } else {
                                        assert(curv[k as int] == objs0[k as int]);
                                    }
                                }
                            }
                            match obj_get(&self.objects, k) {
                                Option::Some(other) => {
                                    let margin = Vec2 { x: CONTACT_MARGIN, y: CONTACT_MARGIN };
                                    let epos = v2_sub(other.get_pos(), margin);
                                    let esize = v2_add(
                                        other.get_size(),
                                        v2_add(margin, margin),
                                    );
                                    match check_collision(&pos, &size, &epos, &esize) {
                                        Option::Some(off) => {
                                            let entry = (
                                                k,
                                                Direction::from_vector(&off).invert(),
                                            );
                                            let ghost before = newt@;
                                            newt.push(entry);
                                            proof {
                                                assert(before + (seq![entry] + suffix) =~= newt@
                                                    + suffix);
                                            }
                                        },
                                        Option::None => {},
                                    }
                                },
                                Option::None => {},
                            }
                        }
                        j += 1;
                    }
                    proof {
                        assert(touching@.skip(touching@.len() as int) =~= Seq::<(
                            usize,
                            Direction,
                        )>::empty());
                    }
                    self.objects[idx] = Option::Some(
                        Object { ty, pos, size, surface_friction: fr, touching: newt },
                    );
                },
                Option::None => {},
            }
            idx += 1;
        }
        proof {
            assert(objects_view(self.objects@) =~= spec_refresh_all(objs0));
        }
    }

    /// Run the response over every unordered pair of distinct handles,
    /// exhaustively and in lexicographic order.
    pub fn collision_detection(&mut self)
        ensures
            final(self)@ == (GameStateModel {
                objects: spec_resolve_pairs(
                    old(self)@.objects,
                    0,
                    old(self)@.objects.len() as int,
                ),
                ..old(self)@
            }),
    {
        let ghost objs0 = objects_view(self.objects@);
        let n = self.objects.len();
        let mut i: usize = 0;
        while i < n
            invariant
                i <= n,
                n == self.objects@.len(),
                self.controllers@ == old(self).controllers@,
                self.view_object == old(self).view_object,
                spec_resolve_pairs(objs0, 0, n as int) == spec_resolve_pairs(
                    objects_view(self.objects@),
                    i as int,
                    n as int,
                ),
            decreases n - i,
        {
            let mut j: usize = i + 1;
            while j < n
                invariant
                    i < j <= n,
                    n == self.objects@.len(),
                    self.controllers@ == old(self).controllers@,
                    self.view_object == old(self).view_object,
                    spec_resolve_pairs(objs0, 0, n as int) == spec_resolve_pairs(
                        spec_resolve_from(
                            objects_view(self.objects@),
                            i,
                            j as int,
                            n as int,
                        ),
                        i as int + 1,
                        n as int,
                    ),
                decreases n - j,
            {
                self.handle_collision(i, j);
                j += 1;
            }
            i += 1;
        }
    }
}

/// The fixed initial scene: one player-controlled movable unit box above a
/// wide static floor, a static wall to the right, and a leftward treadmill,
/// with the camera anchored to the player.
pub open spec fn spec_initial_world() -> GameStateModel {
    GameStateModel {
        controllers: seq![
            ControllerModel::PlayerController(
                crate::control::PlayerControllerModel {
                    pending_events: Seq::empty(),
                    controlled_object: 0,
                    key_states: KeyStates::spec_all_released(),
                    last_touch_velocity: Vec2 { x: 0, y: 0 },
                    top_speed: PLAYER_TOP_SPEED,
                    acceleration_speed: PLAYER_ACCELERATION,
                },
            ),
        ],
        objects: seq![
            Option::Some(
                ObjectModel {
                    ty: ObjectType::Movable { velocity: Vec2 { x: 0, y: 0 }, mass: FX_SCALE },
                    pos: Vec2 { x: -1800i64, y: 1800 },
                    size: Vec2 { x: 3600, y: 3600 },
                    surface_friction: FX_SCALE,
                    touching: Seq::empty(),
                },
            ),
            Option::Some(
                ObjectModel {
                    ty: ObjectType::Static,
                    pos: Vec2 { x: -90000i64, y: -90000i64 },
                    size: Vec2 { x: 180000, y: 27000 },
                    surface_friction: FX_SCALE,
                    touching: Seq::empty(),
                },
            ),
            Option::Some(
                ObjectModel {
                    ty: ObjectType::Static,
                    pos: Vec2 { x: 63000, y: -90000i64 },
                    size: Vec2 { x: 27000, y: 180000 },
                    surface_friction: FX_SCALE,
                    touching: Seq::empty(),
                },
            ),
            Option::Some(
                ObjectModel {
                    ty: ObjectType::Treadmill { fake_velocity: Vec2 { x: -14400i64, y: 0 } },
                    pos: Vec2 { x: -54000i64, y: -70200i64 },
                    size: Vec2 { x: 36000, y: 14400 },
                    surface_friction: 1800,
                    touching: Seq::empty(),
                },
            ),
        ],
        view_object: 0,
    }
}

impl GameState {
    /// Build the fixed initial scene (see [`spec_initial_world`]).
    pub fn new() -> (r: GameState)
        ensures
            r@ == spec_initial_world(),
    {
        let mut controllers: Vec<Controller> = Vec::new();
        controllers.push(
            Controller::PlayerController(
                PlayerController {
                    pending_events: Vec::new(),
                    controlled_object: 0,
                    key_states: KeyStates::all_released(),
                    last_touch_velocity: Vec2 { x: 0, y: 0 },
                    top_speed: PLAYER_TOP_SPEED,
                    acceleration_speed: PLAYER_ACCELERATION,
                },
            ),
        );
        let mut objects: Vec<Option<Object>> = Vec::new();
        objects.push(
            Option::Some(
                Object::new(
                    ObjectType::Movable { velocity: Vec2 { x: 0, y: 0 }, mass: FX_SCALE },
                    Vec2 { x: -1800, y: 1800 },
                    Vec2 { x: 3600, y: 3600 },
                    FX_SCALE,
                ),
            ),
        );
        objects.push(
            Option::Some(
                Object::new(
                    ObjectType::Static,
                    Vec2 { x: -90000, y: -90000 },
                    Vec2 { x: 180000, y: 27000 },
                    FX_SCALE,
                ),
            ),
        );
        objects.push(
            Option::Some(
                Object::new(
                    ObjectType::Static,
                    Vec2 { x: 63000, y: -90000 },
                    Vec2 { x: 27000, y: 180000 },
                    FX_SCALE,
                ),
            ),
        );
        objects.push(
            Option::Some(
                Object::new(
                    ObjectType::Treadmill { fake_velocity: Vec2 { x: -14400, y: 0 } },
                    Vec2 { x: -54000, y: -70200 },
                    Vec2 { x: 36000, y: 14400 },
                    1800,
                ),
            ),
        );
        let r = GameState { controllers, objects, view_object: 0 };
        proof {
            assert(r@.controllers =~= spec_initial_world().controllers);
            assert(r@.objects =~= spec_initial_world().objects);
        }
        r
    }

    /// Advance the world by one fixed tick: run every controller, integrate
    /// gravity and velocity, refresh the contact maps from the pre-tick
    /// candidates, then detect and resolve collisions over all pairs
    /// (see [`spec_world_update`]).
    pub fn update(&mut self, dt: i64)
        ensures
            final(self)@ == spec_world_update(old(self)@, dt),
    {
        let ghost cs0 = self@.controllers;
        let ghost objs0 = self@.objects;
        let ncs = self.controllers.len();
        let mut k: usize = 0;
        while k < ncs
            invariant
                k <= ncs,
                ncs == self.controllers@.len(),
                self.view_object == old(self).view_object,
                cs0 == old(self)@.controllers,
                objs0 == old(self)@.objects,
                spec_run_controllers(cs0, objs0, dt, 0) == spec_run_controllers(
                    self.controllers@.map_values(|c: Controller| c@),
                    objects_view(self.objects@),
                    dt,
                    k as int,
                ),
            decreases ncs - k,
        {
            let ghost cs_before = self.controllers@.map_values(|c: Controller| c@);
            let ghost objs_before = objects_view(self.objects@);
            let c = &mut self.controllers[k];
            c.update(&mut self.objects, dt);
            proof {
                let (c1, objs1) = spec_controller_update(cs_before[k as int], objs_before, dt);
                assert(self.controllers@.map_values(|c: Controller| c@) =~= cs_before.update(
                    k as int,
                    c1,
                ));
            }
            k += 1;
        }
        self.integrate_bodies(dt);
        self.check_whats_still_touching();
        self.collision_detection();
    }

    /// Enqueue one input event onto every player controller's pending queue
    /// (broadcast; see [`spec_submit_event`]).
    pub fn submit_player_event(&mut self, event: Event)
        ensures
            final(self)@ == (GameStateModel {
                controllers: spec_submit_event(old(self)@.controllers, event),
                ..old(self)@
            }),
            final(self).objects == old(self).objects,
            final(self).view_object == old(self).view_object,
    {
        let ghost cs0 = self@.controllers;
        let n = self.controllers.len();
        let mut k: usize = 0;
        while k < n
            invariant
                k <= n,
                n == self.controllers@.len(),
                self.objects == old(self).objects,
                self.view_object == old(self).view_object,
                cs0 == old(self)@.controllers,
                cs0.len() == n,
                forall|m: int|
                    0 <= m < k ==> (#[trigger] self.controllers@[m])@ == spec_submit_event(
                        cs0,
                        event,
                    )[m],
                forall|m: int| k <= m < n ==> (#[trigger] self.controllers@[m])@ == cs0[m],
            decreases n - k,
        {
            let ghost cbefore = self.controllers@;
            let c = &mut self.controllers[k];
            match c {
                Controller::PlayerController(pc) => {
                    pc.push_event(event);
                },
            }
            proof {
                assert(cbefore[k as int]@ == cs0[k as int]);
                assert((self.controllers@[k as int])@ == spec_submit_event(cs0, event)[k as int]);
            }
            k += 1;
        }
        proof {
            assert(self.controllers@.map_values(|c: Controller| c@) =~= spec_submit_event(
                cs0,
                event,
            ));
        }
    }
}

/// Law: the positional correction of a collision between two movable
/// bodies is split by mass ratio — body 1 moves by `offset · m1/(m1+m2)`
/// and body 2 by the remainder, in the opposite direction.
#[verifier::rlimit(50)]
pub proof fn lemma_mass_weighted_push(objs: Seq<Option<ObjectModel>>, i: usize, j: usize)
    requires
        i != j,
        obj_at(objs, i as int) matches Some(o1) && o1.ty matches ObjectType::Movable { .. },
        obj_at(objs, j as int) matches Some(o2) && o2.ty matches ObjectType::Movable { .. },
        spec_check_collision(
            obj_at(objs, i as int)->Some_0.pos,
            obj_at(objs, i as int)->Some_0.size,
            obj_at(objs, j as int)->Some_0.pos,
            obj_at(objs, j as int)->Some_0.size,
        ) is Some,
    ensures
        obj_at(objs, i as int) matches Some(o1) && obj_at(objs, j as int) matches Some(o2)
            && o1.ty matches ObjectType::Movable { mass: m1, .. } && o2.ty
            matches ObjectType::Movable { mass: m2, .. } && spec_check_collision(
            o1.pos,
            o1.size,
            o2.pos,
            o2.size,
        ) matches Some(off) && ({
            let objs1 = spec_handle_collision(objs, i, j);
            let ratio = spec_fx_div(m1, spec_fx_add(m1, m2));
            &&& obj_at(objs1, i as int) matches Some(o1n) && o1n.pos == spec_v2_add(
                o1.pos,
                spec_v2_scale(off, ratio),
            )
            &&& obj_at(objs1, j as int) matches Some(o2n) && o2n.pos == spec_v2_sub(
                o2.pos,
                spec_v2_sub(off, spec_v2_scale(off, ratio)),
            )
        }),
{
}

proof fn lemma_refresh_touching_same_geometry(
    a: Seq<Option<ObjectModel>>,
    b: Seq<Option<ObjectModel>>,
    pos: Vec2,
    size: Vec2,
    t: Seq<(usize, Direction)>,
    self_idx: usize,
)
    requires
        a.len() == b.len(),
        forall|m: int|
            0 <= m < a.len() ==> match (#[trigger] a[m], b[m]) {
                (Option::Some(x), Option::Some(y)) => x.pos == y.pos && x.size == y.size,
                (Option::None, Option::None) => true,
                _ => false,
            },
    ensures
        spec_refresh_touching(a, pos, size, t, self_idx) == spec_refresh_touching(
            b,
            pos,
            size,
            t,
            self_idx,
        ),
    decreases t.len(),
{
    if t.len() > 0 {
        lemma_refresh_touching_same_geometry(a, b, pos, size, t.drop_first(), self_idx);
        let k = t[0].0 as int;
        if 0 <= k < a.len() {
            assert(match (a[k], b[k]) {
                (Option::Some(x), Option::Some(y)) => x.pos == y.pos && x.size == y.size,
                (Option::None, Option::None) => true,
                _ => false,
            });
        }
    }
}

proof fn lemma_refresh_touching_stable(
    objs: Seq<Option<ObjectModel>>,
    pos: Vec2,
    size: Vec2,
    t: Seq<(usize, Direction)>,
    self_idx: usize,
)
    ensures
        spec_refresh_touching(
            objs,
            pos,
            size,
            spec_refresh_touching(objs, pos, size, t, self_idx),
            self_idx,
        ) == spec_refresh_touching(objs, pos, size, t, self_idx),
    decreases t.len(),
{
    if t.len() > 0 {
        let rest = spec_refresh_touching(objs, pos, size, t.drop_first(), self_idx);
        lemma_refresh_touching_stable(objs, pos, size, t.drop_first(), self_idx);
        let k = t[0].0;
        if k != self_idx {
            match obj_at(objs, k as int) {
                Option::Some(other) => {
                    let margin = Vec2 { x: CONTACT_MARGIN, y: CONTACT_MARGIN };
                    let epos = spec_v2_sub(other.pos, margin);
                    let esize = spec_v2_add(other.size, spec_v2_add(margin, margin));
                    match spec_check_collision(pos, size, epos, esize) {
                        Option::Some(off) => {
                            let e = (k, spec_from_vector(off).spec_invert());
                            assert((seq![e] + rest).drop_first() =~= rest);
                            assert((seq![e] + rest)[0] == e);
                        },
                        Option::None => {},
                    }
                },
                Option::None => {},
            }
        }
    }
}

/// Law: the contact refresh is idempotent.  Running it a second time
/// without an intervening geometry change yields exactly the same contact
/// maps, so resting contacts do not flicker between ticks.
pub proof fn lemma_refresh_idempotent(objs: Seq<Option<ObjectModel>>)
    ensures
        spec_refresh_all(spec_refresh_all(objs)) == spec_refresh_all(objs),
{
    let r = spec_refresh_all(objs);
    assert forall|m: int|
        0 <= m < r.len() implies match (#[trigger] r[m], objs[m]) {
        (Option::Some(x), Option::Some(y)) => x.pos == y.pos && x.size == y.size,
        (Option::None, Option::None) => true,
        _ => false,
    } by {
        assert(r[m] == (match objs[m] {
            Option::Some(o) => Option::Some(
                o.with_touching(
                    spec_refresh_touching(objs, o.pos, o.size, o.touching, m as usize),
                ),
            ),
            Option::None => Option::<ObjectModel>::None,
        }));
    }
    assert forall|m: int| 0 <= m < r.len() implies spec_refresh_all(r)[m] == r[m] by {
        match objs[m] {
            Option::Some(o) => {
                let t1 = spec_refresh_touching(objs, o.pos, o.size, o.touching, m as usize);
                lemma_refresh_touching_same_geometry(r, objs, o.pos, o.size, t1, m as usize);
                lemma_refresh_touching_stable(objs, o.pos, o.size, o.touching, m as usize);
            },
            Option::None => {},
        }
    }
    assert(spec_refresh_all(spec_refresh_all(objs)) =~= spec_refresh_all(objs));
}

/// Every entity's contact map holds each handle at most once.
pub open spec fn wf_contact_keys(objs: Seq<Option<ObjectModel>>) -> bool {
    forall|i: int|
        0 <= i < objs.len() ==> match #[trigger] objs[i] {
            Option::Some(o) => touch_keys_unique(o.touching),
            Option::None => true,
        }
}

proof fn lemma_refresh_touching_keys(
    objs: Seq<Option<ObjectModel>>,
    pos: Vec2,
    size: Vec2,
    t: Seq<(usize, Direction)>,
    self_idx: usize,
    x: usize,
)
    ensures
        touch_has_key(spec_refresh_touching(objs, pos, size, t, self_idx), x) ==> touch_has_key(
            t,
            x,
        ),
    decreases t.len(),
{
    if t.len() > 0 {
        lemma_refresh_touching_keys(objs, pos, size, t.drop_first(), self_idx, x);
        let rest = spec_refresh_touching(objs, pos, size, t.drop_first(), self_idx);
        let c = spec_refresh_touching(objs, pos, size, t, self_idx);
        assert(t =~= seq![t[0]] + t.drop_first());
        crate::entity::lemma_touch_has_key_concat(seq![t[0]], t.drop_first(), x);
        if c != rest {
            crate::entity::lemma_touch_has_key_concat(seq![c[0]], rest, x);
            crate::entity::lemma_touch_has_key_singleton(c[0], x);
            crate::entity::lemma_touch_has_key_singleton(t[0], x);
            assert(c =~= seq![c[0]] + rest);
            assert(c[0].0 == t[0].0);
        }
    }
}

proof fn lemma_refresh_touching_unique(
    objs: Seq<Option<ObjectModel>>,
    pos: Vec2,
    size: Vec2,
    t: Seq<(usize, Direction)>,
    self_idx: usize,
)
    requires
        touch_keys_unique(t),
    ensures
        touch_keys_unique(spec_refresh_touching(objs, pos, size, t, self_idx)),
    decreases t.len(),
{
    if t.len() > 0 {
        assert forall|i: int, j: int|
            0 <= i < j < t.drop_first().len() implies (#[trigger] t.drop_first()[i]).0 != (
        #[trigger] t.drop_first()[j]).0 by {
            assert(t.drop_first()[i] == t[i + 1]);
            assert(t.drop_first()[j] == t[j + 1]);
        }
        lemma_refresh_touching_unique(objs, pos, size, t.drop_first(), self_idx);
        let rest = spec_refresh_touching(objs, pos, size, t.drop_first(), self_idx);
        let c = spec_refresh_touching(objs, pos, size, t, self_idx);
        if c != rest {
            assert(c =~= seq![c[0]] + rest);
            assert(c[0].0 == t[0].0);
            assert forall|i: int, j: int| 0 <= i < j < c.len() implies (#[trigger] c[i]).0 != (
            #[trigger] c[j]).0 by {
                if i == 0 {
                    let key = c[j].0;
                    assert(rest[j - 1].0 == key);
                    assert(touch_has_key(rest, key));
                    lemma_refresh_touching_keys(objs, pos, size, t.drop_first(), self_idx, key);
                    if key == c[0].0 {
                        let w = choose|w: int|
                            0 <= w < t.drop_first().len() && (#[trigger] t.drop_first()[w]).0
                                == key;
                        assert(t[w + 1].0 == t[0].0);
                        assert(false);
                    }
                } else {
                    assert(c[i] == rest[i - 1]);
                    assert(c[j] == rest[j - 1]);
                }
            }
        }
    }
}

proof fn lemma_refresh_all_wf(objs: Seq<Option<ObjectModel>>)
    requires
        wf_contact_keys(objs),
    ensures
        wf_contact_keys(spec_refresh_all(objs)),
{
    let r = spec_refresh_all(objs);
    assert forall|i: int|
        0 <= i < r.len() implies match #[trigger] r[i] {
        Option::Some(o) => touch_keys_unique(o.touching),
        Option::None => true,
    } by {
        match objs[i] {
            Option::Some(o) => {
                lemma_refresh_touching_unique(objs, o.pos, o.size, o.touching, i as usize);
            },
            Option::None => {},
        }
    }
}

#[verifier::rlimit(50)]
proof fn lemma_handle_collision_wf(objs: Seq<Option<ObjectModel>>, i: usize, j: usize)
    requires
        wf_contact_keys(objs),
    ensures
        wf_contact_keys(spec_handle_collision(objs, i, j)),
{
    let r = spec_handle_collision(objs, i, j);
    if i != j {
        match (obj_at(objs, i as int), obj_at(objs, j as int)) {
            (Option::Some(o1), Option::Some(o2)) => {
                crate::entity::lemma_touch_insert_unique(
                    o1.touching,
                    j,
                    spec_from_vector(
                        spec_check_collision(o1.pos, o1.size, o2.pos, o2.size)->Some_0,
                    ).spec_invert(),
                );
                crate::entity::lemma_touch_insert_unique(
                    o2.touching,
                    i,
                    spec_from_vector(
                        spec_check_collision(o1.pos, o1.size, o2.pos, o2.size)->Some_0,
                    ),
                );
            },
            _ => {},
        }
    }
    assert forall|k: int|
        0 <= k < r.len() implies match #[trigger] r[k] {
        Option::Some(o) => touch_keys_unique(o.touching),
        Option::None => true,
    } by {
        assert(match objs[k] {
            Option::Some(o) => touch_keys_unique(o.touching),
            Option::None => true,
        });
    }
}

proof fn lemma_resolve_from_wf(objs: Seq<Option<ObjectModel>>, i: usize, j0: int, n: int)
    requires
        wf_contact_keys(objs),
    ensures
        wf_contact_keys(spec_resolve_from(objs, i, j0, n)),
    decreases n - j0,
{
    if j0 < 0 || j0 >= n {
    } else {
        lemma_handle_collision_wf(objs, i, j0 as usize);
        lemma_resolve_from_wf(spec_handle_collision(objs, i, j0 as usize), i, j0 + 1, n);
    }
}

proof fn lemma_resolve_pairs_wf(objs: Seq<Option<ObjectModel>>, i0: int, n: int)
    requires
        wf_contact_keys(objs),
    ensures
        wf_contact_keys(spec_resolve_pairs(objs, i0, n)),
    decreases n - i0,
{
    if i0 < 0 || i0 >= n {
    } else {
        lemma_resolve_from_wf(objs, i0 as usize, i0 + 1, n);
        lemma_resolve_pairs_wf(spec_resolve_from(objs, i0 as usize, i0 + 1, n), i0 + 1, n);
    }
}

proof fn lemma_run_controllers_wf(
    cs: Seq<ControllerModel>,
    objs: Seq<Option<ObjectModel>>,
    dt: i64,
    k0: int,
)
    requires
        wf_contact_keys(objs),
    ensures
        wf_contact_keys(spec_run_controllers(cs, objs, dt, k0).1),
    decreases cs.len() - k0,
{
    if k0 < 0 || k0 >= cs.len() {
    } else {
        let (c1, objs1) = spec_controller_update(cs[k0], objs, dt);
        assert forall|i: int|
            0 <= i < objs1.len() implies match #[trigger] objs1[i] {
            Option::Some(o) => touch_keys_unique(o.touching),
            Option::None => true,
        } by {
            assert(match objs[i] {
                Option::Some(o) => touch_keys_unique(o.touching),
                Option::None => true,
            });
        }
        lemma_run_controllers_wf(cs.update(k0, c1), objs1, dt, k0 + 1);
    }
}

/// Law: the tick keeps contact-map keys unique.  If every entity's contact
/// map holds each handle at most once, the same is true after a whole world
/// tick — the refresh rebuilds maps key by key and the resolver's insert
/// replaces rather than duplicates.
pub proof fn lemma_update_preserves_unique_contacts(gs: GameStateModel, dt: i64)
    requires
        wf_contact_keys(gs.objects),
    ensures
        wf_contact_keys(spec_world_update(gs, dt).objects),
{
    lemma_run_controllers_wf(gs.controllers, gs.objects, dt, 0);
    let objs1 = spec_run_controllers(gs.controllers, gs.objects, dt, 0).1;
    let objs2 = spec_integrate_all(objs1, dt);
    assert forall|i: int|
        0 <= i < objs2.len() implies match #[trigger] objs2[i] {
        Option::Some(o) => touch_keys_unique(o.touching),
        Option::None => true,
    } by {
        assert(match objs1[i] {
            Option::Some(o) => touch_keys_unique(o.touching),
            Option::None => true,
        });
    }
    lemma_refresh_all_wf(objs2);
    let objs3 = spec_refresh_all(objs2);
    lemma_resolve_pairs_wf(objs3, 0, objs3.len() as int);
}

/// The initial scene satisfies the contact-key invariant, so by
/// [`lemma_update_preserves_unique_contacts`] every state the simulation
/// can reach from it does too.
pub proof fn lemma_initial_world_wf()
    ensures
        wf_contact_keys(spec_initial_world().objects),
{
}

/// Equality of everything but the contact map: kind (with velocity and
/// mass), position, size and friction.
pub open spec fn same_body(a: ObjectModel, b: ObjectModel) -> bool {
    &&& a.ty == b.ty
    &&& a.pos == b.pos
    &&& a.size == b.size
    &&& a.surface_friction == b.surface_friction
}

proof fn lemma_run_controllers_fixed_body(
    cs: Seq<ControllerModel>,
    objs: Seq<Option<ObjectModel>>,
    dt: i64,
    k0: int,
    k: int,
)
    requires
        obj_at(objs, k) matches Some(o) && o.pushable() is None,
    ensures
        obj_at(spec_run_controllers(cs, objs, dt, k0).1, k) == obj_at(objs, k),
    decreases cs.len() - k0,
{
    if k0 < 0 || k0 >= cs.len() {
    } else {
        let (c1, objs1) = spec_controller_update(cs[k0], objs, dt);
        assert(obj_at(objs1, k) == obj_at(objs, k));
        lemma_run_controllers_fixed_body(cs.update(k0, c1), objs1, dt, k0 + 1, k);
    }
}

#[verifier::rlimit(50)]
proof fn lemma_handle_collision_fixed_body(
    objs: Seq<Option<ObjectModel>>,
    i: usize,
    j: usize,
    k: int,
)
    requires
        obj_at(objs, k) matches Some(o) && o.pushable() is None,
    ensures
        obj_at(objs, k) matches Some(o) && obj_at(spec_handle_collision(objs, i, j), k)
            matches Some(o2) && same_body(o2, o),
{
}

proof fn lemma_resolve_from_fixed_body(
    objs: Seq<Option<ObjectModel>>,
    i: usize,
    j0: int,
    n: int,
    k: int,
)
    requires
        obj_at(objs, k) matches Some(o) && o.pushable() is None,
    ensures
        obj_at(objs, k) matches Some(o) && obj_at(spec_resolve_from(objs, i, j0, n), k)
            matches Some(o2) && same_body(o2, o),
    decreases n - j0,
{
    if j0 < 0 || j0 >= n {
    } else {
        lemma_handle_collision_fixed_body(objs, i, j0 as usize, k);
        lemma_resolve_from_fixed_body(spec_handle_collision(objs, i, j0 as usize), i, j0 + 1, n, k);
    }
}

proof fn lemma_resolve_pairs_fixed_body(objs: Seq<Option<ObjectModel>>, i0: int, n: int, k: int)
    requires
        obj_at(objs, k) matches Some(o) && o.pushable() is None,
    ensures
        obj_at(objs, k) matches Some(o) && obj_at(spec_resolve_pairs(objs, i0, n), k)
            matches Some(o2) && same_body(o2, o),
    decreases n - i0,
{
    if i0 < 0 || i0 >= n {
    } else {
        lemma_resolve_from_fixed_body(objs, i0 as usize, i0 + 1, n, k);
        lemma_resolve_pairs_fixed_body(spec_resolve_from(objs, i0 as usize, i0 + 1, n), i0 + 1, n, k);
    }
}

/// Law: only movable bodies are ever pushed.  A static body or a treadmill
/// keeps its kind, position, size and friction through a whole tick —
/// gravity does not integrate it and collision response never moves it;
/// only its contact map may change.
pub proof fn lemma_unpushable_never_moves(gs: GameStateModel, dt: i64, k: int)
    requires
        obj_at(gs.objects, k) matches Some(o) && o.pushable() is None,
    ensures
        obj_at(gs.objects, k) matches Some(o) && obj_at(spec_world_update(gs, dt).objects, k)
            matches Some(o2) && same_body(o2, o),
{
    let o = obj_at(gs.objects, k)->Some_0;
    lemma_run_controllers_fixed_body(gs.controllers, gs.objects, dt, 0, k);
    let objs1 = spec_run_controllers(gs.controllers, gs.objects, dt, 0).1;
    let objs2 = spec_integrate_all(objs1, dt);
    assert(obj_at(objs2, k) matches Some(oi) && oi == o);
    let objs3 = spec_refresh_all(objs2);
    assert(obj_at(objs3, k) matches Some(or) && same_body(or, o) && or.pushable() is None);
    lemma_resolve_pairs_fixed_body(objs3, 0, objs3.len() as int, k);
}

/// A two-body scene for the resting-contact law: a movable box sitting
/// exactly on top of a static box, at rest, with the mutual contacts
/// already recorded.
pub open spec fn spec_resting_scene(
    p1: Vec2,
    s1: Vec2,
    m: i64,
    fr1: i64,
    p2: Vec2,
    s2: Vec2,
    fr2: i64,
    vo: usize,
) -> GameStateModel {
    GameStateModel {
        controllers: Seq::empty(),
        objects: seq![
            Option::Some(
                ObjectModel {
                    ty: ObjectType::Movable { velocity: Vec2 { x: 0, y: 0 }, mass: m },
                    pos: p1,
                    size: s1,
                    surface_friction: fr1,
                    touching: seq![(1usize, Direction::Down)],
                },
            ),
            Option::Some(
                ObjectModel {
                    ty: ObjectType::Static,
                    pos: p2,
                    size: s2,
                    surface_friction: fr2,
                    touching: seq![(0usize, Direction::Up)],
                },
            ),
        ],
        view_object: vo,
    }
}

/// Coordinates comfortably inside the representable range, so that no sum
/// the tick computes is ever clipped.
pub open spec fn in_resting_range(v: Vec2) -> bool {
    &&& -0x1000_0000_0000 <= v.x <= 0x1000_0000_0000
    &&& -0x1000_0000_0000 <= v.y <= 0x1000_0000_0000
}

/// The geometric and timing conditions under which a resting scene is a
/// fixed point of the tick: coordinates in range, the boxes flush on y with
/// their x-centres aligned and overlapping on x, and a tick that sinks the
/// box by a positive amount smaller than the boxes allow.
pub open spec fn spec_resting_conditions(p1: Vec2, s1: Vec2, p2: Vec2, s2: Vec2, dt: i64) -> bool {
    let dy = spec_fx_mul(spec_fx_sub(0, spec_fx_mul(GRAVITY, dt)), dt);
    &&& in_resting_range(p1)
    &&& in_resting_range(s1)
    &&& in_resting_range(p2)
    &&& in_resting_range(s2)
    &&& p1.y == p2.y + s2.y
    &&& 2 * p1.x + s1.x == 2 * p2.x + s2.x
    &&& p1.x < p2.x + s2.x
    &&& p1.x + s1.x > p2.x
    &&& spec_fx_mul(GRAVITY, dt) > 0
    &&& -0x1000_0000_0000 <= dy < 0
    &&& s1.y + s2.y > 2 * (-dy)
}

/// The sunken state of the resting scene's bodies after integration.
spec fn resting_objects_sunk(
    p1: Vec2,
    s1: Vec2,
    m: i64,
    fr1: i64,
    p2: Vec2,
    s2: Vec2,
    fr2: i64,
    dt: i64,
) -> Seq<Option<ObjectModel>> {
    let gs = spec_resting_scene(p1, s1, m, fr1, p2, s2, fr2, 0);
    seq![
        Option::Some(spec_integrate(gs.objects[0]->Some_0, dt)),
        Option::Some(gs.objects[1]->Some_0),
    ]
}

proof fn lemma_resting_integrate(
    p1: Vec2,
    s1: Vec2,
    m: i64,
    fr1: i64,
    p2: Vec2,
    s2: Vec2,
    fr2: i64,
    dt: i64,
)
    requires
        spec_resting_conditions(p1, s1, p2, s2, dt),
    ensures
        spec_integrate_all(spec_resting_scene(p1, s1, m, fr1, p2, s2, fr2, 0).objects, dt)
            =~= resting_objects_sunk(p1, s1, m, fr1, p2, s2, fr2, dt),
        ({
            let sunk = resting_objects_sunk(p1, s1, m, fr1, p2, s2, fr2, dt)[0]->Some_0;
            let dy = spec_fx_mul(spec_fx_sub(0, spec_fx_mul(GRAVITY, dt)), dt);
            &&& sunk.pos == Vec2 { x: p1.x, y: (p1.y + dy) as i64 }
            &&& sunk.size == s1
            &&& sunk.surface_friction == fr1
            &&& sunk.touching =~= seq![(1usize, Direction::Down)]
            &&& sunk.ty == ObjectType::Movable {
                velocity: Vec2 { x: 0, y: spec_fx_sub(0, spec_fx_mul(GRAVITY, dt)) },
                mass: m,
            }
        }),
{
}

/// With the x-centres of the two boxes aligned and the boxes overlapping,
/// the tie-break always resolves on y, by the signed y offset.
proof fn lemma_check_collision_centered(q1: Vec2, z1: Vec2, q2: Vec2, z2: Vec2)
    requires
        crate::collide::in_coord_range(q1),
        crate::collide::in_coord_range(z1),
        crate::collide::in_coord_range(q2),
        crate::collide::in_coord_range(z2),
        2 * q1.x + z1.x == 2 * q2.x + z2.x,
        q1.x < q2.x + z2.x,
        q1.x + z1.x > q2.x,
        q1.y < q2.y + z2.y,
        q1.y + z1.y > q2.y,
    ensures
        spec_check_collision(q1, z1, q2, z2) == Option::Some(
            Vec2 {
                x: 0,
                y: crate::fx::fx_of(crate::collide::spec_offset_y(q1, z1, q2, z2)),
            },
        ),
{
}

#[verifier::rlimit(50)]
proof fn lemma_resting_refresh_player(
    p1: Vec2,
    s1: Vec2,
    m: i64,
    fr1: i64,
    p2: Vec2,
    s2: Vec2,
    fr2: i64,
    dt: i64,
)
    requires
        spec_resting_conditions(p1, s1, p2, s2, dt),
    ensures
        ({
            let objs2 = resting_objects_sunk(p1, s1, m, fr1, p2, s2, fr2, dt);
            let dy = spec_fx_mul(spec_fx_sub(0, spec_fx_mul(GRAVITY, dt)), dt);
            let p1i = Vec2 { x: p1.x, y: (p1.y + dy) as i64 };
            spec_refresh_touching(objs2, p1i, s1, seq![(1usize, Direction::Down)], 0) =~= seq![
                (1usize, Direction::Down),
            ]
        }),
{
    lemma_resting_integrate(p1, s1, m, fr1, p2, s2, fr2, dt);
    let objs2 = resting_objects_sunk(p1, s1, m, fr1, p2, s2, fr2, dt);
    let dy = spec_fx_mul(spec_fx_sub(0, spec_fx_mul(GRAVITY, dt)), dt);
    let d = -(dy as int);
    let p1i = Vec2 { x: p1.x, y: (p1.y + dy) as i64 };
    let margin = Vec2 { x: CONTACT_MARGIN, y: CONTACT_MARGIN };
    let t0 = seq![(1usize, Direction::Down)];
    let epos0 = spec_v2_sub(p2, margin);
    let esize0 = spec_v2_add(s2, spec_v2_add(margin, margin));
    assert(epos0 == Vec2 { x: (p2.x - CONTACT_MARGIN) as i64, y: (p2.y - CONTACT_MARGIN) as i64 });
    assert(esize0 == Vec2 {
        x: (s2.x + 2 * CONTACT_MARGIN) as i64,
        y: (s2.y + 2 * CONTACT_MARGIN) as i64,
    });
    lemma_check_collision_centered(p1i, s1, epos0, esize0);
    let off0 = spec_check_collision(p1i, s1, epos0, esize0);
    assert(off0 matches Some(v) && v.x == 0 && v.y == CONTACT_MARGIN + d);
    assert(spec_from_vector(off0->Some_0) == Direction::Up);
    assert(spec_refresh_touching(objs2, p1i, s1, Seq::empty(), 0) =~= Seq::<(
        usize,
        Direction,
    )>::empty());
    assert(t0.drop_first() =~= Seq::<(usize, Direction)>::empty());
    assert(spec_refresh_touching(objs2, p1i, s1, t0, 0) =~= t0);
}

#[verifier::rlimit(50)]
proof fn lemma_resting_refresh_ground(
    p1: Vec2,
    s1: Vec2,
    m: i64,
    fr1: i64,
    p2: Vec2,
    s2: Vec2,
    fr2: i64,
    dt: i64,
)
    requires
        spec_resting_conditions(p1, s1, p2, s2, dt),
    ensures
        ({
            let objs2 = resting_objects_sunk(p1, s1, m, fr1, p2, s2, fr2, dt);
            spec_refresh_touching(objs2, p2, s2, seq![(0usize, Direction::Up)], 1) =~= seq![
                (0usize, Direction::Up),
            ]
        }),
{
    lemma_resting_integrate(p1, s1, m, fr1, p2, s2, fr2, dt);
    let objs2 = resting_objects_sunk(p1, s1, m, fr1, p2, s2, fr2, dt);
    let dy = spec_fx_mul(spec_fx_sub(0, spec_fx_mul(GRAVITY, dt)), dt);
    let d = -(dy as int);
    let p1i = Vec2 { x: p1.x, y: (p1.y + dy) as i64 };
    let margin = Vec2 { x: CONTACT_MARGIN, y: CONTACT_MARGIN };
    let t1 = seq![(0usize, Direction::Up)];
    let epos1 = spec_v2_sub(p1i, margin);
    let esize1 = spec_v2_add(s1, spec_v2_add(margin, margin));
    assert(epos1 == Vec2 {
        x: (p1.x - CONTACT_MARGIN) as i64,
        y: (p1.y + dy - CONTACT_MARGIN) as i64,
    });
    assert(esize1 == Vec2 {
        x: (s1.x + 2 * CONTACT_MARGIN) as i64,
        y: (s1.y + 2 * CONTACT_MARGIN) as i64,
    });
    lemma_check_collision_centered(p2, s2, epos1, esize1);
    let off1 = spec_check_collision(p2, s2, epos1, esize1);
    assert(off1 matches Some(v) && v.x == 0 && v.y == -(CONTACT_MARGIN + d));
    assert(spec_from_vector(off1->Some_0) == Direction::Down);
    assert(spec_refresh_touching(objs2, p2, s2, Seq::empty(), 1) =~= Seq::<(
        usize,
        Direction,
    )>::empty());
    assert(t1.drop_first() =~= Seq::<(usize, Direction)>::empty());
    assert(spec_refresh_touching(objs2, p2, s2, t1, 1) =~= t1);
}

proof fn lemma_resting_refresh(
    p1: Vec2,
    s1: Vec2,
    m: i64,
    fr1: i64,
    p2: Vec2,
    s2: Vec2,
    fr2: i64,
    dt: i64,
)
    requires
        spec_resting_conditions(p1, s1, p2, s2, dt),
    ensures
        spec_refresh_all(resting_objects_sunk(p1, s1, m, fr1, p2, s2, fr2, dt))
            =~~= resting_objects_sunk(p1, s1, m, fr1, p2, s2, fr2, dt),
{
    lemma_resting_integrate(p1, s1, m, fr1, p2, s2, fr2, dt);
    lemma_resting_refresh_player(p1, s1, m, fr1, p2, s2, fr2, dt);
    lemma_resting_refresh_ground(p1, s1, m, fr1, p2, s2, fr2, dt);
    let objs2 = resting_objects_sunk(p1, s1, m, fr1, p2, s2, fr2, dt);
    assert(spec_refresh_all(objs2) =~~= objs2);
}

#[verifier::rlimit(50)]
proof fn lemma_resting_resolve(
    p1: Vec2,
    s1: Vec2,
    m: i64,
    fr1: i64,
    p2: Vec2,
    s2: Vec2,
    fr2: i64,
    dt: i64,
)
    requires
        spec_resting_conditions(p1, s1, p2, s2, dt),
    ensures
        spec_handle_collision(resting_objects_sunk(p1, s1, m, fr1, p2, s2, fr2, dt), 0, 1)
            =~~= spec_resting_scene(p1, s1, m, fr1, p2, s2, fr2, 0).objects,
{
    lemma_resting_integrate(p1, s1, m, fr1, p2, s2, fr2, dt);
    let objs2 = resting_objects_sunk(p1, s1, m, fr1, p2, s2, fr2, dt);
    let g = spec_fx_mul(GRAVITY, dt);
    let dy = spec_fx_mul(spec_fx_sub(0, g), dt);
    let d = -(dy as int);
    let p1i = Vec2 { x: p1.x, y: (p1.y + dy) as i64 };
    let t0 = seq![(1usize, Direction::Down)];
    let t1 = seq![(0usize, Direction::Up)];

    lemma_check_collision_centered(p1i, s1, p2, s2);
    let offr = spec_check_collision(p1i, s1, p2, s2);
    assert(offr matches Some(v) && v.x == 0 && v.y == d);
    assert(spec_from_vector(offr->Some_0) == Direction::Up);
    assert(spec_touch_insert(t0, 1, Direction::Down) =~= t0);
    assert(spec_touch_insert(t1, 0, Direction::Up) =~= t1);
    assert(spec_handle_collision(objs2, 0, 1) =~~= spec_resting_scene(
        p1,
        s1,
        m,
        fr1,
        p2,
        s2,
        fr2,
        0,
    ).objects);
}

/// Law: resting contact is stable.  A movable box at rest exactly atop a
/// static box, with x-centres aligned and the mutual Down/Up contacts
/// recorded, is an exact fixed point of the world tick: gravity sinks it,
/// the refresh keeps both contacts, and the resolver restores the position
/// and zeroes the velocity.  Over any number of consecutive ticks the box
/// neither drifts nor loses its Down contact.
pub proof fn lemma_resting_contact_fixed_point(
    p1: Vec2,
    s1: Vec2,
    m: i64,
    fr1: i64,
    p2: Vec2,
    s2: Vec2,
    fr2: i64,
    vo: usize,
    dt: i64,
)
    requires
        spec_resting_conditions(p1, s1, p2, s2, dt),
    ensures
        spec_world_update(spec_resting_scene(p1, s1, m, fr1, p2, s2, fr2, vo), dt)
            == spec_resting_scene(p1, s1, m, fr1, p2, s2, fr2, vo),
{
    let gs = spec_resting_scene(p1, s1, m, fr1, p2, s2, fr2, vo);
    assert(gs.objects =~~= spec_resting_scene(p1, s1, m, fr1, p2, s2, fr2, 0).objects);
    assert(spec_run_controllers(gs.controllers, gs.objects, dt, 0) == (gs.controllers, gs.objects));
    lemma_resting_integrate(p1, s1, m, fr1, p2, s2, fr2, dt);
    let objs2 = resting_objects_sunk(p1, s1, m, fr1, p2, s2, fr2, dt);
    assert(spec_integrate_all(gs.objects, dt) =~= objs2);
    lemma_resting_refresh(p1, s1, m, fr1, p2, s2, fr2, dt);
    let objs3 = spec_refresh_all(spec_integrate_all(gs.objects, dt));
    assert(objs3 == spec_refresh_all(objs2));
    lemma_resting_resolve(p1, s1, m, fr1, p2, s2, fr2, dt);
    let a1 = spec_handle_collision(objs3, 0, 1);
    assert(a1 =~~= gs.objects);
    assert(spec_resolve_from(a1, 0, 2, 2) == a1);
    assert(spec_resolve_from(objs3, 0, 1, 2) == a1);
    assert(spec_resolve_from(a1, 1, 2, 2) == a1);
    assert(spec_resolve_pairs(a1, 2, 2) == a1);
    assert(spec_resolve_pairs(a1, 1, 2) == a1);
    assert(spec_resolve_pairs(objs3, 0, 2) == a1);
    assert(spec_world_update(gs, dt).objects =~~= gs.objects);
    assert(spec_world_update(gs, dt) == gs);
}

/// Append an event to every player controller's pending queue.
pub open spec fn spec_submit_event(cs: Seq<ControllerModel>, ev: Event) -> Seq<ControllerModel> {
    cs.map_values(
        |c: ControllerModel|
            match c {
                ControllerModel::PlayerController(pc) => ControllerModel::PlayerController(
                    crate::control::PlayerControllerModel {
                        pending_events: pc.pending_events.push(ev),
                        ..pc
                    },
                ),
            },
    )
}

} // verus!
