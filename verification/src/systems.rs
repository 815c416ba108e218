//! The executable systems. Each logic system joins the storages it declared,
//! rewrites component values in place, and is proved to effect exactly the
//! model transformation of its kind. The render system computes the backend
//! calls of one frame instead of touching the backend itself.

use vstd::prelude::*;

use crate::components::{DrawCall, PlayerInput, Pos, Vec2, Vel};
use crate::model::{
    dir_from_input, draw_calls_upto, step_pos_draw_sync, step_pos_integrate, step_vel_control,
    sys_pre, SystemKind,
};
use crate::storage::join_ids;
use crate::world::World;

verus! {

/// Whether a position below `k` of `ids` holds entity `e`: the entities a
/// join traversal has already visited.
pub open spec fn seen(ids: Seq<usize>, k: int, e: int) -> bool {
    exists|j: int| 0 <= j < k && ids[j] as int == e
}

/// Executable mirror of `dir_from_input`: reset the direction, then apply
/// the four flags in order — left, right, up, down — so the later check of
/// an axis wins.
pub fn compute_direction(input: &PlayerInput) -> (r: Vec2)
    ensures
        r == dir_from_input(*input),
{
    let mut x: i64 = 0;
    let mut y: i64 = 0;
    if input.left {
        x = -1;
    }
    if input.right {
        x = 1;
    }
    if input.up {
        y = -1;
    }
    if input.down {
        y = 1;
    }
    Vec2 { x, y }
}

/// Velocity-control system: writes Velocity, reads Controlled and the shared
/// input resource.
pub struct SystemVelControlled;

impl SystemVelControlled {
    pub fn run(&self, w: &mut World)
        requires
            sys_pre(old(w)@, SystemKind::VelControl),
        ensures
            final(w)@ == step_vel_control(old(w)@),
    {
        let input = *w.res.read();
        let dir = compute_direction(&input);
        let ids = join_ids(&w.vel, &w.controlled);
        let mut k: usize = 0;
        while k < ids.len()
            invariant
                k <= ids@.len(),
                forall|i: int, j: int| 0 <= i < j < ids@.len() ==> ids@[i] < ids@[j],
                forall|i: int|
                    0 <= i < ids@.len() ==> old(w)@.vel.contains_key(#[trigger] ids@[i] as int)
                        && old(w)@.controlled.contains_key(ids@[i] as int),
                forall|e: int|
                    old(w)@.vel.contains_key(e) && old(w)@.controlled.contains_key(e)
                        ==> exists|i: int| 0 <= i < ids@.len() && #[trigger] ids@[i] as int == e,
                dir == dir_from_input(old(w)@.input->0),
                w@.pos == old(w)@.pos,
                w@.drawable == old(w)@.drawable,
                w@.controlled == old(w)@.controlled,
                w@.input == old(w)@.input,
                w@.next == old(w)@.next,
                forall|e: int| w@.vel.contains_key(e) == old(w)@.vel.contains_key(e),
                forall|e: int|
                    old(w)@.vel.contains_key(e) ==> w@.vel[e] == (if seen(ids@, k as int, e) {
                        Vel {
                            value: dir_from_input(old(w)@.input->0),
                            speed: old(w)@.vel[e].speed,
                        }
                    } else {
                        old(w)@.vel[e]
                    }),
            decreases ids@.len() - k,
        {
            let e = ids[k];
            proof {
                assert(old(w)@.vel.contains_key(ids@[k as int] as int));
                assert(!seen(ids@, k as int, e as int)) by {
                    assert forall|j: int| 0 <= j < k implies ids@[j] as int != e as int by {
                        assert(ids@[j] < ids@[k as int]);
                    }
                }
            }
            let cur = *w.vel.get(e).unwrap();
            w.vel.set(e, Vel { value: dir, speed: cur.speed });
            proof {
                assert forall|e2: int| old(w)@.vel.contains_key(e2) implies w@.vel[e2] == (if seen(
                    ids@,
                    k + 1,
                    e2,
                ) {
                    Vel { value: dir_from_input(old(w)@.input->0), speed: old(w)@.vel[e2].speed }
                } else {
                    old(w)@.vel[e2]
                }) by {
                    if e2 == e as int {
                        assert(seen(ids@, k + 1, e2));
                    } else {
                        assert(seen(ids@, k + 1, e2) == seen(ids@, k as int, e2));
                    }
                }
            }
            k += 1;
        }
        proof {
            assert forall|e: int|
                old(w)@.vel.contains_key(e) && old(w)@.controlled.contains_key(e) implies seen(
                ids@,
                ids@.len() as int,
                e,
            ) by {
                let i = choose|i: int| 0 <= i < ids@.len() && #[trigger] ids@[i] as int == e;
                assert(0 <= i < ids@.len() && ids@[i] as int == e);
            }
            assert(w@.vel =~= step_vel_control(old(w)@).vel);
            assert(w@ =~= step_vel_control(old(w)@));
        }
    }
}

/// Position-integration system: writes Position, reads Velocity.
pub struct SystemPosVel;

impl SystemPosVel {
    pub fn run(&self, w: &mut World)
        requires
            sys_pre(old(w)@, SystemKind::PosIntegrate),
        ensures
            final(w)@ == step_pos_integrate(old(w)@),
    {
        let ids = join_ids(&w.pos, &w.vel);
        let mut k: usize = 0;
        while k < ids.len()
            invariant
                k <= ids@.len(),
                sys_pre(old(w)@, SystemKind::PosIntegrate),
                forall|i: int, j: int| 0 <= i < j < ids@.len() ==> ids@[i] < ids@[j],
                forall|i: int|
                    0 <= i < ids@.len() ==> old(w)@.pos.contains_key(#[trigger] ids@[i] as int)
                        && old(w)@.vel.contains_key(ids@[i] as int),
                forall|e: int|
                    old(w)@.pos.contains_key(e) && old(w)@.vel.contains_key(e) ==> exists|i: int|
                        0 <= i < ids@.len() && #[trigger] ids@[i] as int == e,
                w@.vel == old(w)@.vel,
                w@.drawable == old(w)@.drawable,
                w@.controlled == old(w)@.controlled,
                w@.input == old(w)@.input,
                w@.next == old(w)@.next,
                forall|e: int| w@.pos.contains_key(e) == old(w)@.pos.contains_key(e),
                forall|e: int|
                    old(w)@.pos.contains_key(e) ==> w@.pos[e] == (if seen(ids@, k as int, e) {
                        crate::model::integrate(old(w)@.pos[e], old(w)@.vel[e])
                    } else {
                        old(w)@.pos[e]
                    }),
            decreases ids@.len() - k,
        {
            let e = ids[k];
            proof {
                assert(old(w)@.pos.contains_key(ids@[k as int] as int));
                assert(!seen(ids@, k as int, e as int)) by {
                    assert forall|j: int| 0 <= j < k implies ids@[j] as int != e as int by {
                        assert(ids@[j] < ids@[k as int]);
                    }
                }
                assert(crate::model::step_fits(old(w)@.pos[e as int], old(w)@.vel[e as int]));
            }
            let p = *w.pos.get(e).unwrap();
            let v = *w.vel.get(e).unwrap();
            let nx = p.value.x + v.value.x * v.speed;
            let ny = p.value.y + v.value.y * v.speed;
            w.pos.set(e, Pos { value: Vec2 { x: nx, y: ny } });
            proof {
                assert forall|e2: int| old(w)@.pos.contains_key(e2) implies w@.pos[e2] == (if seen(
                    ids@,
                    k + 1,
                    e2,
                ) {
                    crate::model::integrate(old(w)@.pos[e2], old(w)@.vel[e2])
                } else {
                    old(w)@.pos[e2]
                }) by {
                    if e2 == e as int {
                        assert(seen(ids@, k + 1, e2));
                    } else {
                        assert(seen(ids@, k + 1, e2) == seen(ids@, k as int, e2));
                    }
                }
            }
            k += 1;
        }
        proof {
            assert forall|e: int|
                old(w)@.pos.contains_key(e) && old(w)@.vel.contains_key(e) implies seen(
                ids@,
                ids@.len() as int,
                e,
            ) by {
                let i = choose|i: int| 0 <= i < ids@.len() && #[trigger] ids@[i] as int == e;
                assert(0 <= i < ids@.len() && ids@[i] as int == e);
            }
            assert(w@.pos =~= step_pos_integrate(old(w)@).pos);
            assert(w@ =~= step_pos_integrate(old(w)@));
        }
    }
}

/// Position-to-drawable sync system: reads Position, writes Drawable.
pub struct SystemPosDrawable;

impl SystemPosDrawable {
    pub fn run(&self, w: &mut World)
        ensures
            final(w)@ == step_pos_draw_sync(old(w)@),
    {
        let ids = join_ids(&w.pos, &w.drawable);
        let mut k: usize = 0;
        while k < ids.len()
            invariant
                k <= ids@.len(),
                forall|i: int, j: int| 0 <= i < j < ids@.len() ==> ids@[i] < ids@[j],
                forall|i: int|
                    0 <= i < ids@.len() ==> old(w)@.pos.contains_key(#[trigger] ids@[i] as int)
                        && old(w)@.drawable.contains_key(ids@[i] as int),
                forall|e: int|
                    old(w)@.pos.contains_key(e) && old(w)@.drawable.contains_key(e)
                        ==> exists|i: int| 0 <= i < ids@.len() && #[trigger] ids@[i] as int == e,
                w@.pos == old(w)@.pos,
                w@.vel == old(w)@.vel,
                w@.controlled == old(w)@.controlled,
                w@.input == old(w)@.input,
                w@.next == old(w)@.next,
                forall|e: int| w@.drawable.contains_key(e) == old(w)@.drawable.contains_key(e),
                forall|e: int|
                    old(w)@.drawable.contains_key(e) ==> w@.drawable[e] == (if seen(
                        ids@,
                        k as int,
                        e,
                    ) {
                        crate::model::sync_drawable(old(w)@.drawable[e], old(w)@.pos[e])
                    } else {
                        old(w)@.drawable[e]
                    }),
            decreases ids@.len() - k,
        {
            let e = ids[k];
            proof {
                assert(old(w)@.pos.contains_key(ids@[k as int] as int));
                assert(!seen(ids@, k as int, e as int)) by {
                    assert forall|j: int| 0 <= j < k implies ids@[j] as int != e as int by {
                        assert(ids@[j] < ids@[k as int]);
                    }
                }
            }
            let p = *w.pos.get(e).unwrap();
            let mut d = *w.drawable.get(e).unwrap();
            d.set_pos(p.value.x, p.value.y);
            w.drawable.set(e, d);
            proof {
                assert forall|e2: int| old(w)@.drawable.contains_key(e2) implies w@.drawable[e2]
                    == (if seen(ids@, k + 1, e2) {
                    crate::model::sync_drawable(old(w)@.drawable[e2], old(w)@.pos[e2])
                } else {
                    old(w)@.drawable[e2]
                }) by {
                    if e2 == e as int {
                        assert(seen(ids@, k + 1, e2));
                    } else {
                        assert(seen(ids@, k + 1, e2) == seen(ids@, k as int, e2));
                    }
                }
            }
            k += 1;
        }
        proof {
            assert forall|e: int|
                old(w)@.pos.contains_key(e) && old(w)@.drawable.contains_key(e) implies seen(
                ids@,
                ids@.len() as int,
                e,
            ) by {
                let i = choose|i: int| 0 <= i < ids@.len() && #[trigger] ids@[i] as int == e;
                assert(0 <= i < ids@.len() && ids@[i] as int == e);
            }
            assert(w@.drawable =~= step_pos_draw_sync(old(w)@).drawable);
            assert(w@ =~= step_pos_draw_sync(old(w)@));
        }
    }
}

/// Drawable-render system: reads Drawable only, mutates nothing. Its side
/// effect on the rendering backend is not performed here; it returns, per
/// entity holding a Drawable in ascending entity order, exactly one
/// fill-color/fill-rectangle call pair. Clearing and presenting the frame
/// buffer belong to the surrounding draw pass, not to this system.
pub struct SystemDrawable;

impl SystemDrawable {
    pub fn new() -> Self {
        SystemDrawable
    }

    pub fn run(&self, w: &World) -> (calls: Vec<DrawCall>)
        ensures
            calls@ == draw_calls_upto(w@, w@.next as nat),
    {
        let mut calls: Vec<DrawCall> = Vec::new();
        let n = w.next_entity;
        let mut e: usize = 0;
        while e < n
            invariant
                e <= n,
                n == w.next_entity,
                calls@ == draw_calls_upto(w@, e as nat),
            decreases n - e,
        {
            match w.drawable.get(e) {
                Some(d) => {
                    let (c1, c2) = d.draw();
                    calls.push(c1);
                    calls.push(c2);
                },
                None => {},
            }
            proof {
                assert(calls@ =~= draw_calls_upto(w@, (e + 1) as nat));
            }
            e += 1;
        }
        calls
    }
}

} // verus!
