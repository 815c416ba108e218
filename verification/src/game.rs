//! The frame loop's state: a world plus the dispatcher carrying the
//! required logic chain, the update and render passes, and the boundary
//! contract that folds joystick axis events into the input resource.

use vstd::prelude::*;
use vstd::pervasive::unreached;

use crate::components::{DrawCall, PlayerInput, Vel};
use crate::dispatcher::{ConfigError, Dispatcher, DispatcherBuilder};
use crate::laws::lemma_logic_chain_pre;
use crate::model::{
    dir_from_input, frame_calls, logic_chain, run_schedule, schedule_pre, step_fits,
    step_vel_control, sys_pre, SystemKind, WorldModel,
};
use crate::storage::join_ids;
use crate::systems::{compute_direction, SystemDrawable};
use crate::world::World;

verus! {

/// The joystick axes the control scheme reads; every other axis is ignored.
#[derive(Clone, Copy, PartialEq, Eq, Structural, Debug)]
pub enum Axis {
    LeftX,
    LeftY,
    Other,
}

/// Magnitude from which an axis event counts as directional intent, on a
/// signed 16-bit axis scale.
pub const THRESHOLD_JOYSTICK: i16 = 1000;

/// The input flags after one axis event: a magnitude at or beyond the
/// threshold sets the flag of its sign and clears the opposite flag; one at
/// or beyond the negated threshold does the reverse; one strictly between
/// clears both flags of that axis. The other axis is untouched, and any
/// other axis leaves the flags as they were.
pub open spec fn apply_axis_event(i: PlayerInput, axis: Axis, value: i16) -> PlayerInput {
    match axis {
        Axis::LeftX => {
            if value >= THRESHOLD_JOYSTICK {
                PlayerInput { left: false, right: true, ..i }
            } else if value <= -THRESHOLD_JOYSTICK {
                PlayerInput { left: true, right: false, ..i }
            } else {
                PlayerInput { left: false, right: false, ..i }
            }
        },
        Axis::LeftY => {
            if value >= THRESHOLD_JOYSTICK {
                PlayerInput { up: false, down: true, ..i }
            } else if value <= -THRESHOLD_JOYSTICK {
                PlayerInput { up: true, down: false, ..i }
            } else {
                PlayerInput { up: false, down: false, ..i }
            }
        },
        Axis::Other => i,
    }
}

/// The frame loop's state: the world and the dispatcher of the logic chain.
pub struct MainState {
    pub world: World,
    pub dispatcher: Dispatcher,
}

impl MainState {
    /// Build the game state over `world`: register the three logic systems
    /// under their names, each depending on exactly its immediate
    /// predecessor, and build the dispatcher. The chain is acyclic and every
    /// dependency resolves, so building always succeeds, with the systems
    /// scheduled in chain order.
    pub fn new(world: World) -> (r: Result<MainState, ConfigError>)
        ensures
            r is Ok,
            r->Ok_0.world == world,
            r->Ok_0.dispatcher.wf(),
            r->Ok_0.dispatcher.schedule() == logic_chain(),
    {
        let mut deps_pos_vel: Vec<String> = Vec::new();
        deps_pos_vel.push("sys_vel_controlled".to_owned());
        let mut deps_pos_draw: Vec<String> = Vec::new();
        deps_pos_draw.push("sys_pos_vel".to_owned());
        let builder = DispatcherBuilder::new()
            .add(SystemKind::VelControl, "sys_vel_controlled".to_owned(), Vec::new())
            .add(SystemKind::PosIntegrate, "sys_pos_vel".to_owned(), deps_pos_vel)
            .add(SystemKind::PosDrawSync, "sys_pos_draw".to_owned(), deps_pos_draw);
        let ghost rs = builder.entries@;
        proof {
            reveal_strlit("sys_vel_controlled");
            reveal_strlit("sys_pos_vel");
            reveal_strlit("sys_pos_draw");
            assert(rs.len() == 3);
            assert(rs[0].deps@.len() == 0);
            assert(rs[1].deps@.len() == 1 && rs[1].deps@[0]@ == "sys_vel_controlled"@);
            assert(rs[2].deps@.len() == 1 && rs[2].deps@[0]@ == "sys_pos_vel"@);
            assert(rs[0].name@ == "sys_vel_controlled"@);
            assert(rs[1].name@ == "sys_pos_vel"@);
            assert(rs[2].name@ == "sys_pos_draw"@);
            assert("sys_vel_controlled"@.len() == 18);
            assert("sys_pos_vel"@.len() == 11);
            assert("sys_pos_draw"@.len() == 12);
            assert(crate::dispatcher::resolves(rs)) by {
                assert forall|i: int, d: int|
                    0 <= i < rs.len() && 0 <= d < rs[i].deps@.len() implies exists|j: int|
                    0 <= j < rs.len() && rs[j].name@ == #[trigger] rs[i].deps@[d]@ by {
                    if i == 1 {
                        assert(rs[0].name@ == rs[1].deps@[0]@);
                    } else {
                        assert(i == 2);
                        assert(rs[1].name@ == rs[2].deps@[0]@);
                    }
                }
            }
            assert(crate::dispatcher::depends_on(rs, 1, 0)) by {
                assert(rs[1].deps@[0]@ == rs[0].name@);
            }
            assert(crate::dispatcher::depends_on(rs, 2, 1)) by {
                assert(rs[2].deps@[0]@ == rs[1].name@);
            }
            assert(!crate::dispatcher::depends_on(rs, 1, 1));
            assert(!crate::dispatcher::depends_on(rs, 1, 2));
            assert(!crate::dispatcher::depends_on(rs, 2, 2));
            assert(!crate::dispatcher::depends_on(rs, 2, 0));
            let chain_order = seq![0int, 1int, 2int];
            assert(crate::dispatcher::valid_order(rs, chain_order)) by {
                assert(chain_order[0] == 0 && chain_order[1] == 1 && chain_order[2] == 2);
                assert forall|i: int| 0 <= i < rs.len() implies chain_order.contains(i) by {
                    assert(chain_order[i] == i);
                }
                assert forall|a: int, b: int|
                    0 <= a < chain_order.len() && 0 <= b < chain_order.len()
                        && #[trigger] crate::dispatcher::depends_on(
                        rs,
                        chain_order[b],
                        chain_order[a],
                    ) implies a < b by {}
            }
            assert(crate::dispatcher::schedulable(rs));
        }
        let dispatcher = match builder.build() {
            Ok(d) => d,
            Err(_) => unreached(),
        };
        proof {
            let order_int = dispatcher.order@.map_values(|u: usize| u as int);
            assert(crate::dispatcher::valid_order(rs, order_int));
            assert(order_int.contains(0) && order_int.contains(1) && order_int.contains(2));
            let a0 = choose|a: int| 0 <= a < order_int.len() && order_int[a] == 0;
            let a1 = choose|a: int| 0 <= a < order_int.len() && order_int[a] == 1;
            let a2 = choose|a: int| 0 <= a < order_int.len() && order_int[a] == 2;
            assert(crate::dispatcher::depends_on(rs, order_int[a1], order_int[a0]));
            assert(a0 < a1);
            assert(crate::dispatcher::depends_on(rs, order_int[a2], order_int[a1]));
            assert(a1 < a2);
            assert(a0 == 0 && a1 == 1 && a2 == 2);
            assert(dispatcher.schedule() =~= logic_chain());
        }
        Ok(MainState { world, dispatcher })
    }

    /// One update pass: every registered system runs exactly once, in the
    /// dispatcher's order.
    pub fn update(&mut self)
        requires
            old(self).dispatcher.wf(),
            schedule_pre(old(self).world@, old(self).dispatcher.schedule()),
        ensures
            final(self).dispatcher == old(self).dispatcher,
            final(self).world@ == run_schedule(old(self).world@, old(self).dispatcher.schedule()),
    {
        self.dispatcher.dispatch(&mut self.world);
    }

    /// One guarded update pass for callers outside the proof: test at run
    /// time that the input resource is present and that no integration step
    /// can overflow, and dispatch the chain exactly then. Returns whether
    /// the tick ran; when it did not, the world is unchanged.
    pub fn try_update(&mut self) -> (ok: bool)
        requires
            old(self).dispatcher.wf(),
            old(self).dispatcher.schedule() == logic_chain(),
        ensures
            ok == (old(self).world@.input is Some && schedule_pre(
                old(self).world@,
                logic_chain(),
            )),
            ok ==> final(self).world@ == run_schedule(old(self).world@, logic_chain()),
            !ok ==> final(self).world == old(self).world,
            final(self).dispatcher == old(self).dispatcher,
    {
        if !self.world.res.has() {
            return false;
        }
        let input = *self.world.res.read();
        let dir = compute_direction(&input);
        let ids = join_ids(&self.world.pos, &self.world.vel);
        let ghost m1 = step_vel_control(self.world@);
        let mut k: usize = 0;
        while k < ids.len()
            invariant
                *self == *old(self),
                self.world@.input is Some,
                dir == dir_from_input(self.world@.input->0),
                m1 == step_vel_control(self.world@),
                k <= ids@.len(),
                forall|i: int|
                    0 <= i < ids@.len() ==> self.world@.pos.contains_key(
                        #[trigger] ids@[i] as int,
                    ) && self.world@.vel.contains_key(ids@[i] as int),
                forall|e: int|
                    self.world@.pos.contains_key(e) && self.world@.vel.contains_key(e)
                        ==> exists|i: int| 0 <= i < ids@.len() && #[trigger] ids@[i] as int == e,
                forall|j: int|
                    0 <= j < k as int ==> step_fits(
                        m1.pos[#[trigger] ids@[j] as int],
                        m1.vel[ids@[j] as int],
                    ),
            decreases ids@.len() - k,
        {
            let e = ids[k];
            proof {
                assert(self.world@.pos.contains_key(ids@[k as int] as int));
            }
            let p = *self.world.pos.get(e).unwrap();
            let v = *self.world.vel.get(e).unwrap();
            let veff: Vel = if self.world.controlled.get(e).is_some() {
                Vel { value: dir, speed: v.speed }
            } else {
                v
            };
            proof {
                assert(m1.pos[e as int] == p);
                assert(m1.vel[e as int] == veff);
            }
            let ok_x = match veff.value.x.checked_mul(veff.speed) {
                Some(dx) => p.value.x.checked_add(dx).is_some(),
                None => false,
            };
            let ok_y = match veff.value.y.checked_mul(veff.speed) {
                Some(dy) => p.value.y.checked_add(dy).is_some(),
                None => false,
            };
            if !(ok_x && ok_y) {
                proof {
                    assert(!step_fits(m1.pos[e as int], m1.vel[e as int]));
                    assert(!sys_pre(m1, SystemKind::PosIntegrate)) by {
                        assert(m1.pos.contains_key(e as int) && m1.vel.contains_key(e as int)
                            && !step_fits(m1.pos[e as int], m1.vel[e as int]));
                    }
                    let s = logic_chain();
                    assert(s.take(1) =~= seq![SystemKind::VelControl]);
                    assert(s.take(1).drop_last() =~= Seq::<SystemKind>::empty());
                    assert(run_schedule(self.world@, s.take(1).drop_last()) == self.world@);
                    assert(s.take(1).len() == 1 && s.take(1).last() == SystemKind::VelControl);
                    assert(run_schedule(self.world@, s.take(1)) == m1);
                    assert(s[1] == SystemKind::PosIntegrate);
                    assert(!schedule_pre(self.world@, s));
                }
                return false;
            }
            k += 1;
        }
        proof {
            assert forall|e: int| #![auto]
                m1.pos.contains_key(e) && m1.vel.contains_key(e) implies step_fits(
                m1.pos[e],
                m1.vel[e],
            ) by {
                let i = choose|i: int| 0 <= i < ids@.len() && #[trigger] ids@[i] as int == e;
                assert(step_fits(m1.pos[ids@[i] as int], m1.vel[ids@[i] as int]));
            }
            lemma_logic_chain_pre(self.world@);
        }
        self.dispatcher.dispatch(&mut self.world);
        true
    }

    /// One render pass: clear, then the render system's per-drawable calls,
    /// then present — the exact call sequence of the frame, for the
    /// surrounding program to issue against the rendering backend.
    pub fn draw(&self) -> (calls: Vec<DrawCall>)
        ensures
            calls@ == frame_calls(self.world@),
    {
        let mut calls: Vec<DrawCall> = Vec::new();
        calls.push(DrawCall::Clear);
        let drawing_system = SystemDrawable::new();
        let mut body = drawing_system.run(&self.world);
        calls.append(&mut body);
        calls.push(DrawCall::Present);
        proof {
            assert(calls@ =~= frame_calls(self.world@));
        }
        calls
    }

    /// Fold one joystick axis event into the shared input resource; nothing
    /// else of the world changes. Requesting the resource before it was
    /// inserted is a programming error, excluded by the precondition.
    pub fn controller_axis_event(&mut self, axis: Axis, value: i16)
        requires
            old(self).world@.input is Some,
        ensures
            final(self).dispatcher == old(self).dispatcher,
            final(self).world@ == (WorldModel {
                input: Some(apply_axis_event(old(self).world@.input->0, axis, value)),
                ..old(self).world@
            }),
    {
        let player_input = self.world.res.write();
        match axis {
            Axis::LeftX => {
                if value >= THRESHOLD_JOYSTICK {
                    player_input.left = false;
                    player_input.right = true;
                } else if value <= -THRESHOLD_JOYSTICK {
                    player_input.left = true;
                    player_input.right = false;
                } else {
                    player_input.left = false;
                    player_input.right = false;
                }
            },
            Axis::LeftY => {
                if value >= THRESHOLD_JOYSTICK {
                    player_input.up = false;
                    player_input.down = true;
                } else if value <= -THRESHOLD_JOYSTICK {
                    player_input.up = true;
                    player_input.down = false;
                } else {
                    player_input.up = false;
                    player_input.down = false;
                }
            },
            Axis::Other => {},
        }
        proof {
            assert(self.world@ =~= (WorldModel {
                input: Some(apply_axis_event(old(self).world@.input->0, axis, value)),
                ..old(self).world@
            }));
        }
    }
}

} // verus!
