//! The library's stated laws: properties that relate the systems to each
//! other and hold of every world, proved once and for all over the model.

use vstd::prelude::*;

use crate::components::{PlayerInput, Vec2};
use crate::model::{
    conflicts, dir_from_input, logic_chain, reads, run_schedule, schedule_pre, step_fits,
    step_pos_draw_sync, step_pos_integrate, step_vel_control, sys_pre, writes, AccessTarget,
    SystemKind, WorldModel,
};

verus! {

/// For every entity lacking Velocity or the Controlled marker, the
/// velocity-control system leaves all its state untouched.
pub proof fn lemma_vel_control_untouched(m: WorldModel, e: int)
    requires
        !(m.vel.contains_key(e) && m.controlled.contains_key(e)),
    ensures
        step_vel_control(m).vel.contains_key(e) == m.vel.contains_key(e),
        m.vel.contains_key(e) ==> step_vel_control(m).vel[e] == m.vel[e],
        step_vel_control(m).pos == m.pos,
        step_vel_control(m).drawable == m.drawable,
        step_vel_control(m).controlled == m.controlled,
        step_vel_control(m).input == m.input,
{
}

/// For an entity with Controlled and Velocity, after the velocity-control
/// system runs with flags left and down set, its direction is (-1, 1),
/// whatever its direction was before.
pub proof fn lemma_vel_control_sets_direction(m: WorldModel, e: int)
    requires
        m.input == Some(PlayerInput { left: true, right: false, up: false, down: true }),
        m.vel.contains_key(e),
        m.controlled.contains_key(e),
    ensures
        step_vel_control(m).vel[e].value == (Vec2 { x: -1i64, y: 1i64 }),
        step_vel_control(m).vel[e].speed == m.vel[e].speed,
{
}

/// When both flags of an axis are set, the later check of the stated order
/// wins: right overrides left, and down overrides up.
pub proof fn lemma_axis_override(i: PlayerInput)
    ensures
        i.left && i.right ==> dir_from_input(i).x == 1,
        i.up && i.down ==> dir_from_input(i).y == 1,
{
}

/// Position-integration is idempotent under zero velocity: an entity whose
/// direction is (0, 0) keeps its position exactly.
pub proof fn lemma_integrate_zero_direction(m: WorldModel, e: int)
    requires
        m.pos.contains_key(e),
        m.vel.contains_key(e) ==> m.vel[e].value == (Vec2 { x: 0, y: 0 }),
    ensures
        step_pos_integrate(m).pos[e] == m.pos[e],
{
}

/// Round trip: after position-integration followed by position-to-drawable
/// sync, every entity carrying both components has its drawable origin
/// exactly at its position; extent and color are untouched.
pub proof fn lemma_sync_round_trip(m: WorldModel, e: int)
    requires
        m.pos.contains_key(e),
        m.drawable.contains_key(e),
    ensures
        ({
            let after = step_pos_draw_sync(step_pos_integrate(m));
            &&& after.drawable[e].rect.x == after.pos[e].value.x
            &&& after.drawable[e].rect.y == after.pos[e].value.y
            &&& after.drawable[e].rect.w == m.drawable[e].rect.w
            &&& after.drawable[e].rect.h == m.drawable[e].rect.h
            &&& after.drawable[e].color == m.drawable[e].color
        }),
{
}

/// The three logic systems form a strict linear data dependency: each
/// writes what its successor reads, so every adjacent pair of the chain
/// conflicts and must be serialized — which the dispatcher does by running
/// its order strictly sequentially.
pub proof fn lemma_chain_conflicts()
    ensures
        conflicts(SystemKind::VelControl, SystemKind::PosIntegrate),
        conflicts(SystemKind::PosIntegrate, SystemKind::PosDrawSync),
{
    assert(writes(SystemKind::VelControl).intersect(
        reads(SystemKind::PosIntegrate).union(writes(SystemKind::PosIntegrate)),
    ).contains(AccessTarget::VelStorage));
    assert(writes(SystemKind::PosIntegrate).intersect(
        reads(SystemKind::PosDrawSync).union(writes(SystemKind::PosDrawSync)),
    ).contains(AccessTarget::PosStorage));
}

/// The logic chain's preconditions reduce to two plain conditions: the
/// input resource is present, and after the control step every joined
/// entity's integration stays within range.
pub proof fn lemma_logic_chain_pre(m: WorldModel)
    requires
        m.input is Some,
        forall|e: int|
            #![auto]
            step_vel_control(m).pos.contains_key(e) && step_vel_control(m).vel.contains_key(e)
                ==> step_fits(step_vel_control(m).pos[e], step_vel_control(m).vel[e]),
    ensures
        schedule_pre(m, logic_chain()),
{
    let s = logic_chain();
    assert forall|k: int| 0 <= k < s.len() implies sys_pre(
        run_schedule(m, #[trigger] s.take(k)),
        s[k],
    ) by {
        if k == 0 {
            assert(s.take(0) =~= Seq::<SystemKind>::empty());
            assert(run_schedule(m, s.take(0)) == m);
        } else if k == 1 {
            assert(s.take(1) =~= seq![SystemKind::VelControl]);
            assert(s.take(1).drop_last() =~= Seq::<SystemKind>::empty());
            assert(s.take(1).len() == 1);
            assert(s.take(1).last() == SystemKind::VelControl);
            assert(run_schedule(m, s.take(1).drop_last()) == m);
            assert(run_schedule(m, s.take(1)) == step_vel_control(m));
        } else {
            assert(k == 2);
        }
    }
}

/// One tick of the registered logic chain is exactly the three system steps
/// in order: velocity control, then integration, then drawable sync.
pub proof fn lemma_logic_chain_steps(m: WorldModel)
    ensures
        run_schedule(m, logic_chain()) == step_pos_draw_sync(
            step_pos_integrate(step_vel_control(m)),
        ),
{
    let s = logic_chain();
    assert(s.drop_last() =~= seq![SystemKind::VelControl, SystemKind::PosIntegrate]);
    assert(s.drop_last().drop_last() =~= seq![SystemKind::VelControl]);
    assert(s.drop_last().drop_last().drop_last() =~= Seq::<SystemKind>::empty());
    assert(run_schedule(m, Seq::<SystemKind>::empty()) == m);
    assert(run_schedule(m, s.drop_last().drop_last()) == step_vel_control(m));
    assert(run_schedule(m, s.drop_last()) == step_pos_integrate(step_vel_control(m)));
}

} // verus!
