//! The mathematical model of a world and of the logic systems: partial maps
//! from entity id to component value, and one transformation per system. The
//! executable systems and the dispatcher are specified against these.

use vstd::prelude::*;

use crate::components::{Controlled, DrawCall, Drawable, PlayerInput, Pos, Rect, Vec2, Vel};

verus! {

/// The abstract state of a world: the entity allocator bound, one partial
/// component map per component type, and the shared input resource.
#[verifier::ext_equal]
pub struct WorldModel {
    pub next: int,
    pub pos: Map<int, Pos>,
    pub vel: Map<int, Vel>,
    pub drawable: Map<int, Drawable>,
    pub controlled: Map<int, Controlled>,
    pub input: Option<PlayerInput>,
}

impl WorldModel {
    /// Every stored component belongs to an already-allocated entity.
    pub open spec fn wf(self) -> bool {
        &&& forall|e: int| self.pos.contains_key(e) ==> 0 <= e < self.next
        &&& forall|e: int| self.vel.contains_key(e) ==> 0 <= e < self.next
        &&& forall|e: int| self.drawable.contains_key(e) ==> 0 <= e < self.next
        &&& forall|e: int| self.controlled.contains_key(e) ==> 0 <= e < self.next
    }
}

/// The closed set of logic systems the dispatcher can schedule.
#[derive(Clone, Copy, PartialEq, Eq, Structural, Debug)]
pub enum SystemKind {
    VelControl,
    PosIntegrate,
    PosDrawSync,
}

/// One part of the world a system can ask access to: a component storage or
/// the shared input resource.
#[derive(Clone, Copy, PartialEq, Eq, Structural, Debug)]
pub enum AccessTarget {
    PosStorage,
    VelStorage,
    DrawableStorage,
    ControlledStorage,
    InputResource,
}

/// The storages and resources a system reads, as declared at registration.
pub open spec fn reads(s: SystemKind) -> Set<AccessTarget> {
    match s {
        SystemKind::VelControl => set![
            AccessTarget::ControlledStorage,
            AccessTarget::InputResource,
        ],
        SystemKind::PosIntegrate => set![AccessTarget::VelStorage],
        SystemKind::PosDrawSync => set![AccessTarget::PosStorage],
    }
}

/// The storages and resources a system writes, as declared at registration.
pub open spec fn writes(s: SystemKind) -> Set<AccessTarget> {
    match s {
        SystemKind::VelControl => set![AccessTarget::VelStorage],
        SystemKind::PosIntegrate => set![AccessTarget::PosStorage],
        SystemKind::PosDrawSync => set![AccessTarget::DrawableStorage],
    }
}

/// Two systems conflict when one's write set meets the other's read or
/// write set; conflicting systems must never hold their borrows at the same
/// time, which the dispatcher guarantees by running its order strictly
/// sequentially.
pub open spec fn conflicts(a: SystemKind, b: SystemKind) -> bool {
    ||| !writes(a).intersect(reads(b).union(writes(b))).is_empty()
    ||| !writes(b).intersect(reads(a).union(writes(a))).is_empty()
}

/// The direction the four input flags ask for. The flags are checked left
/// then right and up then down, so when both flags of an axis are set the
/// later check wins: right overrides left, down overrides up.
pub open spec fn dir_from_input(i: PlayerInput) -> Vec2 {
    Vec2 {
        x: if i.right {
            1
        } else if i.left {
            -1i64
        } else {
            0
        },
        y: if i.down {
            1
        } else if i.up {
            -1i64
        } else {
            0
        },
    }
}

/// Velocity-control: every entity carrying both Velocity and the Controlled
/// marker has its direction fully recomputed from the input flags; its speed
/// and every other component stay as they were.
pub open spec fn step_vel_control(m: WorldModel) -> WorldModel {
    WorldModel {
        vel: Map::new(
            |e: int| m.vel.contains_key(e),
            |e: int|
                if m.controlled.contains_key(e) {
                    Vel { value: dir_from_input(m.input->0), speed: m.vel[e].speed }
                } else {
                    m.vel[e]
                },
        ),
        ..m
    }
}

/// Whether one integration step of `p` along `v` stays within the coordinate
/// type's range.
pub open spec fn step_fits(p: Pos, v: Vel) -> bool {
    &&& i64::MIN <= v.value.x * v.speed <= i64::MAX
    &&& i64::MIN <= v.value.y * v.speed <= i64::MAX
    &&& i64::MIN <= p.value.x + v.value.x * v.speed <= i64::MAX
    &&& i64::MIN <= p.value.y + v.value.y * v.speed <= i64::MAX
}

/// The position `p` moved one tick along `v`: direction times speed, applied
/// independently per axis, one fixed logical step.
pub open spec fn integrate(p: Pos, v: Vel) -> Pos {
    Pos {
        value: Vec2 {
            x: (p.value.x + v.value.x * v.speed) as i64,
            y: (p.value.y + v.value.y * v.speed) as i64,
        },
    }
}

/// Position-integration: every entity carrying both Position and Velocity
/// moves one step; everything else stays.
pub open spec fn step_pos_integrate(m: WorldModel) -> WorldModel {
    WorldModel {
        pos: Map::new(
            |e: int| m.pos.contains_key(e),
            |e: int|
                if m.vel.contains_key(e) {
                    integrate(m.pos[e], m.vel[e])
                } else {
                    m.pos[e]
                },
        ),
        ..m
    }
}

/// The drawable `d` with its origin overwritten from `p`; extent and color
/// are untouched.
pub open spec fn sync_drawable(d: Drawable, p: Pos) -> Drawable {
    Drawable {
        rect: Rect { x: p.value.x, y: p.value.y, w: d.rect.w, h: d.rect.h },
        color: d.color,
    }
}

/// Position-to-drawable sync: every entity carrying both Position and
/// Drawable gets its drawable origin overwritten from its position.
pub open spec fn step_pos_draw_sync(m: WorldModel) -> WorldModel {
    WorldModel {
        drawable: Map::new(
            |e: int| m.drawable.contains_key(e),
            |e: int|
                if m.pos.contains_key(e) {
                    sync_drawable(m.drawable[e], m.pos[e])
                } else {
                    m.drawable[e]
                },
        ),
        ..m
    }
}

/// What must hold of the world for a system to run: the control system needs
/// the input resource inserted, and integration must stay within range.
pub open spec fn sys_pre(m: WorldModel, s: SystemKind) -> bool {
    match s {
        SystemKind::VelControl => m.input is Some,
        SystemKind::PosIntegrate => forall|e: int|
            m.pos.contains_key(e) && m.vel.contains_key(e) ==> step_fits(m.pos[e], m.vel[e]),
        SystemKind::PosDrawSync => true,
    }
}

/// The world after one system runs.
pub open spec fn apply_system(m: WorldModel, s: SystemKind) -> WorldModel {
    match s {
        SystemKind::VelControl => step_vel_control(m),
        SystemKind::PosIntegrate => step_pos_integrate(m),
        SystemKind::PosDrawSync => step_pos_draw_sync(m),
    }
}

/// A system mutates only what it declares to write: every part of the
/// world outside its declared write set is left exactly as it was.
pub proof fn lemma_apply_system_writes_only(m: WorldModel, s: SystemKind)
    ensures
        !writes(s).contains(AccessTarget::PosStorage) ==> apply_system(m, s).pos == m.pos,
        !writes(s).contains(AccessTarget::VelStorage) ==> apply_system(m, s).vel == m.vel,
        !writes(s).contains(AccessTarget::DrawableStorage) ==> apply_system(m, s).drawable
            == m.drawable,
        !writes(s).contains(AccessTarget::ControlledStorage) ==> apply_system(m, s).controlled
            == m.controlled,
        !writes(s).contains(AccessTarget::InputResource) ==> apply_system(m, s).input == m.input,
        apply_system(m, s).next == m.next,
{
}

/// The world after the systems of `s` run in order, first element first.
pub open spec fn run_schedule(m: WorldModel, s: Seq<SystemKind>) -> WorldModel
    decreases s.len(),
{
    if s.len() == 0 {
        m
    } else {
        apply_system(run_schedule(m, s.drop_last()), s.last())
    }
}

/// Every system of `s` finds its precondition satisfied at its turn.
pub open spec fn schedule_pre(m: WorldModel, s: Seq<SystemKind>) -> bool {
    forall|k: int| 0 <= k < s.len() ==> sys_pre(run_schedule(m, #[trigger] s.take(k)), s[k])
}

/// The logic chain the game registers: velocity control, then position
/// integration, then drawable sync — a strict linear dependency chain.
pub open spec fn logic_chain() -> Seq<SystemKind> {
    seq![SystemKind::VelControl, SystemKind::PosIntegrate, SystemKind::PosDrawSync]
}

/// The backend calls that paint entity `e`: nothing when it has no drawable,
/// else its fill color followed by its rectangle.
pub open spec fn entity_draw_calls(m: WorldModel, e: int) -> Seq<DrawCall> {
    if m.drawable.contains_key(e) {
        seq![DrawCall::SetFillColor(m.drawable[e].color), DrawCall::FillRect(m.drawable[e].rect)]
    } else {
        seq![]
    }
}

/// The backend calls that paint the entities `0 .. n`, in ascending order.
pub open spec fn draw_calls_upto(m: WorldModel, n: nat) -> Seq<DrawCall>
    decreases n,
{
    if n == 0 {
        seq![]
    } else {
        draw_calls_upto(m, (n - 1) as nat) + entity_draw_calls(m, n - 1)
    }
}

/// One whole frame: clear, paint every drawable, present.
pub open spec fn frame_calls(m: WorldModel) -> Seq<DrawCall> {
    seq![DrawCall::Clear] + draw_calls_upto(m, m.next as nat) + seq![DrawCall::Present]
}

/// Running a system only rewrites component values: it allocates no entity,
/// adds or removes no component, and the control and integration steps leave
/// the input as it was — so a well-formed world stays well-formed.
pub proof fn lemma_apply_system_preserves_wf(m: WorldModel, s: SystemKind)
    requires
        m.wf(),
    ensures
        apply_system(m, s).wf(),
        apply_system(m, s).next == m.next,
        apply_system(m, s).input == m.input,
{
}

/// A whole schedule preserves well-formedness, the allocator bound, and the
/// input resource.
pub proof fn lemma_run_schedule_preserves_wf(m: WorldModel, s: Seq<SystemKind>)
    requires
        m.wf(),
    ensures
        run_schedule(m, s).wf(),
        run_schedule(m, s).next == m.next,
        run_schedule(m, s).input == m.input,
    decreases s.len(),
{
    if s.len() > 0 {
        lemma_run_schedule_preserves_wf(m, s.drop_last());
        lemma_apply_system_preserves_wf(run_schedule(m, s.drop_last()), s.last());
    }
}

} // verus!
