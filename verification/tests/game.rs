use mini_ecs::components::{Color, Controlled, Drawable, DrawCall, PlayerInput, Pos, Rect, Vec2, Vel};
use mini_ecs::dispatcher::{ConfigError, DispatcherBuilder};
use mini_ecs::game::{Axis, MainState};
use mini_ecs::model::SystemKind;
use mini_ecs::world::{EntityBuilder, World};

fn startup_world() -> World {
    let mut w = World::new();
    w.add_resource(PlayerInput::new());
    w.build_entity(
        EntityBuilder::new()
            .with_vel(Vel::new(0, 0, 5))
            .with_pos(Pos::new(0, 0))
            .with_drawable(Drawable::new(20, 20, Color { r: 255, g: 0, b: 0, a: 255 }))
            .with_controlled(Controlled::new()),
    );
    w.build_entity(
        EntityBuilder::new()
            .with_vel(Vel::new(1, 1, 1))
            .with_pos(Pos::new(50, 0))
            .with_drawable(Drawable::new(20, 20, Color { r: 0, g: 255, b: 0, a: 255 })),
    );
    w.build_entity(
        EntityBuilder::new()
            .with_vel(Vel::new(1, 1, 1))
            .with_pos(Pos::new(100, 0))
            .with_drawable(Drawable::new(20, 20, Color { r: 0, g: 0, b: 255, a: 255 })),
    );
    w
}

#[test]
fn build_fails_on_unknown_dependency() {
    let mut deps = Vec::new();
    deps.push("no_such_system".to_owned());
    let r = DispatcherBuilder::new()
        .add(SystemKind::VelControl, "a".to_owned(), Vec::new())
        .add(SystemKind::PosIntegrate, "b".to_owned(), deps)
        .build();
    assert!(matches!(r, Err(ConfigError::UnknownDependency)));
}

#[test]
fn build_fails_on_cycle() {
    let mut deps_a = Vec::new();
    deps_a.push("b".to_owned());
    let mut deps_b = Vec::new();
    deps_b.push("a".to_owned());
    let r = DispatcherBuilder::new()
        .add(SystemKind::VelControl, "a".to_owned(), deps_a)
        .add(SystemKind::PosIntegrate, "b".to_owned(), deps_b)
        .build();
    assert!(matches!(r, Err(ConfigError::DependencyCycle)));
}

#[test]
fn build_fails_on_self_cycle() {
    let mut deps = Vec::new();
    deps.push("a".to_owned());
    let r = DispatcherBuilder::new().add(SystemKind::VelControl, "a".to_owned(), deps).build();
    assert!(matches!(r, Err(ConfigError::DependencyCycle)));
}

#[test]
fn build_orders_chain_by_dependencies() {
    // Register the chain backwards; the computed order must still respect it.
    let mut deps_pos_vel = Vec::new();
    deps_pos_vel.push("sys_vel_controlled".to_owned());
    let mut deps_pos_draw = Vec::new();
    deps_pos_draw.push("sys_pos_vel".to_owned());
    let d = DispatcherBuilder::new()
        .add(SystemKind::PosDrawSync, "sys_pos_draw".to_owned(), deps_pos_draw)
        .add(SystemKind::PosIntegrate, "sys_pos_vel".to_owned(), deps_pos_vel)
        .add(SystemKind::VelControl, "sys_vel_controlled".to_owned(), Vec::new())
        .build()
        .unwrap();
    assert_eq!(d.order, vec![2, 1, 0]);
}

#[test]
fn one_tick_without_input_moves_only_autonomous_actors() {
    let state = MainState::new(startup_world());
    let mut state = state.unwrap();
    state.update();
    let w = &state.world;
    assert_eq!(w.pos.get(0), Some(&Pos { value: Vec2 { x: 0, y: 0 } }));
    assert_eq!(w.pos.get(1), Some(&Pos { value: Vec2 { x: 51, y: 1 } }));
    assert_eq!(w.pos.get(2), Some(&Pos { value: Vec2 { x: 101, y: 1 } }));
    // The drawables were synced to the new positions.
    assert_eq!(w.drawable.get(0).unwrap().rect, Rect { x: 0, y: 0, w: 20, h: 20 });
    assert_eq!(w.drawable.get(1).unwrap().rect, Rect { x: 51, y: 1, w: 20, h: 20 });
    assert_eq!(w.drawable.get(2).unwrap().rect, Rect { x: 101, y: 1, w: 20, h: 20 });
}

#[test]
fn controlled_actor_follows_input() {
    let mut state = MainState::new(startup_world()).unwrap();
    state.controller_axis_event(Axis::LeftX, 1200);
    state.update();
    // Direction (1, 0) at speed 5: one tick moves the controlled actor by 5.
    assert_eq!(state.world.pos.get(0), Some(&Pos { value: Vec2 { x: 5, y: 0 } }));
    state.controller_axis_event(Axis::LeftX, 300);
    state.controller_axis_event(Axis::LeftY, -2000);
    state.update();
    // Direction (0, -1) at speed 5: one tick moves it up by 5.
    assert_eq!(state.world.pos.get(0), Some(&Pos { value: Vec2 { x: 5, y: -5 } }));
}

#[test]
fn guarded_tick_runs_when_safe() {
    let mut state = MainState::new(startup_world()).unwrap();
    assert!(state.try_update());
    assert_eq!(state.world.pos.get(1), Some(&Pos { value: Vec2 { x: 51, y: 1 } }));
}

#[test]
fn guarded_tick_refuses_overflowing_step() {
    let mut w = World::new();
    w.add_resource(PlayerInput::new());
    w.build_entity(
        EntityBuilder::new().with_pos(Pos::new(i64::MAX, 0)).with_vel(Vel::new(1, 0, i64::MAX)),
    );
    let mut state = MainState::new(w).unwrap();
    assert!(!state.try_update());
    // The refused tick left the world untouched.
    assert_eq!(state.world.pos.get(0), Some(&Pos { value: Vec2 { x: i64::MAX, y: 0 } }));
}

#[test]
fn axis_event_sets_and_clears_flags() {
    let mut state = MainState::new(startup_world()).unwrap();
    state.controller_axis_event(Axis::LeftX, 1200);
    {
        let i = *state.world.res.read();
        assert!(i.right && !i.left && !i.up && !i.down);
    }
    state.controller_axis_event(Axis::LeftX, 300);
    {
        let i = *state.world.res.read();
        assert!(!i.right && !i.left);
    }
}

#[test]
fn axis_event_threshold_edges() {
    let mut state = MainState::new(startup_world()).unwrap();
    state.controller_axis_event(Axis::LeftX, 1000);
    assert!(state.world.res.read().right);
    state.controller_axis_event(Axis::LeftX, 999);
    assert!(!state.world.res.read().right && !state.world.res.read().left);
    state.controller_axis_event(Axis::LeftX, -1000);
    assert!(state.world.res.read().left && !state.world.res.read().right);
    state.controller_axis_event(Axis::LeftX, -999);
    assert!(!state.world.res.read().left && !state.world.res.read().right);
    state.controller_axis_event(Axis::LeftY, 1000);
    assert!(state.world.res.read().down && !state.world.res.read().up);
    state.controller_axis_event(Axis::LeftY, -1000);
    assert!(state.world.res.read().up && !state.world.res.read().down);
    // Another axis leaves every flag as it was.
    state.controller_axis_event(Axis::Other, 32000);
    assert!(state.world.res.read().up && !state.world.res.read().down);
}

#[test]
fn vertical_axis_does_not_touch_horizontal_flags() {
    let mut state = MainState::new(startup_world()).unwrap();
    state.controller_axis_event(Axis::LeftX, 1200);
    state.controller_axis_event(Axis::LeftY, 1200);
    let i = *state.world.res.read();
    assert!(i.right && i.down && !i.left && !i.up);
}

#[test]
fn frame_calls_paint_each_drawable_between_clear_and_present() {
    let state = MainState::new(startup_world()).unwrap();
    let calls = state.draw();
    assert_eq!(calls.len(), 8);
    assert_eq!(calls[0], DrawCall::Clear);
    assert_eq!(calls[1], DrawCall::SetFillColor(Color { r: 255, g: 0, b: 0, a: 255 }));
    assert_eq!(calls[2], DrawCall::FillRect(Rect { x: 0, y: 0, w: 20, h: 20 }));
    assert_eq!(calls[3], DrawCall::SetFillColor(Color { r: 0, g: 255, b: 0, a: 255 }));
    assert_eq!(calls[4], DrawCall::FillRect(Rect { x: 0, y: 0, w: 20, h: 20 }));
    assert_eq!(calls[5], DrawCall::SetFillColor(Color { r: 0, g: 0, b: 255, a: 255 }));
    assert_eq!(calls[6], DrawCall::FillRect(Rect { x: 0, y: 0, w: 20, h: 20 }));
    assert_eq!(calls[7], DrawCall::Present);
}

#[test]
fn draw_skips_entities_without_drawable() {
    let mut w = World::new();
    w.add_resource(PlayerInput::new());
    w.build_entity(EntityBuilder::new().with_pos(Pos::new(1, 1)));
    w.build_entity(
        EntityBuilder::new()
            .with_pos(Pos::new(2, 2))
            .with_drawable(Drawable::new(4, 4, Color { r: 1, g: 2, b: 3, a: 4 })),
    );
    let state = MainState::new(w).unwrap();
    let calls = state.draw();
    assert_eq!(
        calls,
        vec![
            DrawCall::Clear,
            DrawCall::SetFillColor(Color { r: 1, g: 2, b: 3, a: 4 }),
            DrawCall::FillRect(Rect { x: 0, y: 0, w: 4, h: 4 }),
            DrawCall::Present,
        ]
    );
}
