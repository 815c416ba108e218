use mini_ecs::components::{Color, Controlled, Drawable, DrawCall, PlayerInput, Pos, Rect, Vec2, Vel};
use mini_ecs::storage::{join_ids, Storage};
use mini_ecs::systems::{
    compute_direction, SystemDrawable, SystemPosDrawable, SystemPosVel, SystemVelControlled,
};
use mini_ecs::world::{EntityBuilder, World};

fn red() -> Color {
    Color { r: 255, g: 0, b: 0, a: 255 }
}

#[test]
fn storage_set_get_remove() {
    let mut s: Storage<Pos> = Storage::new();
    assert!(s.get(0).is_none());
    s.set(3, Pos::new(1, 2));
    assert_eq!(s.get(3), Some(&Pos { value: Vec2 { x: 1, y: 2 } }));
    assert!(s.get(2).is_none());
    assert!(s.get(4).is_none());
    s.set(3, Pos::new(7, 8));
    assert_eq!(s.get(3), Some(&Pos { value: Vec2 { x: 7, y: 8 } }));
    let taken = s.remove(3);
    assert_eq!(taken, Some(Pos { value: Vec2 { x: 7, y: 8 } }));
    assert!(s.get(3).is_none());
    assert!(s.remove(3).is_none());
    assert!(s.remove(100).is_none());
}

#[test]
fn storage_join_intersects() {
    let mut a: Storage<Pos> = Storage::new();
    let mut b: Storage<Vel> = Storage::new();
    a.set(0, Pos::new(0, 0));
    a.set(2, Pos::new(2, 0));
    a.set(5, Pos::new(5, 0));
    b.set(2, Vel::new(1, 0, 1));
    b.set(4, Vel::new(1, 0, 1));
    b.set(5, Vel::new(1, 0, 1));
    let ids = join_ids(&a, &b);
    assert_eq!(ids, vec![2, 5]);
    let empty: Storage<Controlled> = Storage::new();
    assert_eq!(join_ids(&a, &empty), Vec::<usize>::new());
}

#[test]
fn registry_allocates_fresh_ids() {
    let mut w = World::new();
    let a = w.create();
    let b = w.create();
    assert_eq!(a, 0);
    assert_eq!(b, 1);
    let c = w.build_entity(EntityBuilder::new().with_pos(Pos::new(1, 1)));
    assert_eq!(c, 2);
    assert_eq!(w.pos.get(2), Some(&Pos { value: Vec2 { x: 1, y: 1 } }));
    assert!(w.pos.get(0).is_none());
    assert!(w.vel.get(2).is_none());
}

#[test]
fn builder_inserts_all_components() {
    let mut w = World::new();
    let e = w.build_entity(
        EntityBuilder::new()
            .with_pos(Pos::new(4, 5))
            .with_vel(Vel::new(1, -1, 2))
            .with_drawable(Drawable::new(10, 12, red()))
            .with_controlled(Controlled::new()),
    );
    assert_eq!(w.pos.get(e), Some(&Pos { value: Vec2 { x: 4, y: 5 } }));
    assert_eq!(w.vel.get(e), Some(&Vel { value: Vec2 { x: 1, y: -1 }, speed: 2 }));
    assert_eq!(
        w.drawable.get(e),
        Some(&Drawable { rect: Rect { x: 0, y: 0, w: 10, h: 12 }, color: red() })
    );
    assert!(w.controlled.get(e).is_some());
}

#[test]
fn resource_read_after_insert() {
    let mut w = World::new();
    let input = PlayerInput { left: true, right: false, up: false, down: false };
    w.add_resource(input);
    assert_eq!(*w.res.read(), input);
    w.add_resource(PlayerInput::new());
    assert_eq!(*w.res.read(), PlayerInput::new());
}

#[test]
fn player_input_new_and_reset() {
    let fresh = PlayerInput::new();
    assert!(!fresh.left && !fresh.right && !fresh.up && !fresh.down);
    let mut i = PlayerInput { left: true, right: true, up: true, down: true };
    i.reset();
    assert_eq!(i, fresh);
}

#[test]
fn drawable_set_pos_keeps_extent_and_color() {
    let mut d = Drawable::new(20, 30, red());
    assert_eq!(d.rect, Rect { x: 0, y: 0, w: 20, h: 30 });
    d.set_pos(-7, 9);
    assert_eq!(d.rect, Rect { x: -7, y: 9, w: 20, h: 30 });
    assert_eq!(d.color, red());
}

#[test]
fn direction_from_flags() {
    let none = PlayerInput::new();
    assert_eq!(compute_direction(&none), Vec2 { x: 0, y: 0 });
    let left_down = PlayerInput { left: true, right: false, up: false, down: true };
    assert_eq!(compute_direction(&left_down), Vec2 { x: -1, y: 1 });
    let right_up = PlayerInput { left: false, right: true, up: true, down: false };
    assert_eq!(compute_direction(&right_up), Vec2 { x: 1, y: -1 });
}

#[test]
fn direction_later_check_wins() {
    let all = PlayerInput { left: true, right: true, up: true, down: true };
    assert_eq!(compute_direction(&all), Vec2 { x: 1, y: 1 });
}

#[test]
fn vel_control_skips_uncontrolled() {
    let mut w = World::new();
    w.add_resource(PlayerInput { left: true, right: false, up: false, down: false });
    let plain = w.build_entity(
        EntityBuilder::new().with_pos(Pos::new(0, 0)).with_vel(Vel::new(1, 1, 3)),
    );
    let marked = w.build_entity(
        EntityBuilder::new().with_vel(Vel::new(1, 1, 3)).with_controlled(Controlled::new()),
    );
    let bare = w.build_entity(EntityBuilder::new().with_controlled(Controlled::new()));
    SystemVelControlled.run(&mut w);
    assert_eq!(w.vel.get(plain), Some(&Vel { value: Vec2 { x: 1, y: 1 }, speed: 3 }));
    assert_eq!(w.vel.get(marked), Some(&Vel { value: Vec2 { x: -1, y: 0 }, speed: 3 }));
    assert!(w.vel.get(bare).is_none());
    assert_eq!(w.pos.get(plain), Some(&Pos { value: Vec2 { x: 0, y: 0 } }));
}

#[test]
fn vel_control_overwrites_stale_direction() {
    let mut w = World::new();
    w.add_resource(PlayerInput { left: true, right: false, up: false, down: true });
    let e = w.build_entity(
        EntityBuilder::new().with_vel(Vel::new(1, -1, 5)).with_controlled(Controlled::new()),
    );
    SystemVelControlled.run(&mut w);
    assert_eq!(w.vel.get(e), Some(&Vel { value: Vec2 { x: -1, y: 1 }, speed: 5 }));
}

#[test]
fn integration_moves_by_direction_times_speed() {
    let mut w = World::new();
    let e = w.build_entity(
        EntityBuilder::new().with_pos(Pos::new(10, -4)).with_vel(Vel::new(1, -1, 3)),
    );
    SystemPosVel.run(&mut w);
    assert_eq!(w.pos.get(e), Some(&Pos { value: Vec2 { x: 13, y: -7 } }));
    SystemPosVel.run(&mut w);
    assert_eq!(w.pos.get(e), Some(&Pos { value: Vec2 { x: 16, y: -10 } }));
}

#[test]
fn integration_idempotent_under_zero_direction() {
    let mut w = World::new();
    let e = w.build_entity(
        EntityBuilder::new().with_pos(Pos::new(42, 7)).with_vel(Vel::new(0, 0, 9)),
    );
    SystemPosVel.run(&mut w);
    assert_eq!(w.pos.get(e), Some(&Pos { value: Vec2 { x: 42, y: 7 } }));
}

#[test]
fn integration_skips_entities_lacking_a_component() {
    let mut w = World::new();
    let only_pos = w.build_entity(EntityBuilder::new().with_pos(Pos::new(1, 2)));
    let only_vel = w.build_entity(EntityBuilder::new().with_vel(Vel::new(1, 1, 1)));
    SystemPosVel.run(&mut w);
    assert_eq!(w.pos.get(only_pos), Some(&Pos { value: Vec2 { x: 1, y: 2 } }));
    assert!(w.pos.get(only_vel).is_none());
    assert_eq!(w.vel.get(only_vel), Some(&Vel { value: Vec2 { x: 1, y: 1 }, speed: 1 }));
}

#[test]
fn render_system_emits_one_pair_per_drawable_and_nothing_else() {
    let mut w = World::new();
    w.build_entity(EntityBuilder::new().with_pos(Pos::new(1, 1)));
    w.build_entity(
        EntityBuilder::new().with_drawable(Drawable::new(8, 9, Color { r: 10, g: 20, b: 30, a: 40 })),
    );
    w.build_entity(
        EntityBuilder::new().with_drawable(Drawable::new(2, 3, Color { r: 1, g: 2, b: 3, a: 4 })),
    );
    let calls = SystemDrawable::new().run(&w);
    // Only the per-drawable pairs, in ascending entity order: clearing and
    // presenting belong to the surrounding draw pass.
    assert_eq!(
        calls,
        vec![
            DrawCall::SetFillColor(Color { r: 10, g: 20, b: 30, a: 40 }),
            DrawCall::FillRect(Rect { x: 0, y: 0, w: 8, h: 9 }),
            DrawCall::SetFillColor(Color { r: 1, g: 2, b: 3, a: 4 }),
            DrawCall::FillRect(Rect { x: 0, y: 0, w: 2, h: 3 }),
        ]
    );
}

#[test]
fn sync_round_trip_matches_position() {
    let mut w = World::new();
    let e = w.build_entity(
        EntityBuilder::new()
            .with_pos(Pos::new(3, 4))
            .with_vel(Vel::new(1, 1, 2))
            .with_drawable(Drawable::new(20, 20, red())),
    );
    SystemPosVel.run(&mut w);
    SystemPosDrawable.run(&mut w);
    let p = *w.pos.get(e).unwrap();
    let d = *w.drawable.get(e).unwrap();
    assert_eq!(p.value, Vec2 { x: 5, y: 6 });
    assert_eq!(d.rect, Rect { x: 5, y: 6, w: 20, h: 20 });
    assert_eq!(d.color, red());
}
