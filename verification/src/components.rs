//! Component types held in the entity storages, the shared input resource,
//! and the draw calls handed to the rendering backend.

use vstd::prelude::*;

verus! {

/// A two-dimensional vector in whole units; used both for coordinates and
/// for direction values.
#[derive(Clone, Copy, PartialEq, Eq, Structural, Debug)]
pub struct Vec2 {
    pub x: i64,
    pub y: i64,
}

/// Position component: where an entity currently stands.
#[derive(Clone, Copy, PartialEq, Eq, Structural, Debug)]
pub struct Pos {
    pub value: Vec2,
}

impl Pos {
    pub fn new(x: i64, y: i64) -> (r: Self)
        ensures
            r == (Pos { value: Vec2 { x, y } }),
    {
        Pos { value: Vec2 { x, y } }
    }
}

/// Velocity component: a per-axis direction in [-1, 1] and a non-negative
/// scalar speed multiplier.
#[derive(Clone, Copy, PartialEq, Eq, Structural, Debug)]
pub struct Vel {
    pub value: Vec2,
    pub speed: i64,
}

impl Vel {
    pub fn new(x: i64, y: i64, speed: i64) -> (r: Self)
        requires
            -1 <= x <= 1,
            -1 <= y <= 1,
            0 <= speed,
        ensures
            r == (Vel { value: Vec2 { x, y }, speed }),
    {
        Vel { value: Vec2 { x, y }, speed }
    }
}

/// An axis-aligned rectangle: origin and extent.
#[derive(Clone, Copy, PartialEq, Eq, Structural, Debug)]
pub struct Rect {
    pub x: i64,
    pub y: i64,
    pub w: i64,
    pub h: i64,
}

/// An RGBA color, one byte per channel.
#[derive(Clone, Copy, PartialEq, Eq, Structural, Debug)]
pub struct Color {
    pub r: u8,
    pub g: u8,
    pub b: u8,
    pub a: u8,
}

/// One call to the rendering backend. A frame is a sequence of these:
/// clear, then per drawable a fill color and a rectangle, then present.
#[derive(Clone, Copy, PartialEq, Eq, Structural, Debug)]
pub enum DrawCall {
    Clear,
    SetFillColor(Color),
    FillRect(Rect),
    Present,
}

/// Drawable component: a rectangle whose origin is synchronized from the
/// entity's position each tick, with an extent and a color fixed at creation.
#[derive(Clone, Copy, PartialEq, Eq, Structural, Debug)]
pub struct Drawable {
    pub rect: Rect,
    pub color: Color,
}

impl Drawable {
    pub fn new(width: i64, height: i64, color: Color) -> (r: Self)
        ensures
            r == (Drawable { rect: Rect { x: 0, y: 0, w: width, h: height }, color }),
    {
        Drawable { rect: Rect { x: 0, y: 0, w: width, h: height }, color }
    }

    pub fn set_pos(&mut self, x: i64, y: i64)
        ensures
            final(self).rect == (Rect { x, y, w: old(self).rect.w, h: old(self).rect.h }),
            final(self).color == old(self).color,
    {
        self.rect.x = x;
        self.rect.y = y;
    }

    /// The two backend calls that paint this drawable: its fill color, then
    /// its rectangle.
    pub fn draw(&self) -> (calls: (DrawCall, DrawCall))
        ensures
            calls.0 == DrawCall::SetFillColor(self.color),
            calls.1 == DrawCall::FillRect(self.rect),
    {
        (DrawCall::SetFillColor(self.color), DrawCall::FillRect(self.rect))
    }
}

/// Marker component carrying no data; its presence opts an entity into the
/// input-control system.
#[derive(Clone, Copy, PartialEq, Eq, Structural, Debug)]
pub struct Controlled;

impl Controlled {
    pub fn new() -> Self {
        Controlled
    }
}

/// The shared input resource: four independent directional intent flags.
/// Exactly one instance lives in the world's resource table.
#[derive(Clone, Copy, PartialEq, Eq, Structural, Debug)]
pub struct PlayerInput {
    pub left: bool,
    pub right: bool,
    pub up: bool,
    pub down: bool,
}

impl PlayerInput {
    pub fn new() -> (r: Self)
        ensures
            r == (PlayerInput { left: false, right: false, up: false, down: false }),
    {
        PlayerInput { left: false, right: false, up: false, down: false }
    }

    pub fn reset(&mut self)
        ensures
            *final(self) == (PlayerInput { left: false, right: false, up: false, down: false }),
    {
        self.left = false;
        self.right = false;
        self.up = false;
        self.down = false;
    }
}

} // verus!
