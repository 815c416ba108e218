//! The world: the entity registry, one storage per component type, and the
//! shared resource table, with builder-style entity construction.

use vstd::prelude::*;
use vstd::pervasive::unreached;

use crate::components::{Controlled, Drawable, PlayerInput, Pos, Vel};
use crate::model::WorldModel;
use crate::storage::Storage;

verus! {

/// The shared resource table: at most one instance of the player-input
/// resource, inserted at startup, then handed out by read or write borrow.
pub struct Resources {
    input: Option<PlayerInput>,
}

impl View for Resources {
    type V = Option<PlayerInput>;

    closed spec fn view(&self) -> Option<PlayerInput> {
        self.input
    }
}

impl Resources {
    pub fn new() -> (r: Self)
        ensures
            r@ is None,
    {
        Resources { input: None }
    }

    /// Insert the input resource. At most one instance exists, so inserting
    /// again replaces the previous value.
    pub fn insert(&mut self, value: PlayerInput)
        ensures
            final(self)@ == Some(value),
    {
        self.input = Some(value);
    }

    /// Whether the resource has been inserted.
    pub fn has(&self) -> (r: bool)
        ensures
            r == (self@ is Some),
    {
        self.input.is_some()
    }

    /// Shared borrow of the resource. Requesting it before it was inserted
    /// is a programming error, excluded by the precondition.
    pub fn read(&self) -> (r: &PlayerInput)
        requires
            self@ is Some,
        ensures
            *r == self@->0,
    {
        match &self.input {
            Some(v) => v,
            None => unreached(),
        }
    }

    /// Exclusive borrow of the resource; the table afterwards holds whatever
    /// the caller wrote through it.
    pub fn write(&mut self) -> (r: &mut PlayerInput)
        requires
            old(self)@ is Some,
        ensures
            *r == old(self)@->0,
            final(self)@ == Some(*final(r)),
    {
        match &mut self.input {
            Some(v) => v,
            None => unreached(),
        }
    }
}

/// The world: an allocator of fresh entity identities, one sparse storage
/// per component type, and the resource table.
pub struct World {
    pub next_entity: usize,
    pub pos: Storage<Pos>,
    pub vel: Storage<Vel>,
    pub drawable: Storage<Drawable>,
    pub controlled: Storage<Controlled>,
    pub res: Resources,
}

impl View for World {
    type V = WorldModel;

    open spec fn view(&self) -> WorldModel {
        WorldModel {
            next: self.next_entity as int,
            pos: self.pos@,
            vel: self.vel@,
            drawable: self.drawable@,
            controlled: self.controlled@,
            input: self.res@,
        }
    }
}

impl World {
    pub fn new() -> (w: Self)
        ensures
            w@ == (WorldModel {
                next: 0,
                pos: Map::empty(),
                vel: Map::empty(),
                drawable: Map::empty(),
                controlled: Map::empty(),
                input: None,
            }),
            w@.wf(),
    {
        World {
            next_entity: 0,
            pos: Storage::new(),
            vel: Storage::new(),
            drawable: Storage::new(),
            controlled: Storage::new(),
            res: Resources::new(),
        }
    }

    /// Insert the shared input resource.
    pub fn add_resource(&mut self, input: PlayerInput)
        ensures
            final(self)@ == (WorldModel { input: Some(input), ..old(self)@ }),
    {
        self.res.insert(input);
    }

    /// Allocate a fresh entity identity owning no components yet. Under
    /// well-formedness the identity is unused by every storage.
    pub fn create(&mut self) -> (e: usize)
        requires
            old(self).next_entity < usize::MAX,
        ensures
            e == old(self).next_entity,
            final(self)@ == (WorldModel { next: old(self)@.next + 1, ..old(self)@ }),
            old(self)@.wf() ==> final(self)@.wf(),
    {
        let e = self.next_entity;
        self.next_entity = self.next_entity + 1;
        e
    }

    /// Atomically allocate a fresh entity and insert every component the
    /// builder accumulated under its identity.
    pub fn build_entity(&mut self, b: EntityBuilder) -> (e: usize)
        requires
            old(self).next_entity < usize::MAX,
        ensures
            e == old(self).next_entity,
            final(self)@.next == old(self)@.next + 1,
            final(self)@.pos == (match b.pos {
                Some(p) => old(self)@.pos.insert(e as int, p),
                None => old(self)@.pos,
            }),
            final(self)@.vel == (match b.vel {
                Some(v) => old(self)@.vel.insert(e as int, v),
                None => old(self)@.vel,
            }),
            final(self)@.drawable == (match b.drawable {
                Some(d) => old(self)@.drawable.insert(e as int, d),
                None => old(self)@.drawable,
            }),
            final(self)@.controlled == (match b.controlled {
                Some(c) => old(self)@.controlled.insert(e as int, c),
                None => old(self)@.controlled,
            }),
            final(self)@.input == old(self)@.input,
            old(self)@.wf() ==> final(self)@.wf(),
    {
        let e = self.next_entity;
        self.next_entity = self.next_entity + 1;
        match b.pos {
            Some(p) => self.pos.set(e, p),
            None => {},
        }
        match b.vel {
            Some(v) => self.vel.set(e, v),
            None => {},
        }
        match b.drawable {
            Some(d) => self.drawable.set(e, d),
            None => {},
        }
        match b.controlled {
            Some(c) => self.controlled.set(e, c),
            None => {},
        }
        proof {
            if old(self)@.wf() {
                assert forall|k: int| self@.pos.contains_key(k) implies 0 <= k < self@.next by {
                    if k != e as int {
                        assert(old(self)@.pos.contains_key(k));
                    }
                }
                assert forall|k: int| self@.vel.contains_key(k) implies 0 <= k < self@.next by {
                    if k != e as int {
                        assert(old(self)@.vel.contains_key(k));
                    }
                }
                assert forall|k: int| self@.drawable.contains_key(k) implies 0 <= k
                    < self@.next by {
                    if k != e as int {
                        assert(old(self)@.drawable.contains_key(k));
                    }
                }
                assert forall|k: int| self@.controlled.contains_key(k) implies 0 <= k
                    < self@.next by {
                    if k != e as int {
                        assert(old(self)@.controlled.contains_key(k));
                    }
                }
            }
        }
        e
    }
}

/// Builder-style entity construction: accumulate typed component values,
/// then register them all at once under one fresh identity.
pub struct EntityBuilder {
    pub pos: Option<Pos>,
    pub vel: Option<Vel>,
    pub drawable: Option<Drawable>,
    pub controlled: Option<Controlled>,
}

impl EntityBuilder {
    pub fn new() -> (b: Self)
        ensures
            b == (EntityBuilder { pos: None, vel: None, drawable: None, controlled: None }),
    {
        EntityBuilder { pos: None, vel: None, drawable: None, controlled: None }
    }

    pub fn with_pos(self, p: Pos) -> (b: Self)
        ensures
            b == (EntityBuilder { pos: Some(p), ..self }),
    {
        EntityBuilder { pos: Some(p), ..self }
    }

    pub fn with_vel(self, v: Vel) -> (b: Self)
        ensures
            b == (EntityBuilder { vel: Some(v), ..self }),
    {
        EntityBuilder { vel: Some(v), ..self }
    }

    pub fn with_drawable(self, d: Drawable) -> (b: Self)
        ensures
            b == (EntityBuilder { drawable: Some(d), ..self }),
    {
        EntityBuilder { drawable: Some(d), ..self }
    }

    pub fn with_controlled(self, c: Controlled) -> (b: Self)
        ensures
            b == (EntityBuilder { controlled: Some(c), ..self }),
    {
        EntityBuilder { controlled: Some(c), ..self }
    }
}

} // verus!
