//! Dynamic actors of a level. Positions are in millionths of a cell side,
//! angles in millionths of a radian, speeds and ranges in millionths of a
//! cell side too.
use vstd::prelude::*;

verus! {

/// Units per cell side, and per radian.
pub const SCALE: i64 = 1_000_000;

#[derive(Clone, Copy, Debug, PartialEq, Eq, Structural)]
pub enum EntityKind {
    /// An empty slot of the entity table.
    NotAnEntity,
    Harmless,
    Patrol,
    Aggressive,
    Projectile,
    /// The entity driven by this bot.
    Dll,
}

impl EntityKind {
    /// Decodes the raw kind value sent by the game; `None` for a value that
    /// names no kind.
    pub fn from_raw(v: u32) -> (r: Option<EntityKind>)
        ensures
            v == 0 <==> r == Some(EntityKind::NotAnEntity),
            v == 1 <==> r == Some(EntityKind::Harmless),
            v == 2 <==> r == Some(EntityKind::Patrol),
            v == 3 <==> r == Some(EntityKind::Aggressive),
            v == 4 <==> r == Some(EntityKind::Projectile),
            v == 5 <==> r == Some(EntityKind::Dll),
            v > 5 <==> r.is_none(),
    {
        match v {
            0 => Some(EntityKind::NotAnEntity),
            1 => Some(EntityKind::Harmless),
            2 => Some(EntityKind::Patrol),
            3 => Some(EntityKind::Aggressive),
            4 => Some(EntityKind::Projectile),
            5 => Some(EntityKind::Dll),
            _ => None,
        }
    }
}

/// Whether an entity is free to take a new decision.
#[derive(Clone, Copy, Debug, PartialEq, Eq, Structural)]
pub enum EntityState {
    Idle,
    /// Busy with an action that must not be interrupted.
    Busy,
}

/// Movement and combat properties of an entity.
#[derive(Clone, Copy, Debug, PartialEq, Eq, Structural)]
pub struct Properties {
    pub move_speed: i64,
    pub rotation_speed: i64,
    pub attack_range: i64,
    pub activate_range: i64,
}

impl Properties {
    pub fn new(move_speed: i64, rotation_speed: i64, attack_range: i64, activate_range: i64) -> (r:
        Properties)
        ensures
            r == (Properties { move_speed, rotation_speed, attack_range, activate_range }),
    {
        Properties { move_speed, rotation_speed, attack_range, activate_range }
    }

    pub fn move_speed(&self) -> (r: i64)
        ensures
            r == self.move_speed,
    {
        self.move_speed
    }

    pub fn rotation_speed(&self) -> (r: i64)
        ensures
            r == self.rotation_speed,
    {
        self.rotation_speed
    }

    pub fn attack_range(&self) -> (r: i64)
        ensures
            r == self.attack_range,
    {
        self.attack_range
    }

    pub fn activate_range(&self) -> (r: i64)
        ensures
            r == self.activate_range,
    {
        self.activate_range
    }
}

/// One slot of the entity table.
#[derive(Clone, Copy, Debug, PartialEq, Eq, Structural)]
pub struct Entity {
    pub kind: EntityKind,
    pub x: i64,
    pub y: i64,
    pub angle: i64,
    pub handle: usize,
    pub state: EntityState,
    pub properties: Properties,
}

impl Default for Entity {
    /// An empty slot.
    fn default() -> (r: Entity)
        ensures
            r == (Entity {
                kind: EntityKind::NotAnEntity,
                x: 0,
                y: 0,
                angle: 0,
                handle: 0,
                state: EntityState::Idle,
                properties: Properties { move_speed: 0, rotation_speed: 0, attack_range: 0, activate_range: 0 },
            }),
    {
        Entity {
            kind: EntityKind::NotAnEntity,
            x: 0,
            y: 0,
            angle: 0,
            handle: 0,
            state: EntityState::Idle,
            properties: Properties { move_speed: 0, rotation_speed: 0, attack_range: 0, activate_range: 0 },
        }
    }
}

impl Entity {
    pub fn new(
        kind: EntityKind,
        x: i64,
        y: i64,
        angle: i64,
        handle: usize,
        state: EntityState,
        properties: Properties,
    ) -> (r: Entity)
        ensures
            r == (Entity { kind, x, y, angle, handle, state, properties }),
    {
        Entity { kind, x, y, angle, handle, state, properties }
    }

    pub fn kind(&self) -> (r: EntityKind)
        ensures
            r == self.kind,
    {
        self.kind
    }

    pub fn x(&self) -> (r: i64)
        ensures
            r == self.x,
    {
        self.x
    }

    pub fn y(&self) -> (r: i64)
        ensures
            r == self.y,
    {
        self.y
    }

    pub fn angle(&self) -> (r: i64)
        ensures
            r == self.angle,
    {
        self.angle
    }

    pub fn handle(&self) -> (r: usize)
        ensures
            r == self.handle,
    {
        self.handle
    }

    pub fn state(&self) -> (r: EntityState)
        ensures
            r == self.state,
    {
        self.state
    }

    pub fn properties(&self) -> (r: Properties)
        ensures
            r == self.properties,
    {
        self.properties
    }
}

/// The slots holding an entity, in slot order.
pub open spec fn live_entities(s: Seq<Entity>) -> Seq<Entity>
    decreases s.len(),
{
    if s.len() == 0 {
        Seq::empty()
    } else {
        let rest = live_entities(s.drop_last());
        if s.last().kind != EntityKind::NotAnEntity {
            rest.push(s.last())
        } else {
            rest
        }
    }
}

/// The entity table of a level, indexed by handle.
#[derive(Clone, Debug)]
pub struct Entities {
    slots: Vec<Entity>,
}

impl Entities {
    pub closed spec fn slots(&self) -> Seq<Entity> {
        self.slots@
    }

    /// The entity of a handle: `None` past the table or for an empty slot.
    pub open spec fn get_spec(&self, handle: int) -> Option<Entity> {
        if 0 <= handle < self.slots().len() && self.slots()[handle].kind != EntityKind::NotAnEntity {
            Some(self.slots()[handle])
        } else {
            None
        }
    }

    pub fn new(slots: Vec<Entity>) -> (r: Entities)
        ensures
            r.slots() == slots@,
    {
        Entities { slots }
    }

    pub fn len(&self) -> (r: usize)
        ensures
            r == self.slots().len(),
    {
        self.slots.len()
    }

    pub fn get(&self, handle: usize) -> (r: Option<Entity>)
        ensures
            r == self.get_spec(handle as int),
    {
        if handle < self.slots.len() && self.slots[handle].kind != EntityKind::NotAnEntity {
            Some(self.slots[handle])
        } else {
            None
        }
    }

    /// The entities of the table, empty slots left out, in slot order.
    pub fn iter(&self) -> (r: Vec<Entity>)
        ensures
            r@ == live_entities(self.slots()),
    {
        let mut out: Vec<Entity> = Vec::new();
        let mut i: usize = 0;
        while i < self.slots.len()
            invariant
                i <= self.slots@.len(),
                out@ == live_entities(self.slots@.take(i as int)),
            decreases self.slots@.len() - i,
        {
            proof {
                assert(self.slots@.take(i + 1).drop_last() =~= self.slots@.take(i as int));
            }
            if self.slots[i].kind != EntityKind::NotAnEntity {
                out.push(self.slots[i]);
            }
            i = i + 1;
        }
        proof {
            assert(self.slots@.take(i as int) =~= self.slots@);
        }
        out
    }
}

} // verus!
