use crate::store::{Record, Table};
use crate::types::DbVector3;
use vstd::prelude::*;

verus! {

/// The key of the spawn that new entities start from.
pub const DEFAULT_WORLD_SPAWN_ID: u32 = 0;

/// Where the default spawn lies.
pub const DEFAULT_WORLD_SPAWN_X: i32 = -221_635;

pub const DEFAULT_WORLD_SPAWN_Y: i32 = -29_186;

pub const DEFAULT_WORLD_SPAWN_Z: i32 = 252_462;

/// A place and facing at which entities enter the world.
#[derive(Clone, Copy, Debug, PartialEq, Eq, Structural)]
pub struct WorldSpawn {
    pub id: u32,
    pub position: DbVector3,
    pub rotation: DbVector3,
}

impl Record for WorldSpawn {
    type Key = u32;

    open spec fn key(&self) -> u32 {
        self.id
    }

    fn key_of(&self) -> (key: u32) {
        self.id
    }

    fn has_key(&self, key: &u32) -> (r: bool) {
        self.id == *key
    }
}

/// The spawn that `world_spawn_init` sets.
pub open spec fn default_world_spawn() -> WorldSpawn {
    WorldSpawn {
        id: DEFAULT_WORLD_SPAWN_ID,
        position: DbVector3 {
            x: DEFAULT_WORLD_SPAWN_X,
            y: DEFAULT_WORLD_SPAWN_Y,
            z: DEFAULT_WORLD_SPAWN_Z,
        },
        rotation: DbVector3 { x: 0, y: 0, z: 0 },
    }
}

/// Sets the default spawn.
pub fn world_spawn_init(spawns: &mut Table<WorldSpawn>)
    ensures
        final(spawns)@ == old(spawns)@.insert(DEFAULT_WORLD_SPAWN_ID, default_world_spawn()),
{
    world_spawn_set(
        spawns,
        DEFAULT_WORLD_SPAWN_ID,
        DbVector3 {
            x: DEFAULT_WORLD_SPAWN_X,
            y: DEFAULT_WORLD_SPAWN_Y,
            z: DEFAULT_WORLD_SPAWN_Z,
        },
        DbVector3::default(),
    );
}

/// Sets the spawn `id`, in place of the one before it if there was one.
pub fn world_spawn_set(
    spawns: &mut Table<WorldSpawn>,
    id: u32,
    position: DbVector3,
    rotation: DbVector3,
)
    ensures
        final(spawns)@ == old(spawns)@.insert(id, WorldSpawn { id, position, rotation }),
{
    spawns.upsert(WorldSpawn { id, position, rotation });
}

} // verus!
