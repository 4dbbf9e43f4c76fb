use crate::player::Player;
use crate::store::{next_key, Record, Table};
use crate::types::{longer_than, DbVector3, Identity};
use crate::world_spawn::{WorldSpawn, DEFAULT_WORLD_SPAWN_ID};
use vstd::prelude::*;

verus! {

/// The health that a new entity has, and can have at most.
pub const DEFAULT_MAX_HEALTH: i32 = 100_000;

/// How far a new entity's attacks reach.
pub const DEFAULT_ATTACK_RANGE: i32 = 3_000;

/// A body in the world.
#[derive(Clone, Copy, Debug, PartialEq, Eq, Structural)]
pub struct Entity {
    pub entity_id: u32,
    pub position: DbVector3,
    pub rotation: DbVector3,
    pub health: i32,
    pub max_health: i32,
    pub attack_range: i32,
}

impl Record for Entity {
    type Key = u32;

    open spec fn key(&self) -> u32 {
        self.entity_id
    }

    fn key_of(&self) -> (key: u32) {
        self.entity_id
    }

    fn has_key(&self, key: &u32) -> (r: bool) {
        self.entity_id == *key
    }
}

/// Why an operation on entities was refused.
#[derive(Clone, Copy, Debug, PartialEq, Eq, Structural)]
pub enum EntityError {
    /// Every identifier is in use.
    IdsExhausted,
    /// No entity has the identifier.
    EntityNotFound,
}

/// Why an attack was refused.
#[derive(Clone, Copy, Debug, PartialEq, Eq, Structural)]
pub enum DamageRejection {
    AttackerNotFound,
    AttackerOffline,
    AttackerEntityNotFound,
    TargetNotFound,
    /// The target is farther away than the attacker reaches.
    OutOfRange,
}

/// The entity that enters the world under `entity_id`: at the default spawn
/// where one is set, else at the origin.
pub open spec fn new_entity(spawns: Map<u32, WorldSpawn>, entity_id: u32) -> Entity {
    let origin = DbVector3 { x: 0, y: 0, z: 0 };
    Entity {
        entity_id,
        position: if spawns.contains_key(DEFAULT_WORLD_SPAWN_ID) {
            spawns[DEFAULT_WORLD_SPAWN_ID].position
        } else {
            origin
        },
        rotation: if spawns.contains_key(DEFAULT_WORLD_SPAWN_ID) {
            spawns[DEFAULT_WORLD_SPAWN_ID].rotation
        } else {
            origin
        },
        health: DEFAULT_MAX_HEALTH,
        max_health: DEFAULT_MAX_HEALTH,
        attack_range: DEFAULT_ATTACK_RANGE,
    }
}

/// Health after `damage`: never below nothing, and never above what the
/// field can hold.
pub open spec fn health_after(health: i32, damage: i32) -> int {
    let left = health - damage;
    if left < 0 {
        0
    } else if left > i32::MAX {
        i32::MAX as int
    } else {
        left
    }
}

/// Computes `health_after`.
pub fn remaining_health(health: i32, damage: i32) -> (left: i32)
    ensures
        left == health_after(health, damage),
{
    let left: i64 = health as i64 - damage as i64;
    if left < 0 {
        0
    } else if left > i32::MAX as i64 {
        i32::MAX
    } else {
        left as i32
    }
}

/// What an attack does: the verdict and the entities after it.
pub open spec fn apply_damage(
    players: Map<Identity, Player>,
    entities: Map<u32, Entity>,
    sender: Identity,
    target_entity_id: u32,
    damage: i32,
) -> (Result<(), DamageRejection>, Map<u32, Entity>) {
    if !players.contains_key(sender) {
        (Err(DamageRejection::AttackerNotFound), entities)
    } else if !players[sender].online {
        (Err(DamageRejection::AttackerOffline), entities)
    } else if !entities.contains_key(players[sender].entity_id) {
        (Err(DamageRejection::AttackerEntityNotFound), entities)
    } else if !entities.contains_key(target_entity_id) {
        (Err(DamageRejection::TargetNotFound), entities)
    } else {
        let attacker = entities[players[sender].entity_id];
        let target = entities[target_entity_id];
        if longer_than(
            attacker.position.distance_squared(target.position),
            attacker.attack_range as int,
        ) {
            (Err(DamageRejection::OutOfRange), entities)
        } else {
            (
                Ok(()),
                entities.insert(
                    target_entity_id,
                    Entity { health: health_after(target.health, damage) as i32, ..target },
                ),
            )
        }
    }
}

/// Brings a new entity into the world and returns it.
pub fn entity_create(entities: &mut Table<Entity>, spawns: &Table<WorldSpawn>) -> (r: Result<
    Entity,
    EntityError,
>)
    ensures
        r is Err <==> old(entities)@.contains_key(u32::MAX),
        r matches Err(e) ==> e == EntityError::IdsExhausted && final(entities)@ == old(entities)@,
        r matches Ok(entity) ==> {
            &&& entity == new_entity(spawns@, next_key(old(entities)@))
            &&& final(entities)@ == old(entities)@.insert(entity.entity_id, entity)
        },
{
    let entity_id: u32 = match entities.fresh_key() {
        Some(id) => id,
        None => {
            return Err(EntityError::IdsExhausted);
        },
    };
    let (position, rotation) = match spawns.find(&DEFAULT_WORLD_SPAWN_ID) {
        Some(spawn) => (spawn.position, spawn.rotation),
        None => (DbVector3 { x: 0, y: 0, z: 0 }, DbVector3 { x: 0, y: 0, z: 0 }),
    };
    let entity = Entity {
        entity_id,
        position,
        rotation,
        health: DEFAULT_MAX_HEALTH,
        max_health: DEFAULT_MAX_HEALTH,
        attack_range: DEFAULT_ATTACK_RANGE,
    };
    entities.insert(entity);
    Ok(entity)
}

/// The caller's entity strikes the target, if the caller is online and the
/// target within reach.
pub fn entity_apply_damage(
    players: &Table<Player>,
    entities: &mut Table<Entity>,
    sender: Identity,
    target_entity_id: u32,
    damage: i32,
) -> (r: Result<(), DamageRejection>)
    ensures
        (r, final(entities)@) == apply_damage(
            players@,
            old(entities)@,
            sender,
            target_entity_id,
            damage,
        ),
{
    let attacker = match players.find(&sender) {
        Some(player) => *player,
        None => {
            return Err(DamageRejection::AttackerNotFound);
        },
    };
    if !attacker.online {
        return Err(DamageRejection::AttackerOffline);
    }
    let attacker_entity = match entities.find(&attacker.entity_id) {
        Some(entity) => *entity,
        None => {
            return Err(DamageRejection::AttackerEntityNotFound);
        },
    };
    let mut target_entity = match entities.find(&target_entity_id) {
        Some(entity) => *entity,
        None => {
            return Err(DamageRejection::TargetNotFound);
        },
    };
    if attacker_entity.position.farther_than(&target_entity.position, attacker_entity.attack_range) {
        return Err(DamageRejection::OutOfRange);
    }
    target_entity.health = remaining_health(target_entity.health, damage);
    entities.upsert(target_entity);
    Ok(())
}

/// Sets an entity's health to the most it can have.
pub fn entity_reset_health(entities: &mut Table<Entity>, entity_id: u32) -> (r: Result<
    (),
    EntityError,
>)
    ensures
        r is Ok <==> old(entities)@.contains_key(entity_id),
        r matches Err(e) ==> e == EntityError::EntityNotFound && final(entities)@ == old(
            entities,
        )@,
        r is Ok ==> final(entities)@ == old(entities)@.insert(
            entity_id,
            Entity { health: old(entities)@[entity_id].max_health, ..old(entities)@[entity_id] },
        ),
{
    let mut entity = match entities.find(&entity_id) {
        Some(found) => *found,
        None => {
            return Err(EntityError::EntityNotFound);
        },
    };
    entity.health = entity.max_health;
    entities.upsert(entity);
    Ok(())
}

} // verus!
