//! Authoritative state of a multiplayer world: walkable-surface checks,
//! movement arbitration and the cooldown ledger of harvestable resources.
//!
//! Every real-valued quantity (a coordinate, a speed, a range, a weight) is
//! held as a fixed-point integer that counts thousandths of its unit.

pub mod admin;
pub mod building_piece_placed;
pub mod entity;
pub mod inventory;
pub mod lootable;
pub mod navmesh;
pub mod player;
pub mod store;
pub mod types;
pub mod world_spawn;

use crate::inventory::{default_items_added, item_init, Item};
use crate::lootable::{
    default_type_defined, default_types_added, lootable_item_type_init, spawn_ids_short,
    with_default_spawns, LootableError, LootableItemType, LootableSpawn,
};
use crate::player::{player_set_online_status, with_online_status, Player};
use crate::store::Table;
use crate::types::Identity;
use crate::world_spawn::{default_world_spawn, world_spawn_init, WorldSpawn, DEFAULT_WORLD_SPAWN_ID};
use vstd::prelude::*;

verus! {

/// Why a world could not be set up.
#[derive(Clone, Copy, Debug, PartialEq, Eq, Structural)]
pub enum InitError {
    /// One of the default item kinds is already defined.
    ItemExists,
    /// One of the default lootable kinds is already defined.
    TypeExists,
    /// The spawns have fewer than two identifiers left.
    IdsExhausted,
}

/// The verdict on setting up a world with these items, kinds and spawns.
pub open spec fn init_verdict(
    items: Map<u32, Item>,
    types: Map<u32, LootableItemType>,
    spawns: Map<u32, LootableSpawn>,
) -> Result<(), InitError> {
    if items.contains_key(0) || items.contains_key(1) {
        Err(InitError::ItemExists)
    } else if default_type_defined(types) {
        Err(InitError::TypeExists)
    } else if spawn_ids_short(spawns) {
        Err(InitError::IdsExhausted)
    } else {
        Ok(())
    }
}

/// Sets up a world: the default spawn, the default kinds of item and of
/// lootable, and the first two things to pick up. A refusal changes
/// nothing.
pub fn init(
    world_spawns: &mut Table<WorldSpawn>,
    items: &mut Table<Item>,
    types: &mut Table<LootableItemType>,
    spawns: &mut Table<LootableSpawn>,
) -> (r: Result<(), InitError>)
    ensures
        r == init_verdict(old(items)@, old(types)@, old(spawns)@),
        r is Err ==> {
            &&& final(world_spawns)@ == old(world_spawns)@
            &&& final(items)@ == old(items)@
            &&& final(types)@ == old(types)@
            &&& final(spawns)@ == old(spawns)@
        },
        r is Ok ==> {
            &&& final(world_spawns)@ == old(world_spawns)@.insert(
                DEFAULT_WORLD_SPAWN_ID,
                default_world_spawn(),
            )
            &&& default_items_added(old(items)@, final(items)@)
            &&& default_types_added(old(types)@, final(types)@)
            &&& final(spawns)@ == with_default_spawns(old(spawns)@)
        },
{
    // Everything that can refuse is asked before the first table changes.
    if items.find(&0).is_some() || items.find(&1).is_some() {
        return Err(InitError::ItemExists);
    }
    if types.find(&0).is_some() || types.find(&1).is_some() || types.find(&2).is_some() {
        return Err(InitError::TypeExists);
    }
    if spawns.find(&u32::MAX).is_some() || spawns.find(&(u32::MAX - 1)).is_some() {
        return Err(InitError::IdsExhausted);
    }
    world_spawn_init(world_spawns);
    if item_init(items).is_err() {
        return Err(InitError::ItemExists);
    }
    match lootable_item_type_init(types, spawns) {
        Ok(()) => Ok(()),
        Err(LootableError::TypeExists) => Err(InitError::TypeExists),
        Err(_) => Err(InitError::IdsExhausted),
    }
}

/// A client has connected. Says whether it is known: whether it has a
/// player.
pub fn connect(players: &Table<Player>, sender: Identity) -> (known: bool)
    ensures
        known == players@.contains_key(sender),
{
    players.find(&sender).is_some()
}

/// A client has disconnected: its player, if it has one, is offline.
pub fn disconnect(players: &mut Table<Player>, sender: Identity)
    ensures
        final(players)@ == with_online_status(old(players)@, sender, false),
{
    player_set_online_status(players, sender, false);
}

} // verus!
