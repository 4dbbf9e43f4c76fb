use crate::admin::{is_admin, Admin};
use crate::entity::Entity;
use crate::inventory::{add_overflows, granted, inventory_add_item_internal, Inventory};
use crate::player::Player;
use crate::store::{
    distinct_keys, index_of_key, keyed, lemma_keyed_entry, lemma_keyed_row, next_key, Record,
    Table,
};
use crate::types::{longer_than, DbVector3, Identity};
use vstd::prelude::*;

verus! {

/// A kind of thing that can be picked up in the world. Its identifier is
/// also that of the item that picking it up gives.
#[derive(Clone, Debug, PartialEq, Eq)]
pub struct LootableItemType {
    pub type_id: u32,
    pub name: String,
    pub description: String,
    /// Weight of one item, in thousandths.
    pub weight: i32,
    /// How many items one pick gives.
    pub quantity: u32,
    /// How long a picked spawn stays empty, in microseconds.
    pub respawn_time_us: i64,
    /// From how far away it can be picked, in thousandths of a unit.
    pub loot_distance: i32,
}

impl Record for LootableItemType {
    type Key = u32;

    open spec fn key(&self) -> u32 {
        self.type_id
    }

    fn key_of(&self) -> (key: u32) {
        self.type_id
    }

    fn has_key(&self, key: &u32) -> (r: bool) {
        self.type_id == *key
    }
}

/// A place in the world where a thing of some kind lies, or will lie again
/// once its cooldown has run.
#[derive(Clone, Copy, Debug, PartialEq, Eq, Structural)]
pub struct LootableSpawn {
    pub spawn_id: u32,
    pub type_id: u32,
    pub position: DbVector3,
    pub rotation: DbVector3,
    /// Whether it was picked and has not come back.
    pub is_looted: bool,
    /// When it was picked, in microseconds. Means nothing while it is not
    /// picked.
    pub looted_at_us: i64,
}

impl Record for LootableSpawn {
    type Key = u32;

    open spec fn key(&self) -> u32 {
        self.spawn_id
    }

    fn key_of(&self) -> (key: u32) {
        self.spawn_id
    }

    fn has_key(&self, key: &u32) -> (r: bool) {
        self.spawn_id == *key
    }
}

/// What a pick gives, for the caller to put into an inventory.
#[derive(Clone, Copy, Debug, PartialEq, Eq, Structural)]
pub struct LootResult {
    pub type_id: u32,
    pub quantity_granted: u32,
}

/// Why a pick was refused.
#[derive(Clone, Copy, Debug, PartialEq, Eq, Structural)]
pub enum LootRejection {
    PlayerNotFound,
    EntityNotFound,
    UnknownSpawn,
    /// The spawn names a kind that is not defined.
    UnknownType,
    /// The actor stands farther away than the kind can be picked from.
    OutOfRange,
    /// The spawn was picked and its cooldown has this long left to run, in
    /// microseconds.
    OnCooldown { remaining_us: i64 },
    /// The inventory cannot hold that many more.
    InventoryOverflow,
}

/// Why a change to the kinds or spawns was refused.
#[derive(Clone, Copy, Debug, PartialEq, Eq, Structural)]
pub enum LootableError {
    /// The caller is no administrator.
    Unauthorized,
    TypeExists,
    UnknownType,
    UnknownSpawn,
    /// Every identifier is in use.
    IdsExhausted,
}

/// Whether the spawn was picked less than `respawn_time_us` before
/// `now_us`.
pub open spec fn on_cooldown(spawn: LootableSpawn, respawn_time_us: i64, now_us: i64) -> bool {
    spawn.is_looted && now_us - spawn.looted_at_us < respawn_time_us
}

/// How long the cooldown of a picked spawn has left to run at `now_us`,
/// held to what an `i64` can hold.
pub open spec fn cooldown_left(spawn: LootableSpawn, respawn_time_us: i64, now_us: i64) -> int {
    let left = respawn_time_us - (now_us - spawn.looted_at_us);
    if left > i64::MAX {
        i64::MAX as int
    } else {
        left
    }
}

/// Whether the spawn was picked and at `now_us` its cooldown has run: at
/// least the respawn time of its kind has passed.
pub open spec fn due_for_respawn(
    spawn: LootableSpawn,
    types: Map<u32, LootableItemType>,
    now_us: i64,
) -> bool {
    &&& spawn.is_looted
    &&& types.contains_key(spawn.type_id)
    &&& now_us - spawn.looted_at_us >= types[spawn.type_id].respawn_time_us
}

/// The spawn once picked at `now_us`.
pub open spec fn looted(spawn: LootableSpawn, now_us: i64) -> LootableSpawn {
    LootableSpawn { is_looted: true, looted_at_us: now_us, ..spawn }
}

/// The spawn once it has come back.
pub open spec fn respawned(spawn: LootableSpawn) -> LootableSpawn {
    LootableSpawn { is_looted: false, looted_at_us: 0, ..spawn }
}

/// The verdict on a pick of `spawn`, which is of the kind `item_type`, by
/// an actor at `actor_position` at `now_us`.
pub open spec fn loot_verdict(
    spawn: LootableSpawn,
    item_type: LootableItemType,
    actor_position: DbVector3,
    now_us: i64,
) -> Result<LootResult, LootRejection> {
    if longer_than(
        actor_position.distance_squared(spawn.position),
        item_type.loot_distance as int,
    ) {
        Err(LootRejection::OutOfRange)
    } else if on_cooldown(spawn, item_type.respawn_time_us, now_us) {
        Err(
            LootRejection::OnCooldown {
                remaining_us: cooldown_left(spawn, item_type.respawn_time_us, now_us) as i64,
            },
        )
    } else {
        Ok(LootResult { type_id: item_type.type_id, quantity_granted: item_type.quantity })
    }
}

/// What an attempt to pick the spawn `spawn_id` does: the verdict and the
/// spawns after it. Only a successful pick changes a spawn: it is then
/// picked, at `now_us`.
pub open spec fn attempt_loot(
    spawns: Map<u32, LootableSpawn>,
    types: Map<u32, LootableItemType>,
    spawn_id: u32,
    actor_position: DbVector3,
    now_us: i64,
) -> (Result<LootResult, LootRejection>, Map<u32, LootableSpawn>) {
    if !spawns.contains_key(spawn_id) {
        (Err(LootRejection::UnknownSpawn), spawns)
    } else if !types.contains_key(spawns[spawn_id].type_id) {
        (Err(LootRejection::UnknownType), spawns)
    } else {
        let verdict = loot_verdict(
            spawns[spawn_id],
            types[spawns[spawn_id].type_id],
            actor_position,
            now_us,
        );
        if verdict is Ok {
            (verdict, spawns.insert(spawn_id, looted(spawns[spawn_id], now_us)))
        } else {
            (verdict, spawns)
        }
    }
}

/// The spawns after a sweep at `now_us`: those due for respawn have come
/// back, the others are as they were.
pub open spec fn sweep_respawns(
    spawns: Map<u32, LootableSpawn>,
    types: Map<u32, LootableItemType>,
    now_us: i64,
) -> Map<u32, LootableSpawn> {
    Map::new(
        |id: u32| spawns.contains_key(id),
        |id: u32|
            if due_for_respawn(spawns[id], types, now_us) {
                respawned(spawns[id])
            } else {
                spawns[id]
            },
    )
}

/// The identifiers of the spawns that a sweep at `now_us` brings back.
pub open spec fn due_spawns(
    spawns: Map<u32, LootableSpawn>,
    types: Map<u32, LootableItemType>,
    now_us: i64,
) -> Set<u32> {
    Set::new(|id: u32| spawns.contains_key(id) && due_for_respawn(spawns[id], types, now_us))
}

/// Computes `loot_verdict`.
pub fn judge_loot(
    spawn: &LootableSpawn,
    item_type: &LootableItemType,
    actor_position: &DbVector3,
    now_us: i64,
) -> (r: Result<LootResult, LootRejection>)
    ensures
        r == loot_verdict(*spawn, *item_type, *actor_position, now_us),
{
    if actor_position.farther_than(&spawn.position, item_type.loot_distance) {
        return Err(LootRejection::OutOfRange);
    }
    if spawn.is_looted {
        let elapsed: i128 = now_us as i128 - spawn.looted_at_us as i128;
        if elapsed < item_type.respawn_time_us as i128 {
            let left: i128 = item_type.respawn_time_us as i128 - elapsed;
            let remaining_us: i64 = if left > i64::MAX as i128 {
                i64::MAX
            } else {
                left as i64
            };
            return Err(LootRejection::OnCooldown { remaining_us });
        }
    }
    Ok(LootResult { type_id: item_type.type_id, quantity_granted: item_type.quantity })
}

/// The verdict on an attempt to pick the spawn `spawn_id`, with nothing
/// changed.
pub fn judge_spawn(
    spawns: &Table<LootableSpawn>,
    types: &Table<LootableItemType>,
    spawn_id: u32,
    actor_position: &DbVector3,
    now_us: i64,
) -> (r: Result<LootResult, LootRejection>)
    ensures
        r == attempt_loot(spawns@, types@, spawn_id, *actor_position, now_us).0,
{
    let spawn = match spawns.find(&spawn_id) {
        Some(found) => found,
        None => {
            return Err(LootRejection::UnknownSpawn);
        },
    };
    let item_type = match types.find(&spawn.type_id) {
        Some(found) => found,
        None => {
            return Err(LootRejection::UnknownType);
        },
    };
    judge_loot(spawn, item_type, actor_position, now_us)
}

/// Marks the spawn `spawn_id` as picked at `now_us`.
fn mark_looted(spawns: &mut Table<LootableSpawn>, spawn_id: u32, now_us: i64)
    requires
        old(spawns)@.contains_key(spawn_id),
    ensures
        final(spawns)@ == old(spawns)@.insert(spawn_id, looted(old(spawns)@[spawn_id], now_us)),
{
    if let Some(found) = spawns.find(&spawn_id) {
        let mut spawn = *found;
        spawn.is_looted = true;
        spawn.looted_at_us = now_us;
        spawns.upsert(spawn);
    }
}

/// An actor at `actor_position` tries to pick the spawn `spawn_id` at
/// `now_us`.
pub fn loot_spawn(
    spawns: &mut Table<LootableSpawn>,
    types: &Table<LootableItemType>,
    spawn_id: u32,
    actor_position: &DbVector3,
    now_us: i64,
) -> (r: Result<LootResult, LootRejection>)
    ensures
        (r, final(spawns)@) == attempt_loot(
            old(spawns)@,
            types@,
            spawn_id,
            *actor_position,
            now_us,
        ),
{
    let loot = judge_spawn(spawns, types, spawn_id, actor_position, now_us)?;
    mark_looted(spawns, spawn_id, now_us);
    Ok(loot)
}

/// The caller tries to pick the spawn `spawn_id` at `now_us`, from where
/// its entity stands. What the pick gives goes into the caller's
/// inventory, if it has one. A refusal changes nothing.
pub fn lootable_loot(
    players: &Table<Player>,
    entities: &Table<Entity>,
    types: &Table<LootableItemType>,
    spawns: &mut Table<LootableSpawn>,
    inventories: &mut Table<Inventory>,
    sender: Identity,
    spawn_id: u32,
    now_us: i64,
) -> (r: Result<LootResult, LootRejection>)
    ensures
        r is Err ==> final(spawns)@ == old(spawns)@ && final(inventories)@ == old(inventories)@,
        !players@.contains_key(sender) ==> r == Err::<LootResult, LootRejection>(
            LootRejection::PlayerNotFound,
        ),
        players@.contains_key(sender) && !entities@.contains_key(players@[sender].entity_id)
            ==> r == Err::<LootResult, LootRejection>(LootRejection::EntityNotFound),
        players@.contains_key(sender) && entities@.contains_key(players@[sender].entity_id) ==> {
            let attempt = attempt_loot(
                old(spawns)@,
                types@,
                spawn_id,
                entities@[players@[sender].entity_id].position,
                now_us,
            );
            match attempt.0 {
                Err(rejection) => r == Err::<LootResult, LootRejection>(rejection),
                Ok(loot) => if old(inventories)@.contains_key(sender) && add_overflows(
                    old(inventories)@[sender].items@,
                    loot.type_id,
                    loot.quantity_granted,
                ) {
                    r == Err::<LootResult, LootRejection>(LootRejection::InventoryOverflow)
                } else {
                    &&& r == Ok::<LootResult, LootRejection>(loot)
                    &&& final(spawns)@ == attempt.1
                    &&& granted(
                        old(inventories)@,
                        final(inventories)@,
                        sender,
                        loot.type_id,
                        loot.quantity_granted,
                    )
                },
            }
        },
{
    let player = match players.find(&sender) {
        Some(found) => found,
        None => {
            return Err(LootRejection::PlayerNotFound);
        },
    };
    let player_entity = match entities.find(&player.entity_id) {
        Some(found) => found,
        None => {
            return Err(LootRejection::EntityNotFound);
        },
    };
    let loot = judge_spawn(spawns, types, spawn_id, &player_entity.position, now_us)?;
    match inventory_add_item_internal(inventories, sender, loot.type_id, loot.quantity_granted) {
        Ok(()) => {},
        Err(_) => {
            return Err(LootRejection::InventoryOverflow);
        },
    }
    mark_looted(spawns, spawn_id, now_us);
    Ok(loot)
}

/// Whether the spawn is due for respawn at `now_us`.
pub fn is_due(spawn: &LootableSpawn, types: &Table<LootableItemType>, now_us: i64) -> (r: bool)
    ensures
        r == due_for_respawn(*spawn, types@, now_us),
{
    if !spawn.is_looted {
        return false;
    }
    match types.find(&spawn.type_id) {
        Some(item_type) => {
            let elapsed: i128 = now_us as i128 - spawn.looted_at_us as i128;
            elapsed >= item_type.respawn_time_us as i128
        },
        None => false,
    }
}

/// Brings back every spawn whose cooldown has run at `now_us`, and says
/// how many came back.
pub fn lootable_check_respawns(
    spawns: &mut Table<LootableSpawn>,
    types: &Table<LootableItemType>,
    now_us: i64,
) -> (count: usize)
    ensures
        final(spawns)@ == sweep_respawns(old(spawns)@, types@, now_us),
        count == due_spawns(old(spawns)@, types@, now_us).len(),
{
    let ghost before = spawns.seq();
    let ghost mut seen: Set<u32> = Set::empty();
    let total: usize = spawns.rows().len();
    let mut count: usize = 0;
    let mut i: usize = 0;
    while i < total
        invariant
            i <= total,
            total == before.len(),
            distinct_keys(before),
            spawns.seq().len() == total,
            forall|j: int|
                0 <= j < i ==> #[trigger] spawns.seq()[j] == if due_for_respawn(
                    before[j],
                    types@,
                    now_us,
                ) {
                    respawned(before[j])
                } else {
                    before[j]
                },
            forall|j: int| i <= j < total ==> #[trigger] spawns.seq()[j] == before[j],
            seen.finite(),
            count == seen.len(),
            count <= i,
            forall|id: u32|
                seen.contains(id) <==> exists|j: int|
                    0 <= j < i && (#[trigger] before[j]).spawn_id == id && due_for_respawn(
                        before[j],
                        types@,
                        now_us,
                    ),
        decreases total - i,
    {
        let spawn: LootableSpawn = spawns.rows()[i];
        let ghost earlier = seen;
        if is_due(&spawn, types, now_us) {
            let mut back = spawn;
            back.is_looted = false;
            back.looted_at_us = 0;
            spawns.replace_at(i, back);
            proof {
                assert(!seen.contains(spawn.spawn_id)) by {
                    if seen.contains(spawn.spawn_id) {
                        let j = choose|j: int|
                            0 <= j < i && (#[trigger] before[j]).spawn_id == spawn.spawn_id
                                && due_for_respawn(before[j], types@, now_us);
                        assert(before[j].key() != before[i as int].key());
                    }
                }
                seen = seen.insert(spawn.spawn_id);
            }
            count += 1;
        }
        proof {
            assert forall|id: u32|
                seen.contains(id) <==> exists|j: int|
                    0 <= j < i + 1 && (#[trigger] before[j]).spawn_id == id && due_for_respawn(
                        before[j],
                        types@,
                        now_us,
                    ) by {
                if seen.contains(id) {
                    if earlier.contains(id) {
                        let j = choose|j: int|
                            0 <= j < i && (#[trigger] before[j]).spawn_id == id
                                && due_for_respawn(before[j], types@, now_us);
                        assert(0 <= j < i + 1 && before[j].spawn_id == id);
                    } else {
                        assert(before[i as int].spawn_id == id);
                    }
                }
                if exists|j: int|
                    0 <= j < i + 1 && (#[trigger] before[j]).spawn_id == id && due_for_respawn(
                        before[j],
                        types@,
                        now_us,
                    ) {
                    let j = choose|j: int|
                        0 <= j < i + 1 && (#[trigger] before[j]).spawn_id == id
                            && due_for_respawn(before[j], types@, now_us);
                    if j < i {
                        assert(earlier.contains(id));
                    }
                }
            }
        }
        i += 1;
    }
    proof {
        let after = spawns.seq();
        assert forall|j: int| 0 <= j < total implies (#[trigger] after[j]).key()
            == before[j].key() by {}
        assert(distinct_keys(after)) by {
            assert forall|a: int, b: int| 0 <= a < b < after.len() implies (#[trigger] after[a]).key()
                != (#[trigger] after[b]).key() by {
                assert(before[a].key() != before[b].key());
            }
        }
        let swept = sweep_respawns(keyed(before), types@, now_us);
        assert forall|id: u32| spawns@.contains_key(id) <==> swept.contains_key(id) by {
            if spawns@.contains_key(id) {
                lemma_keyed_entry(after, id);
                let j = index_of_key(after, id);
                assert(before[j].key() == id);
            }
            if swept.contains_key(id) {
                lemma_keyed_entry(before, id);
                let j = index_of_key(before, id);
                assert(after[j].key() == id);
            }
        }
        assert forall|id: u32| spawns@.contains_key(id) implies spawns@[id] == swept[id] by {
            lemma_keyed_entry(after, id);
            let j = index_of_key(after, id);
            assert(before[j].key() == id);
            lemma_keyed_row(before, j);
        }
        assert(spawns@ =~= swept);
        assert forall|id: u32|
            seen.contains(id) <==> due_spawns(keyed(before), types@, now_us).contains(
                id,
            ) by {
            if seen.contains(id) {
                let j = choose|j: int|
                    0 <= j < total && (#[trigger] before[j]).spawn_id == id && due_for_respawn(
                        before[j],
                        types@,
                        now_us,
                    );
                lemma_keyed_row(before, j);
            }
            if due_spawns(keyed(before), types@, now_us).contains(id) {
                lemma_keyed_entry(before, id);
                let j = index_of_key(before, id);
                assert(before[j].spawn_id == id);
            }
        }
        assert(seen =~= due_spawns(keyed(before), types@, now_us));
    }
    count
}

/// Whether `item_type` is the kind `type_id` with these properties.
pub open spec fn is_item_type(
    item_type: LootableItemType,
    type_id: u32,
    name: Seq<char>,
    description: Seq<char>,
    weight: i32,
    quantity: u32,
    respawn_time_us: i64,
    loot_distance: i32,
) -> bool {
    &&& item_type.type_id == type_id
    &&& item_type.name@ == name
    &&& item_type.description@ == description
    &&& item_type.weight == weight
    &&& item_type.quantity == quantity
    &&& item_type.respawn_time_us == respawn_time_us
    &&& item_type.loot_distance == loot_distance
}

/// A spawn of the kind `type_id` that has not been picked.
pub open spec fn new_spawn(
    spawn_id: u32,
    type_id: u32,
    position: DbVector3,
    rotation: DbVector3,
) -> LootableSpawn {
    LootableSpawn { spawn_id, type_id, position, rotation, is_looted: false, looted_at_us: 0 }
}

/// How long the kinds that every world starts with stay empty once picked.
pub const DEFAULT_RESPAWN_TIME_US: i64 = 30_000_000;

/// Where the branch of every new world lies.
pub const BRANCH_X: i32 = -220_333;

pub const BRANCH_Y: i32 = -29_700;

pub const BRANCH_Z: i32 = 254_894;

/// How far the branch is turned about the vertical axis.
pub const BRANCH_TURN: i32 = 86_239;

/// Where the rock of every new world lies.
pub const ROCK_X: i32 = -223_272;

pub const ROCK_Y: i32 = -29_753;

pub const ROCK_Z: i32 = 254_475;

/// How far the rock is turned about the depth axis.
pub const ROCK_TURN: i32 = -90_000;

/// The branch of every new world, not picked.
pub open spec fn default_branch_spawn(spawn_id: u32) -> LootableSpawn {
    new_spawn(
        spawn_id,
        0,
        DbVector3 { x: BRANCH_X, y: BRANCH_Y, z: BRANCH_Z },
        DbVector3 { x: 0, y: BRANCH_TURN, z: 0 },
    )
}

/// The rock of every new world, not picked.
pub open spec fn default_rock_spawn(spawn_id: u32) -> LootableSpawn {
    new_spawn(
        spawn_id,
        1,
        DbVector3 { x: ROCK_X, y: ROCK_Y, z: ROCK_Z },
        DbVector3 { x: 0, y: 0, z: ROCK_TURN },
    )
}

/// Whether `after` is `before` with the three kinds that every world
/// starts with.
pub open spec fn default_types_added(
    before: Map<u32, LootableItemType>,
    after: Map<u32, LootableItemType>,
) -> bool {
    &&& after.dom() == before.dom().insert(0).insert(1).insert(2)
    &&& forall|id: u32| before.contains_key(id) ==> after[id] == before[id]
    &&& is_item_type(
        after[0],
        0,
        "Branch"@,
        "A fallen tree branch. Useful for crafting."@,
        500,
        5,
        DEFAULT_RESPAWN_TIME_US,
        1_500,
    )
    &&& is_item_type(
        after[1],
        1,
        "Rock"@,
        "A small stone. Can be used for tools or building."@,
        1_000,
        5,
        DEFAULT_RESPAWN_TIME_US,
        1_500,
    )
    &&& is_item_type(
        after[2],
        2,
        "Tree"@,
        "A harvestable tree. Provides wood for construction."@,
        2_000,
        15,
        DEFAULT_RESPAWN_TIME_US,
        2_500,
    )
}

/// The spawns with the branch and the rock of every new world, under the
/// next two identifiers.
pub open spec fn with_default_spawns(spawns: Map<u32, LootableSpawn>) -> Map<u32, LootableSpawn> {
    let branch = next_key(spawns);
    let rock = (branch + 1) as u32;
    spawns.insert(branch, default_branch_spawn(branch)).insert(rock, default_rock_spawn(rock))
}

/// Whether the spawns have fewer than two identifiers left.
pub open spec fn spawn_ids_short(spawns: Map<u32, LootableSpawn>) -> bool {
    spawns.contains_key(u32::MAX) || spawns.contains_key((u32::MAX - 1) as u32)
}

/// Whether one of the kinds that every world starts with is defined.
pub open spec fn default_type_defined(types: Map<u32, LootableItemType>) -> bool {
    types.contains_key(0) || types.contains_key(1) || types.contains_key(2)
}

/// Defines the three kinds that every world starts with, and puts a
/// branch and a rock into the world. Nothing changes where one of the
/// kinds is already defined or the spawns have fewer than two identifiers
/// left.
pub fn lootable_item_type_init(
    types: &mut Table<LootableItemType>,
    spawns: &mut Table<LootableSpawn>,
) -> (r: Result<(), LootableError>)
    ensures
        r is Err ==> final(types)@ == old(types)@ && final(spawns)@ == old(spawns)@,
        r is Err ==> r == if default_type_defined(old(types)@) {
            Err::<(), LootableError>(LootableError::TypeExists)
        } else {
            Err(LootableError::IdsExhausted)
        },
        r is Err <==> default_type_defined(old(types)@) || spawn_ids_short(old(spawns)@),
        r is Ok ==> {
            &&& default_types_added(old(types)@, final(types)@)
            &&& final(spawns)@ == with_default_spawns(old(spawns)@)
        },
{
    if types.find(&0).is_some() || types.find(&1).is_some() || types.find(&2).is_some() {
        return Err(LootableError::TypeExists);
    }
    let branch: u32 = match spawns.fresh_key() {
        Some(id) => id,
        None => {
            return Err(LootableError::IdsExhausted);
        },
    };
    if branch == u32::MAX {
        return Err(LootableError::IdsExhausted);
    }
    let rock: u32 = branch + 1;
    types.insert(
        LootableItemType {
            type_id: 0,
            name: "Branch".to_owned(),
            description: "A fallen tree branch. Useful for crafting.".to_owned(),
            weight: 500,
            quantity: 5,
            respawn_time_us: DEFAULT_RESPAWN_TIME_US,
            loot_distance: 1_500,
        },
    );
    types.insert(
        LootableItemType {
            type_id: 1,
            name: "Rock".to_owned(),
            description: "A small stone. Can be used for tools or building.".to_owned(),
            weight: 1_000,
            quantity: 5,
            respawn_time_us: DEFAULT_RESPAWN_TIME_US,
            loot_distance: 1_500,
        },
    );
    types.insert(
        LootableItemType {
            type_id: 2,
            name: "Tree".to_owned(),
            description: "A harvestable tree. Provides wood for construction.".to_owned(),
            weight: 2_000,
            quantity: 15,
            respawn_time_us: DEFAULT_RESPAWN_TIME_US,
            loot_distance: 2_500,
        },
    );
    spawns.insert(
        LootableSpawn {
            spawn_id: branch,
            type_id: 0,
            position: DbVector3 { x: BRANCH_X, y: BRANCH_Y, z: BRANCH_Z },
            rotation: DbVector3 { x: 0, y: BRANCH_TURN, z: 0 },
            is_looted: false,
            looted_at_us: 0,
        },
    );
    spawns.insert(
        LootableSpawn {
            spawn_id: rock,
            type_id: 1,
            position: DbVector3 { x: ROCK_X, y: ROCK_Y, z: ROCK_Z },
            rotation: DbVector3 { x: 0, y: 0, z: ROCK_TURN },
            is_looted: false,
            looted_at_us: 0,
        },
    );
    Ok(())
}

/// An administrator defines a kind. The respawn time is given in
/// thousandths of a second.
pub fn lootable_create_type(
    admins: &Table<Admin>,
    types: &mut Table<LootableItemType>,
    sender: Identity,
    type_id: u32,
    name: String,
    description: String,
    weight: i32,
    quantity: u32,
    respawn_time_seconds: i32,
    loot_distance: i32,
) -> (r: Result<(), LootableError>)
    ensures
        r == if !admins@.contains_key(sender) {
            Err::<(), LootableError>(LootableError::Unauthorized)
        } else if old(types)@.contains_key(type_id) {
            Err(LootableError::TypeExists)
        } else {
            Ok(())
        },
        r is Err ==> final(types)@ == old(types)@,
        r is Ok ==> final(types)@ == old(types)@.insert(
            type_id,
            LootableItemType {
                type_id,
                name,
                description,
                weight,
                quantity,
                respawn_time_us: (respawn_time_seconds * 1000) as i64,
                loot_distance,
            },
        ),
{
    if !is_admin(admins, sender) {
        return Err(LootableError::Unauthorized);
    }
    let respawn_time_us: i64 = respawn_time_seconds as i64 * 1000;
    let item_type = LootableItemType {
        type_id,
        name,
        description,
        weight,
        quantity,
        respawn_time_us,
        loot_distance,
    };
    if types.insert(item_type) {
        Ok(())
    } else {
        Err(LootableError::TypeExists)
    }
}

/// An administrator puts a thing of a defined kind into the world, and
/// learns the identifier of its spawn.
pub fn lootable_create_spawn(
    admins: &Table<Admin>,
    types: &Table<LootableItemType>,
    spawns: &mut Table<LootableSpawn>,
    sender: Identity,
    type_id: u32,
    position: DbVector3,
    rotation: DbVector3,
) -> (r: Result<u32, LootableError>)
    ensures
        r is Err ==> final(spawns)@ == old(spawns)@ && r == if !admins@.contains_key(sender) {
            Err::<u32, LootableError>(LootableError::Unauthorized)
        } else if !types@.contains_key(type_id) {
            Err(LootableError::UnknownType)
        } else {
            Err(LootableError::IdsExhausted)
        },
        r is Ok <==> admins@.contains_key(sender) && types@.contains_key(type_id) && !old(spawns)@.contains_key(u32::MAX),
        r matches Ok(spawn_id) ==> spawn_id == next_key(old(spawns)@) && final(spawns)@ == old(
            spawns,
        )@.insert(spawn_id, new_spawn(spawn_id, type_id, position, rotation)),
{
    if !is_admin(admins, sender) {
        return Err(LootableError::Unauthorized);
    }
    if types.find(&type_id).is_none() {
        return Err(LootableError::UnknownType);
    }
    let spawn_id: u32 = match spawns.fresh_key() {
        Some(id) => id,
        None => {
            return Err(LootableError::IdsExhausted);
        },
    };
    spawns.insert(
        LootableSpawn { spawn_id, type_id, position, rotation, is_looted: false, looted_at_us: 0 },
    );
    Ok(spawn_id)
}

/// Takes the spawn `spawn_id` out of the world.
pub fn lootable_delete_spawn(spawns: &mut Table<LootableSpawn>, spawn_id: u32) -> (r: Result<
    (),
    LootableError,
>)
    ensures
        r == if old(spawns)@.contains_key(spawn_id) {
            Ok::<(), LootableError>(())
        } else {
            Err(LootableError::UnknownSpawn)
        },
        final(spawns)@ == old(spawns)@.remove(spawn_id),
{
    match spawns.remove(&spawn_id) {
        Some(_) => Ok(()),
        None => Err(LootableError::UnknownSpawn),
    }
}

/// The spawns without those of the kind `type_id`.
pub open spec fn without_type(spawns: Map<u32, LootableSpawn>, type_id: u32) -> Map<
    u32,
    LootableSpawn,
> {
    Map::new(
        |id: u32| spawns.contains_key(id) && spawns[id].type_id != type_id,
        |id: u32| spawns[id],
    )
}

/// Takes every spawn of the kind `type_id` out of the world, and says how
/// many there were.
pub fn lootable_delete_all_spawns_of_type(spawns: &mut Table<LootableSpawn>, type_id: u32) -> (count:
    usize)
    ensures
        final(spawns)@ == without_type(old(spawns)@, type_id),
        count == old(spawns)@.dom().len() - final(spawns)@.dom().len(),
{
    let ghost before = spawns@;
    let total: usize = spawns.len();
    let mut count: usize = 0;
    let mut i: usize = 0;
    while i < spawns.len()
        invariant
            i <= spawns.seq().len(),
            count == total - spawns.seq().len(),
            forall|j: int| 0 <= j < i ==> (#[trigger] spawns.seq()[j]).type_id != type_id,
            forall|id: u32| #[trigger]
                spawns@.contains_key(id) ==> before.contains_key(id) && spawns@[id] == before[id],
            forall|id: u32|
                #![trigger before.contains_key(id)]
                before.contains_key(id) && before[id].type_id != type_id
                    ==> spawns@.contains_key(id),
        decreases spawns.seq().len() - i,
    {
        if spawns.rows()[i].type_id == type_id {
            spawns.remove_at(i);
            count += 1;
        } else {
            i += 1;
        }
    }
    proof {
        let rows = spawns.seq();
        assert forall|id: u32| spawns@.contains_key(id) implies spawns@[id].type_id
            != type_id by {
            lemma_keyed_entry(rows, id);
        }
        assert(spawns@ =~= without_type(before, type_id));
    }
    count
}

/// A spawn that is not picked, of a defined kind and within the actor's
/// reach, can be picked: the attempt gives what the kind grants, and the
/// spawn is then picked at `now_us`.
pub proof fn unpicked_spawn_can_be_looted(
    spawns: Map<u32, LootableSpawn>,
    types: Map<u32, LootableItemType>,
    spawn_id: u32,
    actor_position: DbVector3,
    now_us: i64,
)
    requires
        spawns.contains_key(spawn_id),
        !spawns[spawn_id].is_looted,
        types.contains_key(spawns[spawn_id].type_id),
        !longer_than(
            actor_position.distance_squared(spawns[spawn_id].position),
            types[spawns[spawn_id].type_id].loot_distance as int,
        ),
    ensures
        ({
            let attempt = attempt_loot(spawns, types, spawn_id, actor_position, now_us);
            let item_type = types[spawns[spawn_id].type_id];
            &&& attempt.0 == Ok::<LootResult, LootRejection>(
                LootResult { type_id: item_type.type_id, quantity_granted: item_type.quantity },
            )
            &&& attempt.1 == spawns.insert(spawn_id, looted(spawns[spawn_id], now_us))
            &&& attempt.1[spawn_id].is_looted
            &&& attempt.1[spawn_id].looted_at_us == now_us
        }),
{
}

/// The cooldown is inclusive. After a successful pick at `now_us`, an
/// attempt by the same actor at `later_us` succeeds if and only if at
/// least the respawn time of the kind has passed. Otherwise it is refused
/// as on cooldown, with the time that is left; so an attempt at `now_us`
/// itself is refused with the whole respawn time left, where that is
/// positive.
pub proof fn cooldown_is_inclusive(
    spawns: Map<u32, LootableSpawn>,
    types: Map<u32, LootableItemType>,
    spawn_id: u32,
    actor_position: DbVector3,
    now_us: i64,
    later_us: i64,
)
    requires
        attempt_loot(spawns, types, spawn_id, actor_position, now_us).0 is Ok,
    ensures
        ({
            let picked = attempt_loot(spawns, types, spawn_id, actor_position, now_us).1;
            let respawn_time_us = types[spawns[spawn_id].type_id].respawn_time_us;
            let again = attempt_loot(picked, types, spawn_id, actor_position, later_us);
            &&& again.0 is Ok <==> later_us - now_us >= respawn_time_us
            &&& again.0 is Err ==> again.1 == picked && again.0 == Err::<
                LootResult,
                LootRejection,
            >(
                LootRejection::OnCooldown {
                    remaining_us: cooldown_left(picked[spawn_id], respawn_time_us, later_us) as i64,
                },
            )
            &&& later_us == now_us && respawn_time_us > 0 ==> again.0 == Err::<
                LootResult,
                LootRejection,
            >(LootRejection::OnCooldown { remaining_us: respawn_time_us })
        }),
{
}

/// A sweep keeps the identifiers, brings back exactly the spawns that are
/// due, and leaves every other spawn as it was.
pub proof fn sweep_resets_exactly_the_due(
    spawns: Map<u32, LootableSpawn>,
    types: Map<u32, LootableItemType>,
    now_us: i64,
)
    ensures
        sweep_respawns(spawns, types, now_us).dom() == spawns.dom(),
        forall|id: u32|
            spawns.contains_key(id) && due_for_respawn(spawns[id], types, now_us)
                ==> #[trigger] sweep_respawns(spawns, types, now_us)[id] == respawned(spawns[id]),
        forall|id: u32|
            spawns.contains_key(id) && !due_for_respawn(spawns[id], types, now_us)
                ==> #[trigger] sweep_respawns(spawns, types, now_us)[id] == spawns[id],
{
    assert(sweep_respawns(spawns, types, now_us).dom() =~= spawns.dom());
}

/// A sweep before any cooldown has run changes nothing.
pub proof fn sweep_before_cooldown_changes_nothing(
    spawns: Map<u32, LootableSpawn>,
    types: Map<u32, LootableItemType>,
    now_us: i64,
)
    requires
        forall|id: u32|
            spawns.contains_key(id) ==> !due_for_respawn(#[trigger] spawns[id], types, now_us),
    ensures
        sweep_respawns(spawns, types, now_us) == spawns,
        due_spawns(spawns, types, now_us) == Set::<u32>::empty(),
{
    assert(sweep_respawns(spawns, types, now_us) =~= spawns);
    assert(due_spawns(spawns, types, now_us) =~= Set::<u32>::empty());
}

/// A second sweep at the same time changes nothing.
pub proof fn sweep_is_idempotent(
    spawns: Map<u32, LootableSpawn>,
    types: Map<u32, LootableItemType>,
    now_us: i64,
)
    ensures
        sweep_respawns(sweep_respawns(spawns, types, now_us), types, now_us) == sweep_respawns(
            spawns,
            types,
            now_us,
        ),
{
    assert(sweep_respawns(sweep_respawns(spawns, types, now_us), types, now_us)
        =~= sweep_respawns(spawns, types, now_us));
}

/// The sweep and the check at a pick agree on when a cooldown has run: a
/// picked spawn of a defined kind is due for respawn exactly when it is no
/// longer on cooldown, so a sweep never changes the verdict on an attempt.
pub proof fn sweep_agrees_with_attempt(
    spawns: Map<u32, LootableSpawn>,
    types: Map<u32, LootableItemType>,
    spawn_id: u32,
    actor_position: DbVector3,
    now_us: i64,
)
    ensures
        spawns.contains_key(spawn_id) && spawns[spawn_id].is_looted && types.contains_key(
            spawns[spawn_id].type_id,
        ) ==> (due_for_respawn(spawns[spawn_id], types, now_us) <==> !on_cooldown(
            spawns[spawn_id],
            types[spawns[spawn_id].type_id].respawn_time_us,
            now_us,
        )),
        attempt_loot(
            sweep_respawns(spawns, types, now_us),
            types,
            spawn_id,
            actor_position,
            now_us,
        ).0 == attempt_loot(spawns, types, spawn_id, actor_position, now_us).0,
{
}

} // verus!
