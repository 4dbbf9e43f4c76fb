use crate::entity::{entity_create, new_entity, Entity};
use crate::inventory::{inventory_create, Inventory, ItemRef, DEFAULT_INVENTORY_SIZE};
use crate::navmesh::{is_position_valid, is_walkable, NavMeshConfig, NavMeshGrid};
use crate::store::{distinct_keys, lemma_keyed_entry, lemma_keyed_row, next_key, Record, Table};
use crate::types::{longer_than, square, DbVector2, DbVector3, Identity};
use crate::world_spawn::WorldSpawn;
use vstd::prelude::*;

verus! {

/// Updates that follow the one before by no more than this many
/// microseconds are not held to the speed budget.
pub const MIN_TIME_DELTA_US: i64 = 50_000;

/// How a player's body is animated.
#[derive(Clone, Copy, Debug, PartialEq, Eq, Structural)]
pub struct DbAnimationState {
    pub horizontal_movement: i32,
    pub vertical_movement: i32,
    pub combo_count: u32,
    pub is_moving: bool,
    pub is_grounded: bool,
    pub is_jumping: bool,
    pub is_attacking: bool,
}

/// A connected or once-connected client, with the bookkeeping by which its
/// movement is judged.
#[derive(Clone, Copy, Debug, PartialEq, Eq, Structural)]
pub struct Player {
    pub identity: Identity,
    pub player_id: u32,
    pub entity_id: u32,
    pub online: bool,
    pub look_direction: DbVector2,
    pub animation_state: DbAnimationState,
    /// The most recent position that was accepted.
    pub last_valid_position: DbVector3,
    /// When that position was accepted, in microseconds.
    pub last_update_timestamp: i64,
    /// Largest speed, in thousandths of a unit per second.
    pub movement_speed: i32,
    pub interaction_range: i32,
    pub reconciliation_safety_margin: i32,
}

impl Record for Player {
    type Key = Identity;

    open spec fn key(&self) -> Identity {
        self.identity
    }

    fn key_of(&self) -> (key: Identity) {
        self.identity
    }

    fn has_key(&self, key: &Identity) -> (r: bool) {
        self.identity == *key
    }
}

/// Why a reported movement was not taken over.
#[derive(Clone, Copy, Debug, PartialEq, Eq, Structural)]
pub enum MovementRejection {
    PlayerNotFound,
    EntityNotFound,
    /// The position is not near any walkable sample.
    InvalidSurface,
    /// The position is farther from the last one than the speed budget
    /// allows in the time that passed.
    SpeedViolation,
}

/// Whether moving from `from` to `to` in `elapsed_us` microseconds is
/// faster than a quarter above `movement_speed`. Only the ground plane
/// counts. With `d` the distance, `d / (elapsed_us / 1e6) > 1.25 * speed`
/// is `4e6 * d > 5 * speed * elapsed_us`, and the left side squared is
/// `16e12 * d^2`.
pub open spec fn over_speed_budget(
    from: DbVector3,
    to: DbVector3,
    movement_speed: i32,
    elapsed_us: int,
) -> bool {
    longer_than(
        16_000_000_000_000 * to.horizontal_distance_squared(from),
        5 * movement_speed * elapsed_us,
    )
}

/// Whether the update is held to the speed budget and breaks it.
pub open spec fn speed_violation(
    from: DbVector3,
    to: DbVector3,
    movement_speed: i32,
    last_us: i64,
    now_us: i64,
) -> bool {
    now_us - last_us > MIN_TIME_DELTA_US && over_speed_budget(
        from,
        to,
        movement_speed,
        now_us - last_us,
    )
}

/// Computes `speed_violation`.
pub fn violates_speed(
    from: &DbVector3,
    to: &DbVector3,
    movement_speed: i32,
    last_us: i64,
    now_us: i64,
) -> (r: bool)
    ensures
        r == speed_violation(*from, *to, movement_speed, last_us, now_us),
{
    let elapsed: i128 = now_us as i128 - last_us as i128;
    if elapsed <= MIN_TIME_DELTA_US as i128 {
        return false;
    }
    assert(-0x2_8000_0000 <= 5 * movement_speed <= 0x2_8000_0000);
    let pace: i128 = 5 * (movement_speed as i128);
    assert(-0x2_8000_0000 * 0x1_0000_0000_0000_0000 <= pace * elapsed <= 0x2_8000_0000
        * 0x1_0000_0000_0000_0000) by (nonlinear_arith)
        requires
            -0x2_8000_0000 <= pace <= 0x2_8000_0000,
            0 < elapsed <= 0x1_0000_0000_0000_0000,
    ;
    let budget: i128 = pace * elapsed;
    assert(budget == 5 * movement_speed * (now_us - last_us)) by (nonlinear_arith)
        requires
            budget == pace * elapsed,
            pace == 5 * movement_speed,
            elapsed == now_us - last_us,
    ;
    if budget < 0 {
        return true;
    }
    let moved: u128 = to.squared_horizontal_distance(from);
    let scaled: u128 = 16_000_000_000_000 * moved;
    if budget >= 0x80_0000_0000_0000 {
        assert(budget * budget >= 0x80_0000_0000_0000 * 0x80_0000_0000_0000) by (nonlinear_arith)
            requires
                budget >= 0x80_0000_0000_0000,
        ;
        return false;
    }
    let limit: u128 = budget as u128;
    assert(limit * limit < 0x80_0000_0000_0000 * 0x80_0000_0000_0000) by (nonlinear_arith)
        requires
            limit < 0x80_0000_0000_0000,
    ;
    scaled > limit * limit
}

/// What a reported position does: the verdict, and the players and
/// entities after it. A rejected position sets the body back to the last
/// valid position and leaves the bookkeeping as it was; an accepted one
/// becomes the body's position and the last valid one, at time `now_us`.
pub open spec fn apply_position(
    players: Map<Identity, Player>,
    entities: Map<u32, Entity>,
    walkable: bool,
    sender: Identity,
    position: DbVector3,
    now_us: i64,
) -> (Result<(), MovementRejection>, Map<Identity, Player>, Map<u32, Entity>) {
    if !players.contains_key(sender) {
        (Err(MovementRejection::PlayerNotFound), players, entities)
    } else if !entities.contains_key(players[sender].entity_id) {
        (Err(MovementRejection::EntityNotFound), players, entities)
    } else {
        let player = players[sender];
        let entity = entities[player.entity_id];
        let set_back = entities.insert(
            player.entity_id,
            Entity { position: player.last_valid_position, ..entity },
        );
        if !walkable {
            (Err(MovementRejection::InvalidSurface), players, set_back)
        } else if speed_violation(
            entity.position,
            position,
            player.movement_speed,
            player.last_update_timestamp,
            now_us,
        ) {
            (Err(MovementRejection::SpeedViolation), players, set_back)
        } else {
            (
                Ok(()),
                players.insert(
                    sender,
                    Player {
                        last_valid_position: position,
                        last_update_timestamp: now_us,
                        ..player
                    },
                ),
                entities.insert(player.entity_id, Entity { position, ..entity }),
            )
        }
    }
}

/// Judges the position that `sender` reports at time `now_us`, and takes
/// it over or sets the body back.
pub fn player_set_position(
    players: &mut Table<Player>,
    entities: &mut Table<Entity>,
    config: &Table<NavMeshConfig>,
    grid: &Table<NavMeshGrid>,
    sender: Identity,
    position: DbVector3,
    now_us: i64,
) -> (r: Result<(), MovementRejection>)
    ensures
        (r, final(players)@, final(entities)@) == apply_position(
            old(players)@,
            old(entities)@,
            is_walkable(config@, grid@, position),
            sender,
            position,
            now_us,
        ),
{
    let mut player = match players.find(&sender) {
        Some(found) => *found,
        None => {
            return Err(MovementRejection::PlayerNotFound);
        },
    };
    let mut entity = match entities.find(&player.entity_id) {
        Some(found) => *found,
        None => {
            return Err(MovementRejection::EntityNotFound);
        },
    };
    if !is_position_valid(config, grid, position.x, position.y, position.z) {
        entity.position = player.last_valid_position;
        entities.upsert(entity);
        return Err(MovementRejection::InvalidSurface);
    }
    if violates_speed(
        &entity.position,
        &position,
        player.movement_speed,
        player.last_update_timestamp,
        now_us,
    ) {
        entity.position = player.last_valid_position;
        entities.upsert(entity);
        return Err(MovementRejection::SpeedViolation);
    }
    entity.position = position;
    player.last_valid_position = position;
    player.last_update_timestamp = now_us;
    entities.upsert(entity);
    players.upsert(player);
    Ok(())
}

/// Why a player could not be brought into the world.
#[derive(Clone, Copy, Debug, PartialEq, Eq, Structural)]
pub enum PlayerError {
    /// The identity already has a player.
    PlayerExists,
    /// The identity has an inventory though it has no player.
    InventoryExists,
    /// Every identifier for entities, or for players, is in use.
    IdsExhausted,
}

/// The largest speed of a new player.
pub const DEFAULT_MOVEMENT_SPEED: i32 = 6_000;

/// How far a new player reaches.
pub const DEFAULT_INTERACTION_RANGE: i32 = 3_000;

/// The safety margin of a new player.
pub const DEFAULT_SAFETY_MARGIN: i32 = 1_500;

/// The player that `identity` gets with its first entity.
pub open spec fn new_player(identity: Identity, player_id: u32, entity: Entity, now_us: i64) -> Player {
    Player {
        identity,
        player_id,
        entity_id: entity.entity_id,
        online: true,
        look_direction: DbVector2 { x: 0, y: 0 },
        animation_state: DbAnimationState {
            horizontal_movement: 0,
            vertical_movement: 0,
            combo_count: 0,
            is_moving: false,
            is_grounded: false,
            is_jumping: false,
            is_attacking: false,
        },
        last_valid_position: entity.position,
        last_update_timestamp: now_us,
        movement_speed: DEFAULT_MOVEMENT_SPEED,
        interaction_range: DEFAULT_INTERACTION_RANGE,
        reconciliation_safety_margin: DEFAULT_SAFETY_MARGIN,
    }
}

/// Whether `player_id` is the number that follows the largest player
/// number in use, or 1 where no positive number is in use.
pub open spec fn follows_player_ids(players: Map<Identity, Player>, player_id: u32) -> bool {
    &&& player_id >= 1
    &&& forall|identity: Identity|
        players.contains_key(identity) ==> (#[trigger] players[identity]).player_id < player_id
    &&& player_id == 1 || exists|identity: Identity|
        players.contains_key(identity) && (#[trigger] players[identity]).player_id == player_id
            - 1
}

/// The number for a new player: the one that follows the numbers in use.
pub open spec fn next_player_id(players: Map<Identity, Player>) -> u32 {
    choose|player_id: u32| follows_player_ids(players, player_id)
}

/// Only one number follows the player numbers in use.
pub proof fn lemma_next_player_id(players: Map<Identity, Player>, player_id: u32)
    requires
        follows_player_ids(players, player_id),
    ensures
        next_player_id(players) == player_id,
{
    let other = next_player_id(players);
    assert(follows_player_ids(players, other));
    if other < player_id {
        let identity = choose|identity: Identity|
            players.contains_key(identity) && (#[trigger] players[identity]).player_id
                == player_id - 1;
        assert(players[identity].player_id < other);
    } else if player_id < other {
        let identity = choose|identity: Identity|
            players.contains_key(identity) && (#[trigger] players[identity]).player_id == other
                - 1;
        assert(players[identity].player_id < player_id);
    }
}

/// Whether some player has the largest number that a player can have.
pub open spec fn player_ids_exhausted(players: Map<Identity, Player>) -> bool {
    exists|identity: Identity|
        players.contains_key(identity) && (#[trigger] players[identity]).player_id == u32::MAX
}

/// The number for a new player, or `None` where none is left.
pub fn fresh_player_id(players: &Table<Player>) -> (r: Option<u32>)
    ensures
        r is None <==> player_ids_exhausted(players@),
        r matches Some(player_id) ==> player_id == next_player_id(players@),
{
    let rows = players.rows();
    let mut largest: u32 = 0;
    let mut i: usize = 0;
    while i < rows.len()
        invariant
            i <= rows.len(),
            rows@ == players.seq(),
            distinct_keys(rows@),
            forall|j: int| 0 <= j < i ==> (#[trigger] rows@[j]).player_id <= largest,
            largest == 0 || exists|identity: Identity|
                players@.contains_key(identity) && (#[trigger] players@[identity]).player_id
                    == largest,
        decreases rows.len() - i,
    {
        if rows[i].player_id > largest {
            proof {
                lemma_keyed_row(rows@, i as int);
                let identity = rows@[i as int].identity;
                assert(players@.contains_key(identity) && players@[identity].player_id
                    == rows@[i as int].player_id);
            }
            largest = rows[i].player_id;
        }
        i += 1;
    }
    proof {
        assert forall|identity: Identity| players@.contains_key(identity) implies (
        #[trigger] players@[identity]).player_id <= largest by {
            lemma_keyed_entry(rows@, identity);
        }
    }
    if largest == u32::MAX {
        None
    } else {
        proof {
            lemma_next_player_id(players@, (largest + 1) as u32);
        }
        Some(largest + 1)
    }
}

/// The players and entities once `sender` has come into the world: a new
/// entity under the next identifier, and a player with the next number.
pub open spec fn with_new_player(
    players: Map<Identity, Player>,
    entities: Map<u32, Entity>,
    spawns: Map<u32, WorldSpawn>,
    sender: Identity,
    now_us: i64,
) -> (Map<Identity, Player>, Map<u32, Entity>) {
    let entity = new_entity(spawns, next_key(entities));
    (
        players.insert(sender, new_player(sender, next_player_id(players), entity, now_us)),
        entities.insert(entity.entity_id, entity),
    )
}

/// Brings the caller into the world: a new entity, and a player that
/// stands where the entity does. A refusal changes nothing.
pub fn player_create(
    players: &mut Table<Player>,
    entities: &mut Table<Entity>,
    spawns: &Table<WorldSpawn>,
    sender: Identity,
    now_us: i64,
) -> (r: Result<(), PlayerError>)
    ensures
        r == if old(players)@.contains_key(sender) {
            Err::<(), PlayerError>(PlayerError::PlayerExists)
        } else if old(entities)@.contains_key(u32::MAX) || player_ids_exhausted(old(players)@) {
            Err(PlayerError::IdsExhausted)
        } else {
            Ok(())
        },
        r is Err ==> final(players)@ == old(players)@ && final(entities)@ == old(entities)@,
        r is Ok ==> (final(players)@, final(entities)@) == with_new_player(
            old(players)@,
            old(entities)@,
            spawns@,
            sender,
            now_us,
        ),
{
    if players.find(&sender).is_some() {
        return Err(PlayerError::PlayerExists);
    }
    if entities.find(&u32::MAX).is_some() {
        return Err(PlayerError::IdsExhausted);
    }
    let player_id: u32 = match fresh_player_id(players) {
        Some(id) => id,
        None => {
            return Err(PlayerError::IdsExhausted);
        },
    };
    let entity = match entity_create(entities, spawns) {
        Ok(created) => created,
        Err(_) => {
            return Err(PlayerError::IdsExhausted);
        },
    };
    let player = Player {
        identity: sender,
        player_id,
        entity_id: entity.entity_id,
        online: true,
        look_direction: DbVector2 { x: 0, y: 0 },
        animation_state: DbAnimationState {
            horizontal_movement: 0,
            vertical_movement: 0,
            combo_count: 0,
            is_moving: false,
            is_grounded: false,
            is_jumping: false,
            is_attacking: false,
        },
        last_valid_position: entity.position,
        last_update_timestamp: now_us,
        movement_speed: DEFAULT_MOVEMENT_SPEED,
        interaction_range: DEFAULT_INTERACTION_RANGE,
        reconciliation_safety_margin: DEFAULT_SAFETY_MARGIN,
    };
    players.insert(player);
    Ok(())
}

/// The players once `sender`, if it has a player, is online or not.
pub open spec fn with_online_status(
    players: Map<Identity, Player>,
    sender: Identity,
    online: bool,
) -> Map<Identity, Player> {
    if players.contains_key(sender) {
        players.insert(sender, Player { online, ..players[sender] })
    } else {
        players
    }
}

/// Notes whether the caller is online, if it has a player.
pub fn player_set_online_status(players: &mut Table<Player>, sender: Identity, online: bool)
    ensures
        final(players)@ == with_online_status(old(players)@, sender, online),
{
    if let Some(found) = players.find(&sender) {
        let mut player = *found;
        player.online = online;
        players.upsert(player);
    }
}

/// A client has connected: its player is online again, or it gets a
/// player, an entity and an empty inventory. A refusal changes nothing.
pub fn player_connected(
    players: &mut Table<Player>,
    entities: &mut Table<Entity>,
    inventories: &mut Table<Inventory>,
    spawns: &Table<WorldSpawn>,
    sender: Identity,
    now_us: i64,
) -> (r: Result<(), PlayerError>)
    ensures
        old(players)@.contains_key(sender) ==> {
            &&& r is Ok
            &&& final(players)@ == with_online_status(old(players)@, sender, true)
            &&& final(entities)@ == old(entities)@
            &&& final(inventories)@ == old(inventories)@
        },
        !old(players)@.contains_key(sender) ==> {
            &&& r == if old(inventories)@.contains_key(sender) {
                Err::<(), PlayerError>(PlayerError::InventoryExists)
            } else if old(entities)@.contains_key(u32::MAX) || player_ids_exhausted(
                old(players)@,
            ) {
                Err(PlayerError::IdsExhausted)
            } else {
                Ok(())
            }
            &&& r is Err ==> final(players)@ == old(players)@ && final(entities)@ == old(entities)@ && final(inventories)@ == old(inventories)@
            &&& r is Ok ==> {
                &&& (final(players)@, final(entities)@) == with_new_player(
                    old(players)@,
                    old(entities)@,
                    spawns@,
                    sender,
                    now_us,
                )
                &&& final(inventories)@.dom() == old(inventories)@.dom().insert(sender)
                &&& forall|other: Identity|
                    old(inventories)@.contains_key(other) ==> final(inventories)@[other] == old(inventories)@[other]
                &&& final(inventories)@[sender].identity == sender
                &&& final(inventories)@[sender].size == DEFAULT_INVENTORY_SIZE
                &&& final(inventories)@[sender].items@ == Seq::<ItemRef>::empty()
            }
        },
{
    if players.find(&sender).is_some() {
        player_set_online_status(players, sender, true);
        return Ok(());
    }
    if inventories.find(&sender).is_some() {
        return Err(PlayerError::InventoryExists);
    }
    player_create(players, entities, spawns, sender, now_us)?;
    match inventory_create(inventories, sender) {
        Ok(()) => Ok(()),
        Err(_) => Err(PlayerError::InventoryExists),
    }
}

/// What a reported rotation does: the verdict and the entities after it.
pub open spec fn apply_rotation(
    players: Map<Identity, Player>,
    entities: Map<u32, Entity>,
    sender: Identity,
    rotation: DbVector3,
) -> (Result<(), MovementRejection>, Map<u32, Entity>) {
    if !players.contains_key(sender) {
        (Err(MovementRejection::PlayerNotFound), entities)
    } else if !entities.contains_key(players[sender].entity_id) {
        (Err(MovementRejection::EntityNotFound), entities)
    } else {
        (
            Ok(()),
            entities.insert(
                players[sender].entity_id,
                Entity { rotation, ..entities[players[sender].entity_id] },
            ),
        )
    }
}

/// What a reported animation state does: the verdict and the players
/// after it.
pub open spec fn apply_animation_state(
    players: Map<Identity, Player>,
    sender: Identity,
    animation_state: DbAnimationState,
) -> (Result<(), MovementRejection>, Map<Identity, Player>) {
    if !players.contains_key(sender) {
        (Err(MovementRejection::PlayerNotFound), players)
    } else {
        (Ok(()), players.insert(sender, Player { animation_state, ..players[sender] }))
    }
}

/// Turns the caller's body.
pub fn player_set_rotation(
    players: &Table<Player>,
    entities: &mut Table<Entity>,
    sender: Identity,
    rotation: DbVector3,
) -> (r: Result<(), MovementRejection>)
    ensures
        (r, final(entities)@) == apply_rotation(players@, old(entities)@, sender, rotation),
{
    let player = match players.find(&sender) {
        Some(found) => found,
        None => {
            return Err(MovementRejection::PlayerNotFound);
        },
    };
    let mut entity = match entities.find(&player.entity_id) {
        Some(found) => *found,
        None => {
            return Err(MovementRejection::EntityNotFound);
        },
    };
    entity.rotation = rotation;
    entities.upsert(entity);
    Ok(())
}

/// Sets how the caller's body is animated.
pub fn player_set_animation_state(
    players: &mut Table<Player>,
    sender: Identity,
    animation_state: DbAnimationState,
) -> (r: Result<(), MovementRejection>)
    ensures
        (r, final(players)@) == apply_animation_state(old(players)@, sender, animation_state),
{
    let mut player = match players.find(&sender) {
        Some(found) => *found,
        None => {
            return Err(MovementRejection::PlayerNotFound);
        },
    };
    player.animation_state = animation_state;
    players.upsert(player);
    Ok(())
}

/// What a full report does: position first, and only where that is
/// accepted rotation and animation state.
pub open spec fn apply_update(
    players: Map<Identity, Player>,
    entities: Map<u32, Entity>,
    walkable: bool,
    sender: Identity,
    position: DbVector3,
    rotation: DbVector3,
    animation_state: DbAnimationState,
    now_us: i64,
) -> (Result<(), MovementRejection>, Map<Identity, Player>, Map<u32, Entity>) {
    let moved = apply_position(players, entities, walkable, sender, position, now_us);
    if moved.0 is Err {
        moved
    } else {
        let turned = apply_rotation(moved.1, moved.2, sender, rotation);
        let animated = apply_animation_state(moved.1, sender, animation_state);
        (Ok(()), animated.1, turned.1)
    }
}

/// Takes a full report from the caller: position, rotation and animation
/// state.
pub fn player_update(
    players: &mut Table<Player>,
    entities: &mut Table<Entity>,
    config: &Table<NavMeshConfig>,
    grid: &Table<NavMeshGrid>,
    sender: Identity,
    position: DbVector3,
    rotation: DbVector3,
    animation_state: DbAnimationState,
    now_us: i64,
) -> (r: Result<(), MovementRejection>)
    ensures
        (r, final(players)@, final(entities)@) == apply_update(
            old(players)@,
            old(entities)@,
            is_walkable(config@, grid@, position),
            sender,
            position,
            rotation,
            animation_state,
            now_us,
        ),
{
    if players.find(&sender).is_some() {
        player_set_position(players, entities, config, grid, sender, position, now_us)?;
        player_set_rotation(players, entities, sender, rotation)?;
        player_set_animation_state(players, sender, animation_state)?;
        Ok(())
    } else {
        Err(MovementRejection::PlayerNotFound)
    }
}

/// An update that follows the one before by no more than the minimum
/// interval is accepted whatever the distance, where player and entity
/// exist and the position is walkable.
pub proof fn short_interval_is_accepted(
    players: Map<Identity, Player>,
    entities: Map<u32, Entity>,
    sender: Identity,
    position: DbVector3,
    now_us: i64,
)
    requires
        players.contains_key(sender),
        entities.contains_key(players[sender].entity_id),
        now_us - players[sender].last_update_timestamp <= MIN_TIME_DELTA_US,
    ensures
        apply_position(players, entities, true, sender, position, now_us).0 is Ok,
{
}

/// The speed budget is inclusive: a walkable update that is held to the
/// budget is accepted if and only if, with `d` the distance on the ground
/// plane, `4e6 * d <= 5 * movement_speed * elapsed_us`, stated here with
/// both sides squared. The speed is not negative.
pub proof fn speed_budget_is_inclusive(
    players: Map<Identity, Player>,
    entities: Map<u32, Entity>,
    sender: Identity,
    position: DbVector3,
    now_us: i64,
)
    requires
        players.contains_key(sender),
        entities.contains_key(players[sender].entity_id),
        now_us - players[sender].last_update_timestamp > MIN_TIME_DELTA_US,
        players[sender].movement_speed >= 0,
    ensures
        apply_position(players, entities, true, sender, position, now_us).0 is Ok
            <==> 16_000_000_000_000 * position.horizontal_distance_squared(
            entities[players[sender].entity_id].position,
        ) <= square(
            5 * players[sender].movement_speed * (now_us
                - players[sender].last_update_timestamp),
        ),
{
    let speed = players[sender].movement_speed as int;
    let elapsed = now_us - players[sender].last_update_timestamp;
    assert(5 * speed * elapsed >= 0) by (nonlinear_arith)
        requires
            speed >= 0,
            elapsed > 0,
    ;
}

/// A rejected update leaves every player as it was, and where player and
/// entity exist it sets the body back to the last valid position.
pub proof fn rejection_sets_back(
    players: Map<Identity, Player>,
    entities: Map<u32, Entity>,
    walkable: bool,
    sender: Identity,
    position: DbVector3,
    now_us: i64,
)
    requires
        apply_position(players, entities, walkable, sender, position, now_us).0 is Err,
    ensures
        apply_position(players, entities, walkable, sender, position, now_us).1 == players,
        players.contains_key(sender) && entities.contains_key(players[sender].entity_id)
            ==> apply_position(
            players,
            entities,
            walkable,
            sender,
            position,
            now_us,
        ).2[players[sender].entity_id].position == players[sender].last_valid_position,
{
}

/// After any update of a player whose entity exists, the body stands at
/// the last valid position, and that is the reported position exactly
/// where the update was accepted.
pub proof fn body_stands_at_last_valid_position(
    players: Map<Identity, Player>,
    entities: Map<u32, Entity>,
    walkable: bool,
    sender: Identity,
    position: DbVector3,
    now_us: i64,
)
    requires
        players.contains_key(sender),
        entities.contains_key(players[sender].entity_id),
    ensures
        ({
            let after = apply_position(players, entities, walkable, sender, position, now_us);
            &&& after.1.contains_key(sender)
            &&& after.2.contains_key(players[sender].entity_id)
            &&& after.2[players[sender].entity_id].position == after.1[sender].last_valid_position
            &&& after.0 is Ok ==> after.1[sender].last_valid_position == position
                && after.1[sender].last_update_timestamp == now_us
            &&& after.0 is Err ==> after.1[sender] == players[sender]
        }),
{
}

/// An update touches nobody but the caller: every other player, and every
/// entity but the caller's, is as it was, and no player or entity comes or
/// goes.
pub proof fn update_touches_only_the_caller(
    players: Map<Identity, Player>,
    entities: Map<u32, Entity>,
    walkable: bool,
    sender: Identity,
    position: DbVector3,
    now_us: i64,
)
    ensures
        ({
            let after = apply_position(players, entities, walkable, sender, position, now_us);
            &&& after.1.dom() == players.dom()
            &&& after.2.dom() == entities.dom()
            &&& forall|other: Identity|
                players.contains_key(other) && other != sender ==> #[trigger] after.1[other]
                    == players[other]
            &&& forall|other: u32|
                entities.contains_key(other) && !(players.contains_key(sender)
                    && players[sender].entity_id == other) ==> #[trigger] after.2[other]
                    == entities[other]
        }),
{
    let after = apply_position(players, entities, walkable, sender, position, now_us);
    assert(after.1.dom() =~= players.dom());
    assert(after.2.dom() =~= entities.dom());
}

} // verus!
