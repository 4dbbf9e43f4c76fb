use world_server::admin::Admin;
use world_server::building_piece_placed::{
    building_piece_place, building_piece_remove, check_materials, removable_piece, BuildingError,
    DbBuildingPiecePlaced, DbBuildingPieceType,
};
use world_server::entity::{
    entity_apply_damage, entity_create, entity_reset_health, remaining_health, DamageRejection,
    Entity, EntityError,
};
use world_server::inventory::{Inventory, ItemRef};
use world_server::player::{
    fresh_player_id, player_connected, player_create, player_set_online_status, Player, PlayerError,
};
use world_server::store::Table;
use world_server::types::{DbVector2, DbVector3, Identity};
use world_server::world_spawn::{world_spawn_init, world_spawn_set, WorldSpawn};
use world_server::{connect, disconnect, init, InitError};

fn at(x: i32, y: i32, z: i32) -> DbVector3 {
    DbVector3 { x, y, z }
}

fn alice() -> Identity {
    Identity { high: 0, low: 1 }
}

fn bob() -> Identity {
    Identity { high: 0, low: 2 }
}

fn item(id: u32, quantity: u32) -> ItemRef {
    ItemRef { id, quantity }
}

fn entity_at(entity_id: u32, position: DbVector3) -> Entity {
    Entity { entity_id, position, rotation: at(0, 0, 0), health: 100_000, max_health: 100_000, attack_range: 3_000 }
}

#[test]
fn world_spawn_init_sets_the_default_spawn() {
    let mut spawns = Table::new();
    world_spawn_init(&mut spawns);
    assert_eq!(
        spawns.find(&0),
        Some(&WorldSpawn { id: 0, position: at(-221_635, -29_186, 252_462), rotation: at(0, 0, 0) })
    );
    world_spawn_set(&mut spawns, 0, at(1, 2, 3), at(4, 5, 6));
    world_spawn_set(&mut spawns, 3, at(7, 8, 9), at(0, 0, 0));
    assert_eq!(spawns.len(), 2);
    assert_eq!(spawns.find(&0), Some(&WorldSpawn { id: 0, position: at(1, 2, 3), rotation: at(4, 5, 6) }));
    world_spawn_init(&mut spawns);
    assert_eq!(spawns.find(&0).unwrap().position, at(-221_635, -29_186, 252_462));
    assert_eq!(spawns.len(), 2);
}

#[test]
fn entity_starts_at_the_world_spawn() {
    let mut entities = Table::new();
    let mut spawns = Table::new();
    let first = entity_create(&mut entities, &spawns).unwrap();
    assert_eq!(first, entity_at(1, at(0, 0, 0)));
    world_spawn_set(&mut spawns, 0, at(1, 2, 3), at(4, 5, 6));
    world_spawn_set(&mut spawns, 1, at(9, 9, 9), at(9, 9, 9));
    let second = entity_create(&mut entities, &spawns).unwrap();
    assert_eq!(
        second,
        Entity { entity_id: 2, position: at(1, 2, 3), rotation: at(4, 5, 6), health: 100_000, max_health: 100_000, attack_range: 3_000 }
    );
    assert_eq!(entities.find(&2), Some(&second));
    entities.insert(entity_at(u32::MAX, at(0, 0, 0)));
    assert_eq!(entity_create(&mut entities, &spawns), Err(EntityError::IdsExhausted));
    assert_eq!(entities.len(), 3);
}

#[test]
fn remaining_health_stays_in_range() {
    assert_eq!(remaining_health(100_000, 30_500), 69_500);
    assert_eq!(remaining_health(100_000, 100_000), 0);
    assert_eq!(remaining_health(100_000, 100_001), 0);
    assert_eq!(remaining_health(10, i32::MAX), 0);
    assert_eq!(remaining_health(10, -5), 15);
    assert_eq!(remaining_health(i32::MAX, -1), i32::MAX);
    assert_eq!(remaining_health(i32::MAX, i32::MIN), i32::MAX);
    assert_eq!(remaining_health(i32::MIN, i32::MAX), 0);
    assert_eq!(remaining_health(-5, 0), 0);
}

fn online_player(identity: Identity, player_id: u32, entity_id: u32) -> Player {
    Player {
        identity,
        player_id,
        entity_id,
        online: true,
        look_direction: DbVector2 { x: 0, y: 0 },
        animation_state: world_server::player::DbAnimationState {
            horizontal_movement: 0,
            vertical_movement: 0,
            combo_count: 0,
            is_moving: false,
            is_grounded: false,
            is_jumping: false,
            is_attacking: false,
        },
        last_valid_position: at(0, 0, 0),
        last_update_timestamp: 0,
        movement_speed: 6_000,
        interaction_range: 3_000,
        reconciliation_safety_margin: 1_500,
    }
}

fn arena() -> (Table<Player>, Table<Entity>) {
    let mut players = Table::new();
    let mut entities = Table::new();
    players.insert(online_player(alice(), 1, 1));
    players.insert(online_player(bob(), 2, 2));
    entities.insert(entity_at(1, at(0, 0, 0)));
    entities.insert(entity_at(2, at(3_000, 0, 0)));
    (players, entities)
}

#[test]
fn damage_within_reach_is_applied() {
    let (players, mut entities) = arena();
    assert_eq!(entity_apply_damage(&players, &mut entities, alice(), 2, 30_500), Ok(()));
    assert_eq!(entities.find(&2).unwrap().health, 69_500);
    assert_eq!(entities.find(&1).unwrap().health, 100_000);
    assert_eq!(entity_apply_damage(&players, &mut entities, alice(), 2, 70_000), Ok(()));
    assert_eq!(entities.find(&2).unwrap().health, 0);
    assert_eq!(entities.find(&2).unwrap().position, at(3_000, 0, 0));
    // an entity can strike itself
    assert_eq!(entity_apply_damage(&players, &mut entities, alice(), 1, 1), Ok(()));
    assert_eq!(entities.find(&1).unwrap().health, 99_999);
}

#[test]
fn damage_out_of_reach_is_refused() {
    let (players, mut entities) = arena();
    let mut far = entity_at(2, at(3_000, 0, 1));
    entities.upsert(far);
    assert_eq!(entity_apply_damage(&players, &mut entities, alice(), 2, 10), Err(DamageRejection::OutOfRange));
    assert_eq!(entities.find(&2).unwrap().health, 100_000);
    // the attacker's reach counts, not the target's
    far.attack_range = 1;
    far.position = at(3_000, 0, 0);
    entities.upsert(far);
    assert_eq!(entity_apply_damage(&players, &mut entities, alice(), 2, 10), Ok(()));
    assert_eq!(entity_apply_damage(&players, &mut entities, bob(), 1, 10), Err(DamageRejection::OutOfRange));
}

#[test]
fn damage_needs_an_online_attacker_and_both_entities() {
    let (mut players, mut entities) = arena();
    let carol = Identity { high: 0, low: 3 };
    assert_eq!(entity_apply_damage(&players, &mut entities, carol, 2, 10), Err(DamageRejection::AttackerNotFound));
    assert_eq!(entity_apply_damage(&players, &mut entities, alice(), 7, 10), Err(DamageRejection::TargetNotFound));
    player_set_online_status(&mut players, alice(), false);
    assert_eq!(entity_apply_damage(&players, &mut entities, alice(), 2, 10), Err(DamageRejection::AttackerOffline));
    player_set_online_status(&mut players, alice(), true);
    entities.remove(&1);
    assert_eq!(entity_apply_damage(&players, &mut entities, alice(), 2, 10), Err(DamageRejection::AttackerEntityNotFound));
    assert_eq!(entities.find(&2).unwrap().health, 100_000);
}

#[test]
fn reset_health_restores_the_maximum() {
    let (players, mut entities) = arena();
    entity_apply_damage(&players, &mut entities, alice(), 2, 30_000).unwrap();
    assert_eq!(entity_reset_health(&mut entities, 2), Ok(()));
    assert_eq!(*entities.find(&2).unwrap(), entity_at(2, at(3_000, 0, 0)));
    assert_eq!(entity_reset_health(&mut entities, 5), Err(EntityError::EntityNotFound));
}

#[test]
fn player_create_makes_entity_and_player() {
    let mut players = Table::new();
    let mut entities = Table::new();
    let mut spawns = Table::new();
    world_spawn_set(&mut spawns, 0, at(1, 2, 3), at(4, 5, 6));
    assert_eq!(player_create(&mut players, &mut entities, &spawns, alice(), 777), Ok(()));
    let mut expected = online_player(alice(), 1, 1);
    expected.last_valid_position = at(1, 2, 3);
    expected.last_update_timestamp = 777;
    assert_eq!(players.find(&alice()), Some(&expected));
    assert_eq!(entities.find(&1).unwrap().position, at(1, 2, 3));
    assert_eq!(entities.find(&1).unwrap().rotation, at(4, 5, 6));
    assert_eq!(player_create(&mut players, &mut entities, &spawns, alice(), 778), Err(PlayerError::PlayerExists));
    assert_eq!(entities.len(), 1);
    entities.insert(entity_at(10, at(0, 0, 0)));
    assert_eq!(player_create(&mut players, &mut entities, &spawns, bob(), 779), Ok(()));
    assert_eq!(players.find(&bob()).unwrap().player_id, 2);
    assert_eq!(players.find(&bob()).unwrap().entity_id, 11);
}

#[test]
fn player_create_fails_when_ids_run_out() {
    let mut players = Table::new();
    let mut entities = Table::new();
    let spawns = Table::new();
    entities.insert(entity_at(u32::MAX, at(0, 0, 0)));
    assert_eq!(player_create(&mut players, &mut entities, &spawns, alice(), 1), Err(PlayerError::IdsExhausted));
    assert_eq!(players.len(), 0);
    entities.clear();
    players.insert(online_player(bob(), u32::MAX, 5));
    assert_eq!(fresh_player_id(&players), None);
    assert_eq!(player_create(&mut players, &mut entities, &spawns, alice(), 1), Err(PlayerError::IdsExhausted));
    assert_eq!(entities.len(), 0);
    assert_eq!(players.len(), 1);
}

#[test]
fn connected_makes_a_newcomer_or_marks_online() {
    let mut players = Table::new();
    let mut entities = Table::new();
    let mut inventories: Table<Inventory> = Table::new();
    let spawns = Table::new();
    assert_eq!(player_connected(&mut players, &mut entities, &mut inventories, &spawns, alice(), 5), Ok(()));
    assert_eq!(players.len(), 1);
    assert_eq!(entities.len(), 1);
    assert!(inventories.find(&alice()).unwrap().items.is_empty());
    assert_eq!(inventories.find(&alice()).unwrap().size, 32);
    assert!(connect(&players, alice()));
    assert!(!connect(&players, bob()));

    disconnect(&mut players, alice());
    assert!(!players.find(&alice()).unwrap().online);
    disconnect(&mut players, bob());
    assert_eq!(players.len(), 1);

    assert_eq!(player_connected(&mut players, &mut entities, &mut inventories, &spawns, alice(), 9), Ok(()));
    assert!(players.find(&alice()).unwrap().online);
    assert_eq!(players.find(&alice()).unwrap().last_update_timestamp, 5);
    assert_eq!(players.len(), 1);
    assert_eq!(entities.len(), 1);
    assert_eq!(inventories.len(), 1);
}

#[test]
fn connected_refuses_a_stray_inventory() {
    let mut players = Table::new();
    let mut entities = Table::new();
    let mut inventories = Table::new();
    let spawns = Table::new();
    inventories.insert(Inventory { identity: alice(), size: 32, items: vec![item(0, 1)] });
    assert_eq!(
        player_connected(&mut players, &mut entities, &mut inventories, &spawns, alice(), 5),
        Err(PlayerError::InventoryExists)
    );
    assert_eq!(players.len(), 0);
    assert_eq!(entities.len(), 0);
    assert_eq!(inventories.find(&alice()).unwrap().items, vec![item(0, 1)]);
}

#[test]
fn init_sets_up_a_world_once() {
    let mut world_spawns = Table::new();
    let mut items = Table::new();
    let mut types = Table::new();
    let mut spawns = Table::new();
    assert_eq!(init(&mut world_spawns, &mut items, &mut types, &mut spawns), Ok(()));
    assert_eq!((world_spawns.len(), items.len(), types.len(), spawns.len()), (1, 2, 3, 2));
    assert_eq!(world_spawns.find(&0).unwrap().position, at(-221_635, -29_186, 252_462));
    assert_eq!(spawns.find(&2).unwrap().type_id, 1);
    assert_eq!(init(&mut world_spawns, &mut items, &mut types, &mut spawns), Err(InitError::ItemExists));
    items.clear();
    world_spawn_set(&mut world_spawns, 0, at(0, 0, 0), at(0, 0, 0));
    assert_eq!(init(&mut world_spawns, &mut items, &mut types, &mut spawns), Err(InitError::TypeExists));
    assert_eq!(items.len(), 0);
    assert_eq!(world_spawns.find(&0).unwrap().position, at(0, 0, 0));
    types.clear();
    spawns.insert(world_server::lootable::LootableSpawn {
        spawn_id: u32::MAX,
        type_id: 0,
        position: at(0, 0, 0),
        rotation: at(0, 0, 0),
        is_looted: false,
        looted_at_us: 0,
    });
    assert_eq!(init(&mut world_spawns, &mut items, &mut types, &mut spawns), Err(InitError::IdsExhausted));
    assert_eq!((world_spawns.len(), items.len(), types.len(), spawns.len()), (1, 0, 0, 3));
}

fn builder(items: Vec<ItemRef>) -> Table<Inventory> {
    let mut inventories = Table::new();
    inventories.insert(Inventory { identity: alice(), size: 32, items });
    inventories
}

#[test]
fn building_piece_kinds_are_distinct() {
    assert_ne!(DbBuildingPieceType::Foundation, DbBuildingPieceType::Wall);
    assert_ne!(DbBuildingPieceType::Floor, DbBuildingPieceType::Stair);
    assert_eq!(DbBuildingPieceType::Wall, DbBuildingPieceType::Wall);
}

#[test]
fn placing_a_piece_takes_its_cost() {
    let mut inventories = builder(vec![item(0, 10), item(1, 4), item(2, 1)]);
    let mut pieces = Table::new();
    let cost = vec![item(0, 6), item(1, 4)];
    let r = building_piece_place(&mut inventories, &mut pieces, alice(), 3, &cost, at(1, 2, 3), at(0, 90_000, 0));
    assert_eq!(r, Ok(1));
    assert_eq!(
        pieces.find(&1),
        Some(&DbBuildingPiecePlaced { piece_id: 1, owner: alice(), variant_id: 3, position: at(1, 2, 3), rotation: at(0, 90_000, 0) })
    );
    assert_eq!(inventories.find(&alice()).unwrap().items, vec![item(0, 4), item(2, 1)]);
    assert_eq!(inventories.find(&alice()).unwrap().size, 32);
}

#[test]
fn placing_a_piece_without_the_materials_changes_nothing() {
    let mut inventories = builder(vec![item(0, 10), item(1, 4)]);
    let mut pieces = Table::new();
    let r = building_piece_place(&mut inventories, &mut pieces, alice(), 3, &vec![item(0, 6), item(1, 5)], at(0, 0, 0), at(0, 0, 0));
    assert_eq!(r, Err(BuildingError::NotEnoughMaterials));
    let r = building_piece_place(&mut inventories, &mut pieces, alice(), 3, &vec![item(0, 6), item(7, 1)], at(0, 0, 0), at(0, 0, 0));
    assert_eq!(r, Err(BuildingError::ItemNotFound));
    let r = building_piece_place(&mut inventories, &mut pieces, bob(), 3, &vec![item(0, 6)], at(0, 0, 0), at(0, 0, 0));
    assert_eq!(r, Err(BuildingError::InventoryNotFound));
    // the first thing that is wrong decides
    let r = building_piece_place(&mut inventories, &mut pieces, alice(), 3, &vec![item(7, 1), item(1, 5)], at(0, 0, 0), at(0, 0, 0));
    assert_eq!(r, Err(BuildingError::ItemNotFound));
    // each cost passes alone, both together do not
    let r = building_piece_place(&mut inventories, &mut pieces, alice(), 3, &vec![item(0, 6), item(0, 6)], at(0, 0, 0), at(0, 0, 0));
    assert_eq!(r, Err(BuildingError::NotEnoughMaterials));
    assert_eq!(inventories.find(&alice()).unwrap().items, vec![item(0, 10), item(1, 4)]);
    assert_eq!(pieces.len(), 0);
    assert_eq!(check_materials(&vec![item(0, 10)], &vec![item(0, 6), item(0, 6)]), Ok(()));
    assert_eq!(check_materials(&vec![item(0, 10)], &vec![item(0, 11)]), Err(BuildingError::NotEnoughMaterials));
}

#[test]
fn placing_a_free_piece_needs_no_inventory() {
    let mut inventories = builder(vec![]);
    let mut pieces = Table::new();
    pieces.insert(DbBuildingPiecePlaced { piece_id: 8, owner: alice(), variant_id: 0, position: at(0, 0, 0), rotation: at(0, 0, 0) });
    assert_eq!(building_piece_place(&mut inventories, &mut pieces, bob(), 1, &vec![], at(0, 0, 0), at(0, 0, 0)), Ok(9));
    assert_eq!(pieces.find(&9).unwrap().owner, bob());
    pieces.insert(DbBuildingPiecePlaced { piece_id: u32::MAX, owner: alice(), variant_id: 0, position: at(0, 0, 0), rotation: at(0, 0, 0) });
    assert_eq!(
        building_piece_place(&mut inventories, &mut pieces, alice(), 1, &vec![], at(0, 0, 0), at(0, 0, 0)),
        Err(BuildingError::IdsExhausted)
    );
}

#[test]
fn removing_a_piece_refunds_its_owner() {
    let mut inventories = builder(vec![item(1, 1)]);
    let mut pieces = Table::new();
    let mut admins = Table::new();
    admins.insert(Admin { identity: bob() });
    let carol = Identity { high: 0, low: 3 };
    let cost = vec![item(0, 6), item(1, 4)];
    pieces.insert(DbBuildingPiecePlaced { piece_id: 1, owner: alice(), variant_id: 3, position: at(0, 0, 0), rotation: at(0, 0, 0) });
    pieces.insert(DbBuildingPiecePlaced { piece_id: 2, owner: alice(), variant_id: 3, position: at(0, 0, 0), rotation: at(0, 0, 0) });
    pieces.insert(DbBuildingPiecePlaced { piece_id: 3, owner: carol, variant_id: 3, position: at(0, 0, 0), rotation: at(0, 0, 0) });

    assert_eq!(building_piece_remove(&mut pieces, &admins, &mut inventories, carol, 1, &cost), Err(BuildingError::NotOwner));
    assert_eq!(building_piece_remove(&mut pieces, &admins, &mut inventories, alice(), 9, &cost), Err(BuildingError::PieceNotFound));
    assert_eq!(removable_piece(&pieces, &admins, carol, 1), Err(BuildingError::NotOwner));
    assert_eq!(removable_piece(&pieces, &admins, carol, 9), Err(BuildingError::PieceNotFound));
    assert_eq!(removable_piece(&pieces, &admins, bob(), 3).map(|piece| piece.owner), Ok(carol));
    assert_eq!(removable_piece(&pieces, &admins, alice(), 2).map(|piece| piece.variant_id), Ok(3));
    assert_eq!(pieces.len(), 3);
    assert_eq!(inventories.find(&alice()).unwrap().items, vec![item(1, 1)]);

    assert_eq!(building_piece_remove(&mut pieces, &admins, &mut inventories, alice(), 1, &cost), Ok(()));
    assert!(pieces.find(&1).is_none());
    assert_eq!(inventories.find(&alice()).unwrap().items, vec![item(1, 5), item(0, 6)]);

    // an administrator removes it, the owner gets the materials
    assert_eq!(building_piece_remove(&mut pieces, &admins, &mut inventories, bob(), 2, &cost), Ok(()));
    assert_eq!(inventories.find(&alice()).unwrap().items, vec![item(1, 9), item(0, 12)]);
    assert_eq!(inventories.len(), 1);

    // an owner without an inventory gets nothing back
    assert_eq!(building_piece_remove(&mut pieces, &admins, &mut inventories, carol, 3, &cost), Ok(()));
    assert_eq!(pieces.len(), 0);
    assert_eq!(inventories.len(), 1);
}

#[test]
fn refund_that_overflows_changes_nothing() {
    let mut inventories = builder(vec![item(0, 1), item(1, u32::MAX - 3)]);
    let mut pieces = Table::new();
    let admins = Table::new();
    pieces.insert(DbBuildingPiecePlaced { piece_id: 1, owner: alice(), variant_id: 3, position: at(0, 0, 0), rotation: at(0, 0, 0) });
    let cost = vec![item(0, 6), item(1, 4)];
    assert_eq!(building_piece_remove(&mut pieces, &admins, &mut inventories, alice(), 1, &cost), Err(BuildingError::QuantityOverflow));
    assert_eq!(inventories.find(&alice()).unwrap().items, vec![item(0, 1), item(1, u32::MAX - 3)]);
    assert_eq!(pieces.len(), 1);
}
