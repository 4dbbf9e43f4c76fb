use world_server::lootable::LootableSpawn;
use world_server::store::Table;
use world_server::types::DbVector3;

fn spawn(spawn_id: u32, type_id: u32) -> LootableSpawn {
    LootableSpawn {
        spawn_id,
        type_id,
        position: DbVector3::default(),
        rotation: DbVector3::default(),
        is_looted: false,
        looted_at_us: 0,
    }
}

#[test]
fn new_table_is_empty() {
    let table: Table<LootableSpawn> = Table::new();
    assert_eq!(table.len(), 0);
    assert!(table.find(&0).is_none());
    assert_eq!(table.position(&0), None);
    assert_eq!(table.fresh_key(), Some(1));
}

#[test]
fn insert_refuses_a_key_in_use() {
    let mut table = Table::new();
    assert!(table.insert(spawn(5, 0)));
    assert!(!table.insert(spawn(5, 1)));
    assert_eq!(table.len(), 1);
    assert_eq!(table.find(&5), Some(&spawn(5, 0)));
}

#[test]
fn replace_changes_only_a_stored_row() {
    let mut table = Table::new();
    table.insert(spawn(1, 0));
    table.insert(spawn(2, 0));
    assert!(table.replace(spawn(2, 9)));
    assert!(!table.replace(spawn(3, 9)));
    assert_eq!(table.len(), 2);
    assert_eq!(table.find(&1), Some(&spawn(1, 0)));
    assert_eq!(table.find(&2), Some(&spawn(2, 9)));
    assert!(table.find(&3).is_none());
    table.replace_at(0, spawn(1, 4));
    assert_eq!(table.rows()[0], spawn(1, 4));
}

#[test]
fn upsert_inserts_or_replaces() {
    let mut table = Table::new();
    table.upsert(spawn(1, 0));
    table.upsert(spawn(1, 7));
    table.upsert(spawn(2, 0));
    assert_eq!(table.len(), 2);
    assert_eq!(table.find(&1), Some(&spawn(1, 7)));
}

#[test]
fn remove_takes_the_row_out() {
    let mut table = Table::new();
    table.insert(spawn(1, 0));
    table.insert(spawn(2, 0));
    table.insert(spawn(3, 0));
    assert_eq!(table.remove(&2), Some(spawn(2, 0)));
    assert_eq!(table.remove(&2), None);
    assert_eq!(table.len(), 2);
    assert_eq!(table.position(&1), Some(0));
    assert_eq!(table.position(&3), Some(1));
    assert_eq!(table.remove_at(0), spawn(1, 0));
    assert_eq!(table.rows().as_slice(), &[spawn(3, 0)]);
    table.clear();
    assert_eq!(table.len(), 0);
}

#[test]
fn fresh_key_follows_the_largest() {
    let mut table = Table::new();
    table.insert(spawn(7, 0));
    table.insert(spawn(3, 0));
    assert_eq!(table.fresh_key(), Some(8));
    table.remove(&7);
    assert_eq!(table.fresh_key(), Some(4));
    table.insert(spawn(u32::MAX, 0));
    assert_eq!(table.fresh_key(), None);
    let mut zero = Table::new();
    zero.insert(spawn(0, 0));
    assert_eq!(zero.fresh_key(), Some(1));
}
