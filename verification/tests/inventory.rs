use world_server::admin::{admin_add, admin_remove, is_admin, require_admin, Admin, AdminError};
use world_server::inventory::{
    add_to_items, copy_items, find_item, inventory_add_item, inventory_add_item_internal,
    inventory_create, inventory_get_item, inventory_remove_item, inventory_remove_item_internal,
    item_init, remove_from_items, Inventory, InventoryError, ItemRef,
};
use world_server::store::Table;
use world_server::types::Identity;

fn owner() -> Identity {
    Identity { high: 0, low: 42 }
}

fn root() -> Identity {
    Identity { high: 9, low: 9 }
}

fn item(id: u32, quantity: u32) -> ItemRef {
    ItemRef { id, quantity }
}

fn inventories_with(items: Vec<ItemRef>) -> Table<Inventory> {
    let mut inventories = Table::new();
    inventories.insert(Inventory { identity: root(), size: 32, items: vec![item(1, 1)] });
    inventories.insert(Inventory { identity: owner(), size: 32, items });
    inventories
}

fn held(inventories: &Table<Inventory>) -> Vec<ItemRef> {
    inventories.find(&owner()).unwrap().items.clone()
}

fn admins() -> Table<Admin> {
    let mut admins = Table::new();
    admins.insert(Admin { identity: root() });
    admins
}

#[test]
fn find_item_gives_the_first_place() {
    let items = vec![item(3, 1), item(5, 2), item(3, 9)];
    assert_eq!(find_item(&items, 3), Some(0));
    assert_eq!(find_item(&items, 5), Some(1));
    assert_eq!(find_item(&items, 4), None);
    assert_eq!(find_item(&vec![], 0), None);
    assert_eq!(copy_items(&items), items);
}

#[test]
fn add_to_items_adds_or_appends() {
    let mut items = vec![item(3, 1), item(5, 2)];
    assert_eq!(add_to_items(&mut items, 5, 10), Ok(()));
    assert_eq!(items, vec![item(3, 1), item(5, 12)]);
    assert_eq!(add_to_items(&mut items, 7, 4), Ok(()));
    assert_eq!(items, vec![item(3, 1), item(5, 12), item(7, 4)]);
    assert_eq!(add_to_items(&mut items, 3, u32::MAX), Err(InventoryError::QuantityOverflow));
    assert_eq!(add_to_items(&mut items, 3, u32::MAX - 1), Ok(()));
    assert_eq!(items, vec![item(3, u32::MAX), item(5, 12), item(7, 4)]);
    assert_eq!(add_to_items(&mut items, 8, 0), Ok(()));
    assert_eq!(items.len(), 4);
}

#[test]
fn remove_from_items_drops_an_emptied_entry() {
    let mut items = vec![item(3, 1), item(5, 12), item(7, 4)];
    assert_eq!(remove_from_items(&mut items, 5, 2), Ok(()));
    assert_eq!(items, vec![item(3, 1), item(5, 10), item(7, 4)]);
    assert_eq!(remove_from_items(&mut items, 5, 11), Err(InventoryError::QuantityShort));
    assert_eq!(items, vec![item(3, 1), item(5, 10), item(7, 4)]);
    assert_eq!(remove_from_items(&mut items, 5, 10), Ok(()));
    assert_eq!(items, vec![item(3, 1), item(7, 4)]);
    assert_eq!(remove_from_items(&mut items, 9, 1), Ok(()));
    assert_eq!(items, vec![item(3, 1), item(7, 4)]);
    assert_eq!(remove_from_items(&mut items, 7, 0), Ok(()));
    assert_eq!(items, vec![item(3, 1), item(7, 4)]);
}

#[test]
fn item_init_defines_branch_and_rock() {
    let mut items = Table::new();
    assert_eq!(item_init(&mut items), Ok(()));
    assert_eq!(items.len(), 2);
    let branch = items.find(&0).unwrap();
    assert_eq!((branch.name.as_str(), branch.description.as_str(), branch.weight), ("Branch", "A sturdy wooden branch.", 500));
    let rock = items.find(&1).unwrap();
    assert_eq!((rock.name.as_str(), rock.description.as_str(), rock.weight), ("Rock", "A solid rock.", 1_000));
    assert_eq!(item_init(&mut items), Err(InventoryError::ItemExists));
    assert_eq!(items.len(), 2);
    items.remove(&0);
    assert_eq!(item_init(&mut items), Err(InventoryError::ItemExists));
    assert_eq!(items.len(), 1);
}

#[test]
fn inventory_create_gives_an_empty_inventory_once() {
    let mut inventories = Table::new();
    assert_eq!(inventory_create(&mut inventories, owner()), Ok(()));
    let created = inventories.find(&owner()).unwrap();
    assert_eq!(created.identity, owner());
    assert_eq!(created.size, 32);
    assert!(created.items.is_empty());
    assert_eq!(inventory_create(&mut inventories, owner()), Err(InventoryError::InventoryExists));
    assert_eq!(inventories.len(), 1);
}

#[test]
fn add_item_internal_changes_only_the_owner() {
    let mut inventories = inventories_with(vec![item(0, 5)]);
    assert_eq!(inventory_add_item_internal(&mut inventories, owner(), 0, 5), Ok(()));
    assert_eq!(inventory_add_item_internal(&mut inventories, owner(), 2, 1), Ok(()));
    assert_eq!(held(&inventories), vec![item(0, 10), item(2, 1)]);
    assert_eq!(inventories.find(&owner()).unwrap().size, 32);
    assert_eq!(inventories.find(&root()).unwrap().items, vec![item(1, 1)]);
    assert_eq!(inventories.len(), 2);
    // without an inventory there is nothing to do
    assert_eq!(inventory_add_item_internal(&mut inventories, Identity { high: 1, low: 0 }, 0, 5), Ok(()));
    assert_eq!(inventories.len(), 2);
    assert_eq!(inventory_add_item_internal(&mut inventories, owner(), 0, u32::MAX - 9), Err(InventoryError::QuantityOverflow));
    assert_eq!(held(&inventories), vec![item(0, 10), item(2, 1)]);
}

#[test]
fn remove_item_internal_changes_only_the_owner() {
    let mut inventories = inventories_with(vec![item(0, 5), item(1, 2)]);
    assert_eq!(inventory_remove_item_internal(&mut inventories, owner(), 0, 6), Err(InventoryError::QuantityShort));
    assert_eq!(held(&inventories), vec![item(0, 5), item(1, 2)]);
    assert_eq!(inventory_remove_item_internal(&mut inventories, owner(), 0, 4), Ok(()));
    assert_eq!(held(&inventories), vec![item(0, 1), item(1, 2)]);
    assert_eq!(inventory_remove_item_internal(&mut inventories, owner(), 0, 1), Ok(()));
    assert_eq!(held(&inventories), vec![item(1, 2)]);
    assert_eq!(inventory_remove_item_internal(&mut inventories, owner(), 0, 1), Ok(()));
    assert_eq!(held(&inventories), vec![item(1, 2)]);
    assert_eq!(inventory_remove_item_internal(&mut inventories, Identity { high: 1, low: 0 }, 0, 5), Ok(()));
    assert_eq!(inventories.find(&root()).unwrap().items, vec![item(1, 1)]);
}

#[test]
fn get_item_reports_what_is_missing() {
    let inventories = inventories_with(vec![item(0, 5), item(1, 2)]);
    assert_eq!(inventory_get_item(&inventories, owner(), 1), Ok(item(1, 2)));
    assert_eq!(inventory_get_item(&inventories, owner(), 2), Err(InventoryError::ItemNotFound));
    assert_eq!(inventory_get_item(&inventories, Identity { high: 1, low: 0 }, 1), Err(InventoryError::InventoryNotFound));
}

#[test]
fn admin_reducers_need_an_admin() {
    let admins = admins();
    let mut inventories = inventories_with(vec![item(0, 5)]);
    assert_eq!(inventory_add_item(&admins, &mut inventories, owner(), owner(), 0, 5), Err(InventoryError::Unauthorized));
    assert_eq!(inventory_remove_item(&admins, &mut inventories, owner(), owner(), 0, 5), Err(InventoryError::Unauthorized));
    assert_eq!(held(&inventories), vec![item(0, 5)]);
    assert_eq!(inventory_add_item(&admins, &mut inventories, root(), owner(), 0, 5), Ok(()));
    assert_eq!(held(&inventories), vec![item(0, 10)]);
    assert_eq!(inventory_remove_item(&admins, &mut inventories, root(), owner(), 0, 11), Err(InventoryError::QuantityShort));
    assert_eq!(inventory_remove_item(&admins, &mut inventories, root(), owner(), 0, 10), Ok(()));
    assert!(held(&inventories).is_empty());
    assert_eq!(
        inventory_add_item(&admins, &mut inventories, root(), root(), 1, u32::MAX),
        Err(InventoryError::QuantityOverflow)
    );
}

#[test]
fn admins_are_added_and_removed_by_admins() {
    let mut admins = admins();
    assert!(is_admin(&admins, root()));
    assert!(!is_admin(&admins, owner()));
    assert_eq!(require_admin(&admins, root()), Ok(()));
    assert_eq!(require_admin(&admins, owner()), Err(AdminError::Unauthorized));
    assert_eq!(admin_add(&mut admins, owner(), owner()), Err(AdminError::Unauthorized));
    assert_eq!(admin_add(&mut admins, root(), root()), Err(AdminError::AlreadyAdmin));
    assert_eq!(admin_add(&mut admins, root(), owner()), Ok(()));
    assert!(is_admin(&admins, owner()));
    assert_eq!(admin_remove(&mut admins, owner(), root()), Ok(()));
    assert!(!is_admin(&admins, root()));
    assert_eq!(admin_remove(&mut admins, root(), owner()), Err(AdminError::Unauthorized));
    assert_eq!(admin_remove(&mut admins, owner(), root()), Err(AdminError::NotAdmin));
    assert_eq!(admins.len(), 1);
}
