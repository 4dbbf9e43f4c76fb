use crate::admin::{is_admin, Admin};
use crate::store::{Record, Table};
use crate::types::Identity;
use vstd::prelude::*;

verus! {

/// How many kinds of item a new inventory can hold.
pub const DEFAULT_INVENTORY_SIZE: u32 = 32;

/// A number of items of one kind.
#[derive(Clone, Copy, Debug, PartialEq, Eq, Structural)]
pub struct ItemRef {
    pub id: u32,
    pub quantity: u32,
}

/// A kind of item.
#[derive(Clone, Debug, PartialEq, Eq)]
pub struct Item {
    pub id: u32,
    pub name: String,
    pub description: String,
    /// Weight of one item, in thousandths.
    pub weight: i32,
}

impl Record for Item {
    type Key = u32;

    open spec fn key(&self) -> u32 {
        self.id
    }

    fn key_of(&self) -> (key: u32) {
        self.id
    }

    fn has_key(&self, key: &u32) -> (r: bool) {
        self.id == *key
    }
}

/// What one identity carries.
#[derive(Clone, Debug, PartialEq, Eq)]
pub struct Inventory {
    pub identity: Identity,
    pub size: u32,
    pub items: Vec<ItemRef>,
}

impl Record for Inventory {
    type Key = Identity;

    open spec fn key(&self) -> Identity {
        self.identity
    }

    fn key_of(&self) -> (key: Identity) {
        self.identity
    }

    fn has_key(&self, key: &Identity) -> (r: bool) {
        self.identity == *key
    }
}

/// Why an operation on items or inventories was refused.
#[derive(Clone, Copy, Debug, PartialEq, Eq, Structural)]
pub enum InventoryError {
    /// The caller is no administrator.
    Unauthorized,
    /// An item kind with that identifier is already defined.
    ItemExists,
    /// The identity already has an inventory.
    InventoryExists,
    InventoryNotFound,
    ItemNotFound,
    /// The sum would be more than a quantity can hold.
    QuantityOverflow,
    /// The inventory holds fewer than are to be taken.
    QuantityShort,
}

/// Whether `i` is the first place in `items` that holds the kind `item_id`.
pub open spec fn is_first_of(items: Seq<ItemRef>, item_id: u32, i: int) -> bool {
    &&& 0 <= i < items.len()
    &&& items[i].id == item_id
    &&& forall|j: int| 0 <= j < i ==> (#[trigger] items[j]).id != item_id
}

/// Whether `items` holds the kind `item_id`.
pub open spec fn holds_item(items: Seq<ItemRef>, item_id: u32) -> bool {
    exists|i: int| 0 <= i < items.len() && (#[trigger] items[i]).id == item_id
}

/// The first place in `items` that holds the kind `item_id`.
pub open spec fn first_of(items: Seq<ItemRef>, item_id: u32) -> int {
    choose|i: int| is_first_of(items, item_id, i)
}

/// The first place that holds a kind is the only one that `is_first_of`
/// admits.
pub proof fn lemma_first_of(items: Seq<ItemRef>, item_id: u32, i: int)
    requires
        is_first_of(items, item_id, i),
    ensures
        holds_item(items, item_id),
        first_of(items, item_id) == i,
{
    let j = first_of(items, item_id);
    assert(is_first_of(items, item_id, j));
    if j < i {
        assert(items[j].id != item_id);
    } else if i < j {
        assert(items[i].id != item_id);
    }
}

/// The items after `quantity` of the kind `item_id` came in: added to the
/// first entry of that kind, or a new last entry.
pub open spec fn items_after_add(items: Seq<ItemRef>, item_id: u32, quantity: u32) -> Seq<
    ItemRef,
> {
    if holds_item(items, item_id) {
        let i = first_of(items, item_id);
        items.update(i, ItemRef { id: item_id, quantity: (items[i].quantity + quantity) as u32 })
    } else {
        items.push(ItemRef { id: item_id, quantity })
    }
}

/// Whether adding `quantity` of the kind `item_id` would give more than a
/// quantity can hold.
pub open spec fn add_overflows(items: Seq<ItemRef>, item_id: u32, quantity: u32) -> bool {
    holds_item(items, item_id) && items[first_of(items, item_id)].quantity + quantity > u32::MAX
}

/// The items after `quantity` of the kind `item_id` went out of the first
/// entry of that kind: an entry that is left with none goes too.
pub open spec fn items_after_remove(items: Seq<ItemRef>, item_id: u32, quantity: u32) -> Seq<
    ItemRef,
> {
    if holds_item(items, item_id) {
        let i = first_of(items, item_id);
        if items[i].quantity == quantity {
            items.remove(i)
        } else {
            items.update(
                i,
                ItemRef { id: item_id, quantity: (items[i].quantity - quantity) as u32 },
            )
        }
    } else {
        items
    }
}

/// Whether `items` holds fewer than `quantity` in its first entry of the
/// kind `item_id`.
pub open spec fn remove_underflows(items: Seq<ItemRef>, item_id: u32, quantity: u32) -> bool {
    holds_item(items, item_id) && items[first_of(items, item_id)].quantity < quantity
}

/// The first place in `items` that holds the kind `item_id`, if any does.
pub fn find_item(items: &Vec<ItemRef>, item_id: u32) -> (r: Option<usize>)
    ensures
        r is Some <==> holds_item(items@, item_id),
        r matches Some(i) ==> i == first_of(items@, item_id) && is_first_of(
            items@,
            item_id,
            i as int,
        ),
{
    let mut i: usize = 0;
    while i < items.len()
        invariant
            i <= items.len(),
            forall|j: int| 0 <= j < i ==> (#[trigger] items@[j]).id != item_id,
        decreases items.len() - i,
    {
        if items[i].id == item_id {
            proof {
                lemma_first_of(items@, item_id, i as int);
            }
            return Some(i);
        }
        i += 1;
    }
    None
}

/// Adds `quantity` of the kind `item_id` to `items`, unless the sum would
/// be too large.
pub fn add_to_items(items: &mut Vec<ItemRef>, item_id: u32, quantity: u32) -> (r: Result<
    (),
    InventoryError,
>)
    ensures
        r is Err <==> add_overflows(old(items)@, item_id, quantity),
        r matches Err(e) ==> e == InventoryError::QuantityOverflow && final(items)@ == old(items)@,
        r is Ok ==> final(items)@ == items_after_add(old(items)@, item_id, quantity),
{
    match find_item(items, item_id) {
        Some(i) => {
            let held: u32 = items[i].quantity;
            match held.checked_add(quantity) {
                Some(sum) => {
                    items[i] = ItemRef { id: item_id, quantity: sum };
                    Ok(())
                },
                None => Err(InventoryError::QuantityOverflow),
            }
        },
        None => {
            items.push(ItemRef { id: item_id, quantity });
            Ok(())
        },
    }
}

/// Takes `quantity` of the kind `item_id` out of `items`, unless fewer are
/// held. Where the kind is not held at all, nothing changes.
pub fn remove_from_items(items: &mut Vec<ItemRef>, item_id: u32, quantity: u32) -> (r: Result<
    (),
    InventoryError,
>)
    ensures
        r is Err <==> remove_underflows(old(items)@, item_id, quantity),
        r matches Err(e) ==> e == InventoryError::QuantityShort && final(items)@ == old(items)@,
        r is Ok ==> final(items)@ == items_after_remove(old(items)@, item_id, quantity),
{
    match find_item(items, item_id) {
        Some(i) => {
            let held: u32 = items[i].quantity;
            if held < quantity {
                Err(InventoryError::QuantityShort)
            } else if held == quantity {
                items.remove(i);
                Ok(())
            } else {
                items[i] = ItemRef { id: item_id, quantity: held - quantity };
                Ok(())
            }
        },
        None => Ok(()),
    }
}

/// A list with the same entries as `items`.
pub fn copy_items(items: &Vec<ItemRef>) -> (copy: Vec<ItemRef>)
    ensures
        copy@ == items@,
{
    let mut copy: Vec<ItemRef> = Vec::new();
    let mut i: usize = 0;
    while i < items.len()
        invariant
            i <= items.len(),
            copy@ == items@.subrange(0, i as int),
        decreases items.len() - i,
    {
        copy.push(items[i]);
        assert(copy@ =~= items@.subrange(0, i + 1));
        i += 1;
    }
    assert(copy@ =~= items@);
    copy
}

/// Whether `item` is the kind `id` with this name, description and weight.
pub open spec fn is_item(
    item: Item,
    id: u32,
    name: Seq<char>,
    description: Seq<char>,
    weight: i32,
) -> bool {
    &&& item.id == id
    &&& item.name@ == name
    &&& item.description@ == description
    &&& item.weight == weight
}

/// Whether `after` is `before` with the items of `identity` set to `items`
/// and nothing else changed.
pub open spec fn items_replaced(
    before: Map<Identity, Inventory>,
    after: Map<Identity, Inventory>,
    identity: Identity,
    items: Seq<ItemRef>,
) -> bool {
    &&& after.dom() == before.dom()
    &&& forall|other: Identity|
        before.contains_key(other) && other != identity ==> #[trigger] after[other]
            == before[other]
    &&& after[identity].identity == identity
    &&& after[identity].size == before[identity].size
    &&& after[identity].items@ == items
}

/// Whether `after` is `before` once `quantity` of the kind `item_id` came
/// in for `identity`. Without an inventory there is nowhere to put them,
/// and nothing changes.
pub open spec fn granted(
    before: Map<Identity, Inventory>,
    after: Map<Identity, Inventory>,
    identity: Identity,
    item_id: u32,
    quantity: u32,
) -> bool {
    if before.contains_key(identity) {
        items_replaced(
            before,
            after,
            identity,
            items_after_add(before[identity].items@, item_id, quantity),
        )
    } else {
        after == before
    }
}

/// Whether `after` is `before` once `quantity` of the kind `item_id` went
/// out for `identity`. Without an inventory nothing changes.
pub open spec fn taken(
    before: Map<Identity, Inventory>,
    after: Map<Identity, Inventory>,
    identity: Identity,
    item_id: u32,
    quantity: u32,
) -> bool {
    if before.contains_key(identity) {
        items_replaced(
            before,
            after,
            identity,
            items_after_remove(before[identity].items@, item_id, quantity),
        )
    } else {
        after == before
    }
}

/// Whether `after` is `before` with the two kinds of item that every world
/// starts with.
pub open spec fn default_items_added(before: Map<u32, Item>, after: Map<u32, Item>) -> bool {
    &&& after.dom() == before.dom().insert(0).insert(1)
    &&& forall|id: u32| before.contains_key(id) ==> after[id] == before[id]
    &&& is_item(after[0], 0, "Branch"@, "A sturdy wooden branch."@, 500)
    &&& is_item(after[1], 1, "Rock"@, "A solid rock."@, 1000)
}

/// Defines the two kinds of item that every world starts with.
pub fn item_init(items: &mut Table<Item>) -> (r: Result<(), InventoryError>)
    ensures
        r is Err <==> old(items)@.contains_key(0) || old(items)@.contains_key(1),
        r matches Err(e) ==> e == InventoryError::ItemExists && final(items)@ == old(items)@,
        r is Ok ==> default_items_added(old(items)@, final(items)@),
{
    if items.find(&0).is_some() || items.find(&1).is_some() {
        return Err(InventoryError::ItemExists);
    }
    items.insert(
        Item {
            id: 0,
            name: "Branch".to_owned(),
            description: "A sturdy wooden branch.".to_owned(),
            weight: 500,
        },
    );
    items.insert(
        Item {
            id: 1,
            name: "Rock".to_owned(),
            description: "A solid rock.".to_owned(),
            weight: 1000,
        },
    );
    Ok(())
}

/// Gives the caller an empty inventory.
pub fn inventory_create(inventories: &mut Table<Inventory>, sender: Identity) -> (r: Result<
    (),
    InventoryError,
>)
    ensures
        r is Err <==> old(inventories)@.contains_key(sender),
        r matches Err(e) ==> e == InventoryError::InventoryExists && final(inventories)@ == old(inventories)@,
        r is Ok ==> {
            &&& final(inventories)@.dom() == old(inventories)@.dom().insert(sender)
            &&& forall|other: Identity|
                old(inventories)@.contains_key(other) ==> final(inventories)@[other] == old(inventories)@[other]
            &&& final(inventories)@[sender].identity == sender
            &&& final(inventories)@[sender].size == DEFAULT_INVENTORY_SIZE
            &&& final(inventories)@[sender].items@ == Seq::<ItemRef>::empty()
        },
{
    let inventory = Inventory { identity: sender, size: DEFAULT_INVENTORY_SIZE, items: Vec::new() };
    if inventories.insert(inventory) {
        Ok(())
    } else {
        Err(InventoryError::InventoryExists)
    }
}

/// Adds `quantity` of the kind `item_id` to the inventory of `identity`,
/// if it has one.
pub fn inventory_add_item_internal(
    inventories: &mut Table<Inventory>,
    identity: Identity,
    item_id: u32,
    quantity: u32,
) -> (r: Result<(), InventoryError>)
    ensures
        r is Err <==> old(inventories)@.contains_key(identity) && add_overflows(
            old(inventories)@[identity].items@,
            item_id,
            quantity,
        ),
        r matches Err(e) ==> e == InventoryError::QuantityOverflow && final(inventories)@ == old(inventories)@,
        r is Ok ==> granted(old(inventories)@, final(inventories)@, identity, item_id, quantity),
{
    let place = match inventories.position(&identity) {
        Some(i) => i,
        None => {
            return Ok(());
        },
    };
    // Refused before the row is touched, so that a refusal changes nothing.
    let held = &inventories.rows()[place];
    if let Some(i) = find_item(&held.items, item_id) {
        if held.items[i].quantity.checked_add(quantity).is_none() {
            return Err(InventoryError::QuantityOverflow);
        }
    }
    let mut inventory = inventories.remove_at(place);
    let outcome = add_to_items(&mut inventory.items, item_id, quantity);
    inventories.insert(inventory);
    outcome
}

/// An administrator adds items to the inventory of `identity`.
pub fn inventory_add_item(
    admins: &Table<Admin>,
    inventories: &mut Table<Inventory>,
    sender: Identity,
    identity: Identity,
    item_id: u32,
    quantity: u32,
) -> (r: Result<(), InventoryError>)
    ensures
        !admins@.contains_key(sender) ==> r == Err::<(), InventoryError>(
            InventoryError::Unauthorized,
        ) && final(inventories)@ == old(inventories)@,
        admins@.contains_key(sender) ==> {
            &&& r is Err <==> old(inventories)@.contains_key(identity) && add_overflows(
                old(inventories)@[identity].items@,
                item_id,
                quantity,
            )
            &&& r matches Err(e) ==> e == InventoryError::QuantityOverflow && final(inventories)@ == old(inventories)@
            &&& r is Ok ==> granted(
                old(inventories)@,
                final(inventories)@,
                identity,
                item_id,
                quantity,
            )
        },
{
    if !is_admin(admins, sender) {
        return Err(InventoryError::Unauthorized);
    }
    inventory_add_item_internal(inventories, identity, item_id, quantity)
}

/// What the caller holds of the kind `item_id`.
pub fn inventory_get_item(inventories: &Table<Inventory>, sender: Identity, item_id: u32) -> (r:
    Result<ItemRef, InventoryError>)
    ensures
        r == if !inventories@.contains_key(sender) {
            Err::<ItemRef, InventoryError>(InventoryError::InventoryNotFound)
        } else if !holds_item(inventories@[sender].items@, item_id) {
            Err(InventoryError::ItemNotFound)
        } else {
            Ok(inventories@[sender].items@[first_of(inventories@[sender].items@, item_id)])
        },
{
    match inventories.find(&sender) {
        Some(inventory) => match find_item(&inventory.items, item_id) {
            Some(i) => Ok(inventory.items[i]),
            None => Err(InventoryError::ItemNotFound),
        },
        None => Err(InventoryError::InventoryNotFound),
    }
}

/// Takes `quantity` of the kind `item_id` out of the inventory of
/// `identity`, if it has one and holds the kind.
pub fn inventory_remove_item_internal(
    inventories: &mut Table<Inventory>,
    identity: Identity,
    item_id: u32,
    quantity: u32,
) -> (r: Result<(), InventoryError>)
    ensures
        r is Err <==> old(inventories)@.contains_key(identity) && remove_underflows(
            old(inventories)@[identity].items@,
            item_id,
            quantity,
        ),
        r matches Err(e) ==> e == InventoryError::QuantityShort && final(inventories)@ == old(inventories)@,
        r is Ok ==> taken(old(inventories)@, final(inventories)@, identity, item_id, quantity),
{
    let place = match inventories.position(&identity) {
        Some(i) => i,
        None => {
            return Ok(());
        },
    };
    // Refused before the row is touched, so that a refusal changes nothing.
    let held = &inventories.rows()[place];
    if let Some(i) = find_item(&held.items, item_id) {
        if held.items[i].quantity < quantity {
            return Err(InventoryError::QuantityShort);
        }
    }
    let mut inventory = inventories.remove_at(place);
    let outcome = remove_from_items(&mut inventory.items, item_id, quantity);
    inventories.insert(inventory);
    outcome
}

/// An administrator takes items out of the inventory of `identity`.
pub fn inventory_remove_item(
    admins: &Table<Admin>,
    inventories: &mut Table<Inventory>,
    sender: Identity,
    identity: Identity,
    item_id: u32,
    quantity: u32,
) -> (r: Result<(), InventoryError>)
    ensures
        !admins@.contains_key(sender) ==> r == Err::<(), InventoryError>(
            InventoryError::Unauthorized,
        ) && final(inventories)@ == old(inventories)@,
        admins@.contains_key(sender) ==> {
            &&& r is Err <==> old(inventories)@.contains_key(identity) && remove_underflows(
                old(inventories)@[identity].items@,
                item_id,
                quantity,
            )
            &&& r matches Err(e) ==> e == InventoryError::QuantityShort && final(inventories)@
                == old(inventories)@
            &&& r is Ok ==> taken(
                old(inventories)@,
                final(inventories)@,
                identity,
                item_id,
                quantity,
            )
        },
{
    if !is_admin(admins, sender) {
        return Err(InventoryError::Unauthorized);
    }
    inventory_remove_item_internal(inventories, identity, item_id, quantity)
}

} // verus!
