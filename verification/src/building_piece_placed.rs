use crate::admin::{is_admin, Admin};
use crate::inventory::{
    add_overflows, add_to_items, copy_items, find_item, first_of, holds_item, items_after_add,
    items_after_remove, items_replaced, remove_from_items, remove_underflows, Inventory, ItemRef,
};
use crate::store::{next_key, Record, Table};
use crate::types::{DbVector3, Identity};
use vstd::prelude::*;

verus! {

/// The kinds of building piece.
#[derive(Clone, Copy, Debug, PartialEq, Eq, Structural)]
pub enum DbBuildingPieceType {
    Foundation,
    Wall,
    Floor,
    Stair,
}

/// A building piece that stands in the world.
#[derive(Clone, Copy, Debug, PartialEq, Eq, Structural)]
pub struct DbBuildingPiecePlaced {
    pub piece_id: u32,
    pub owner: Identity,
    pub variant_id: u32,
    pub position: DbVector3,
    pub rotation: DbVector3,
}

impl Record for DbBuildingPiecePlaced {
    type Key = u32;

    open spec fn key(&self) -> u32 {
        self.piece_id
    }

    fn key_of(&self) -> (key: u32) {
        self.piece_id
    }

    fn has_key(&self, key: &u32) -> (r: bool) {
        self.piece_id == *key
    }
}

/// Why a building piece was not placed or removed.
#[derive(Clone, Copy, Debug, PartialEq, Eq, Structural)]
pub enum BuildingError {
    InventoryNotFound,
    /// The inventory holds none of a material that the piece costs.
    ItemNotFound,
    NotEnoughMaterials,
    /// Every identifier is in use.
    IdsExhausted,
    PieceNotFound,
    /// The caller neither owns the piece nor is an administrator.
    NotOwner,
    /// The owner's inventory cannot hold the materials that come back.
    QuantityOverflow,
}

/// The items of `identity`, where it has an inventory.
pub open spec fn held_by(inventories: Map<Identity, Inventory>, identity: Identity) -> Option<
    Seq<ItemRef>,
> {
    if inventories.contains_key(identity) {
        Some(inventories[identity].items@)
    } else {
        None
    }
}

/// The first thing that is wrong when each cost is held against what the
/// builder has: no inventory, none of a material, or too few of it.
pub open spec fn materials_check(held: Option<Seq<ItemRef>>, costs: Seq<ItemRef>) -> Result<
    (),
    BuildingError,
>
    decreases costs.len(),
{
    if costs.len() == 0 {
        Ok(())
    } else {
        match held {
            None => Err(BuildingError::InventoryNotFound),
            Some(items) => if !holds_item(items, costs[0].id) {
                Err(BuildingError::ItemNotFound)
            } else if items[first_of(items, costs[0].id)].quantity < costs[0].quantity {
                Err(BuildingError::NotEnoughMaterials)
            } else {
                materials_check(held, costs.drop_first())
            },
        }
    }
}

/// The items after each cost was taken out in turn, or `None` where one of
/// them could not be taken in full.
pub open spec fn paid(items: Seq<ItemRef>, costs: Seq<ItemRef>) -> Option<Seq<ItemRef>>
    decreases costs.len(),
{
    if costs.len() == 0 {
        Some(items)
    } else if remove_underflows(items, costs[0].id, costs[0].quantity) {
        None
    } else {
        paid(items_after_remove(items, costs[0].id, costs[0].quantity), costs.drop_first())
    }
}

/// The items after each cost came back in turn, or `None` where one of
/// them would give more than a quantity can hold.
pub open spec fn refunded(items: Seq<ItemRef>, costs: Seq<ItemRef>) -> Option<Seq<ItemRef>>
    decreases costs.len(),
{
    if costs.len() == 0 {
        Some(items)
    } else if add_overflows(items, costs[0].id, costs[0].quantity) {
        None
    } else {
        refunded(items_after_add(items, costs[0].id, costs[0].quantity), costs.drop_first())
    }
}

/// Computes `materials_check` for a builder who has an inventory.
pub fn check_materials(items: &Vec<ItemRef>, costs: &Vec<ItemRef>) -> (r: Result<
    (),
    BuildingError,
>)
    ensures
        r == materials_check(Some(items@), costs@),
{
    let mut i: usize = 0;
    assert(costs@.subrange(0, costs@.len() as int) =~= costs@);
    while i < costs.len()
        invariant
            i <= costs.len(),
            materials_check(Some(items@), costs@) == materials_check(
                Some(items@),
                costs@.subrange(i as int, costs@.len() as int),
            ),
        decreases costs.len() - i,
    {
        let ghost rest = costs@.subrange(i as int, costs@.len() as int);
        assert(rest[0] == costs@[i as int]);
        assert(rest.drop_first() =~= costs@.subrange(i + 1, costs@.len() as int));
        match find_item(items, costs[i].id) {
            None => {
                return Err(BuildingError::ItemNotFound);
            },
            Some(place) => {
                if items[place].quantity < costs[i].quantity {
                    return Err(BuildingError::NotEnoughMaterials);
                }
            },
        }
        i += 1;
    }
    Ok(())
}

/// Takes each cost out of `items` in turn. Says whether all could be
/// taken; where not, `items` holds what was left when the first could not.
fn pay(items: &mut Vec<ItemRef>, costs: &Vec<ItemRef>) -> (done: bool)
    ensures
        done == paid(old(items)@, costs@) is Some,
        done ==> final(items)@ == paid(old(items)@, costs@).unwrap(),
{
    let mut i: usize = 0;
    assert(costs@.subrange(0, costs@.len() as int) =~= costs@);
    while i < costs.len()
        invariant
            i <= costs.len(),
            paid(old(items)@, costs@) == paid(
                items@,
                costs@.subrange(i as int, costs@.len() as int),
            ),
        decreases costs.len() - i,
    {
        let ghost rest = costs@.subrange(i as int, costs@.len() as int);
        assert(rest[0] == costs@[i as int]);
        assert(rest.drop_first() =~= costs@.subrange(i + 1, costs@.len() as int));
        if remove_from_items(items, costs[i].id, costs[i].quantity).is_err() {
            return false;
        }
        i += 1;
    }
    true
}

/// Adds each cost to `items` in turn. Says whether all could be added;
/// where not, `items` holds what was there when the first could not.
fn refund(items: &mut Vec<ItemRef>, costs: &Vec<ItemRef>) -> (done: bool)
    ensures
        done == refunded(old(items)@, costs@) is Some,
        done ==> final(items)@ == refunded(old(items)@, costs@).unwrap(),
{
    let mut i: usize = 0;
    assert(costs@.subrange(0, costs@.len() as int) =~= costs@);
    while i < costs.len()
        invariant
            i <= costs.len(),
            refunded(old(items)@, costs@) == refunded(
                items@,
                costs@.subrange(i as int, costs@.len() as int),
            ),
        decreases costs.len() - i,
    {
        let ghost rest = costs@.subrange(i as int, costs@.len() as int);
        assert(rest[0] == costs@[i as int]);
        assert(rest.drop_first() =~= costs@.subrange(i + 1, costs@.len() as int));
        if add_to_items(items, costs[i].id, costs[i].quantity).is_err() {
            return false;
        }
        i += 1;
    }
    true
}

/// The verdict on placing a piece that costs `costs`: the identifier of
/// the piece, or the first thing that is in the way.
pub open spec fn place_verdict(
    inventories: Map<Identity, Inventory>,
    pieces: Map<u32, DbBuildingPiecePlaced>,
    sender: Identity,
    costs: Seq<ItemRef>,
) -> Result<u32, BuildingError> {
    let held = held_by(inventories, sender);
    match materials_check(held, costs) {
        Err(e) => Err(e),
        Ok(()) => if held is Some && paid(held.unwrap(), costs) is None {
            Err(BuildingError::NotEnoughMaterials)
        } else if pieces.contains_key(u32::MAX) {
            Err(BuildingError::IdsExhausted)
        } else {
            Ok(next_key(pieces))
        },
    }
}

/// The caller places a building piece of the variant `variant_id`, which
/// costs `build_cost`, and pays for it out of its inventory. A refusal
/// changes nothing.
pub fn building_piece_place(
    inventories: &mut Table<Inventory>,
    pieces: &mut Table<DbBuildingPiecePlaced>,
    sender: Identity,
    variant_id: u32,
    build_cost: &Vec<ItemRef>,
    position: DbVector3,
    rotation: DbVector3,
) -> (r: Result<u32, BuildingError>)
    ensures
        r == place_verdict(old(inventories)@, old(pieces)@, sender, build_cost@),
        r is Err ==> final(inventories)@ == old(inventories)@ && final(pieces)@ == old(pieces)@,
        r matches Ok(piece_id) ==> {
            &&& final(pieces)@ == old(pieces)@.insert(
                piece_id,
                DbBuildingPiecePlaced { piece_id, owner: sender, variant_id, position, rotation },
            )
            &&& match held_by(old(inventories)@, sender) {
                Some(items) => items_replaced(
                    old(inventories)@,
                    final(inventories)@,
                    sender,
                    paid(items, build_cost@).unwrap(),
                ),
                None => final(inventories)@ == old(inventories)@,
            }
        },
{
    let place = inventories.position(&sender);
    let mut left: Vec<ItemRef> = Vec::new();
    match place {
        None => {
            if build_cost.len() > 0 {
                return Err(BuildingError::InventoryNotFound);
            }
        },
        Some(i) => {
            let held = &inventories.rows()[i];
            check_materials(&held.items, build_cost)?;
            left = copy_items(&held.items);
            if !pay(&mut left, build_cost) {
                return Err(BuildingError::NotEnoughMaterials);
            }
        },
    }
    let piece_id: u32 = match pieces.fresh_key() {
        Some(id) => id,
        None => {
            return Err(BuildingError::IdsExhausted);
        },
    };
    if let Some(i) = place {
        let mut inventory = inventories.remove_at(i);
        inventory.items = left;
        inventories.insert(inventory);
    }
    pieces.insert(DbBuildingPiecePlaced { piece_id, owner: sender, variant_id, position, rotation });
    Ok(piece_id)
}

/// The piece `piece_id`, where it stands and the caller may remove it: the
/// caller owns it or is an administrator.
pub open spec fn removable(
    pieces: Map<u32, DbBuildingPiecePlaced>,
    admins: Map<Identity, Admin>,
    sender: Identity,
    piece_id: u32,
) -> Result<DbBuildingPiecePlaced, BuildingError> {
    if !pieces.contains_key(piece_id) {
        Err(BuildingError::PieceNotFound)
    } else if pieces[piece_id].owner != sender && !admins.contains_key(sender) {
        Err(BuildingError::NotOwner)
    } else {
        Ok(pieces[piece_id])
    }
}

/// Computes `removable`.
pub fn removable_piece(
    pieces: &Table<DbBuildingPiecePlaced>,
    admins: &Table<Admin>,
    sender: Identity,
    piece_id: u32,
) -> (r: Result<DbBuildingPiecePlaced, BuildingError>)
    ensures
        r == removable(pieces@, admins@, sender, piece_id),
{
    let piece = match pieces.find(&piece_id) {
        Some(found) => *found,
        None => {
            return Err(BuildingError::PieceNotFound);
        },
    };
    if !(piece.owner == sender) && !is_admin(admins, sender) {
        return Err(BuildingError::NotOwner);
    }
    Ok(piece)
}

/// The verdict on removing the piece `piece_id`, whose variant costs
/// `costs`.
pub open spec fn remove_verdict(
    pieces: Map<u32, DbBuildingPiecePlaced>,
    admins: Map<Identity, Admin>,
    inventories: Map<Identity, Inventory>,
    sender: Identity,
    piece_id: u32,
    costs: Seq<ItemRef>,
) -> Result<(), BuildingError> {
    match removable(pieces, admins, sender, piece_id) {
        Err(e) => Err(e),
        Ok(piece) => match held_by(inventories, piece.owner) {
            Some(items) => if refunded(items, costs) is None {
                Err(BuildingError::QuantityOverflow)
            } else {
                Ok(())
            },
            None => Ok(()),
        },
    }
}

/// The owner of the piece `piece_id`, or an administrator, removes it.
/// What its variant costs, `build_cost`, goes back to the owner's
/// inventory, if the owner has one. A refusal changes nothing.
pub fn building_piece_remove(
    pieces: &mut Table<DbBuildingPiecePlaced>,
    admins: &Table<Admin>,
    inventories: &mut Table<Inventory>,
    sender: Identity,
    piece_id: u32,
    build_cost: &Vec<ItemRef>,
) -> (r: Result<(), BuildingError>)
    ensures
        r == remove_verdict(
            old(pieces)@,
            admins@,
            old(inventories)@,
            sender,
            piece_id,
            build_cost@,
        ),
        r is Err ==> final(inventories)@ == old(inventories)@ && final(pieces)@ == old(pieces)@,
        r is Ok ==> {
            &&& final(pieces)@ == old(pieces)@.remove(piece_id)
            &&& match held_by(old(inventories)@, old(pieces)@[piece_id].owner) {
                Some(items) => items_replaced(
                    old(inventories)@,
                    final(inventories)@,
                    old(pieces)@[piece_id].owner,
                    refunded(items, build_cost@).unwrap(),
                ),
                None => final(inventories)@ == old(inventories)@,
            }
        },
{
    let owner = removable_piece(pieces, admins, sender, piece_id)?.owner;
    if let Some(i) = inventories.position(&owner) {
        let mut back = copy_items(&inventories.rows()[i].items);
        if !refund(&mut back, build_cost) {
            return Err(BuildingError::QuantityOverflow);
        }
        let mut inventory = inventories.remove_at(i);
        inventory.items = back;
        inventories.insert(inventory);
    }
    pieces.remove(&piece_id);
    Ok(())
}

} // verus!
