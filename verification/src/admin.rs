use crate::store::{Record, Table};
use crate::types::Identity;
use vstd::prelude::*;

verus! {

/// An identity that may do what is kept to administrators.
#[derive(Clone, Copy, Debug, PartialEq, Eq, Structural)]
pub struct Admin {
    pub identity: Identity,
}

impl Record for Admin {
    type Key = Identity;

    open spec fn key(&self) -> Identity {
        self.identity
    }

    fn key_of(&self) -> (key: Identity) {
        self.identity
    }

    fn has_key(&self, key: &Identity) -> (r: bool) {
        self.identity == *key
    }
}

/// Why a change to the administrators was refused.
#[derive(Clone, Copy, Debug, PartialEq, Eq, Structural)]
pub enum AdminError {
    /// The caller is no administrator.
    Unauthorized,
    AlreadyAdmin,
    NotAdmin,
}

/// Whether `identity` is an administrator.
pub fn is_admin(admins: &Table<Admin>, identity: Identity) -> (r: bool)
    ensures
        r == admins@.contains_key(identity),
{
    admins.find(&identity).is_some()
}

/// Passes only where the caller is an administrator.
pub fn require_admin(admins: &Table<Admin>, sender: Identity) -> (r: Result<(), AdminError>)
    ensures
        r == if admins@.contains_key(sender) {
            Ok::<(), AdminError>(())
        } else {
            Err(AdminError::Unauthorized)
        },
{
    if is_admin(admins, sender) {
        Ok(())
    } else {
        Err(AdminError::Unauthorized)
    }
}

/// What adding an administrator does: the verdict and the administrators
/// after it.
pub open spec fn add_admin(admins: Map<Identity, Admin>, sender: Identity, identity: Identity) -> (
    Result<(), AdminError>,
    Map<Identity, Admin>,
) {
    if !admins.contains_key(sender) {
        (Err(AdminError::Unauthorized), admins)
    } else if admins.contains_key(identity) {
        (Err(AdminError::AlreadyAdmin), admins)
    } else {
        (Ok(()), admins.insert(identity, Admin { identity }))
    }
}

/// What removing an administrator does: the verdict and the administrators
/// after it.
pub open spec fn remove_admin(
    admins: Map<Identity, Admin>,
    sender: Identity,
    identity: Identity,
) -> (Result<(), AdminError>, Map<Identity, Admin>) {
    if !admins.contains_key(sender) {
        (Err(AdminError::Unauthorized), admins)
    } else if !admins.contains_key(identity) {
        (Err(AdminError::NotAdmin), admins)
    } else {
        (Ok(()), admins.remove(identity))
    }
}

/// An administrator makes `identity` one too.
pub fn admin_add(admins: &mut Table<Admin>, sender: Identity, identity: Identity) -> (r: Result<
    (),
    AdminError,
>)
    ensures
        (r, final(admins)@) == add_admin(old(admins)@, sender, identity),
{
    require_admin(admins, sender)?;
    if admins.insert(Admin { identity }) {
        Ok(())
    } else {
        Err(AdminError::AlreadyAdmin)
    }
}

/// An administrator takes the role from `identity`.
pub fn admin_remove(admins: &mut Table<Admin>, sender: Identity, identity: Identity) -> (r: Result<
    (),
    AdminError,
>)
    ensures
        (r, final(admins)@) == remove_admin(old(admins)@, sender, identity),
{
    require_admin(admins, sender)?;
    match admins.remove(&identity) {
        Some(_) => Ok(()),
        None => Err(AdminError::NotAdmin),
    }
}

} // verus!
