//! Authorization guard: a coarse capability check (does the actor hold the
//! named permission bit for the scope) followed, for rank-bearing writes, by
//! a fine-grained elevation check against the actor's effective rank.

use vstd::prelude::*;

verus! {

/// Errors surfaced by the mutation path. Authorization failures are terminal
/// for the request and are never retried by the core.
#[derive(Clone, Copy, Debug, PartialEq, Eq, Structural)]
pub enum Error {
    /// The referenced object does not exist.
    NotFound,
    /// The actor does not hold the required permission bit.
    InsufficientPermission,
    /// The actor's effective rank is not strictly more privileged than the
    /// rank value being written.
    NotElevated,
}

/// Named permission bits an actor can hold over a server scope.
#[derive(Clone, Copy, Debug, PartialEq, Eq, Structural)]
pub enum Permission {
    ManageServer,
    ManageRole,
    AssignRoles,
}

pub open spec fn spec_permission_mask(p: Permission) -> u64 {
    match p {
        Permission::ManageServer => 1u64,
        Permission::ManageRole => 2u64,
        Permission::AssignRoles => 4u64,
    }
}

/// The bit each permission occupies in a resolved permission set.
pub fn permission_mask(p: Permission) -> (r: u64)
    ensures
        r == spec_permission_mask(p),
{
    match p {
        Permission::ManageServer => 1u64,
        Permission::ManageRole => 2u64,
        Permission::AssignRoles => 4u64,
    }
}

/// An actor's resolved permission bitset for one scope. Resolution itself is
/// the job of an external collaborator; the guard only reads the bits.
#[derive(Clone, Copy, Debug, PartialEq, Eq, Structural)]
pub struct PermissionSet {
    pub bits: u64,
}

impl PermissionSet {
    pub open spec fn spec_has(self, p: Permission) -> bool {
        self.bits & spec_permission_mask(p) != 0
    }

    /// Whether the named permission bit is set.
    pub fn has(&self, p: Permission) -> (r: bool)
        ensures
            r == self.spec_has(p),
    {
        self.bits & permission_mask(p) != 0
    }
}

/// The guard's verdict, spelled out: granted exactly when the permission bit
/// is held and any proposed rank is strictly less privileged (numerically
/// greater) than the actor's effective rank.
pub open spec fn spec_authorize(
    perms: PermissionSet,
    p: Permission,
    actor_rank: i64,
    proposed_rank: Option<i64>,
) -> Result<(), Error> {
    if !perms.spec_has(p) {
        Err(Error::InsufficientPermission)
    } else if proposed_rank is Some && proposed_rank->0 <= actor_rank {
        Err(Error::NotElevated)
    } else {
        Ok(())
    }
}

/// Gate a mutating operation: deny with `InsufficientPermission` when the
/// permission bit is unset; otherwise, when a rank value is proposed, deny
/// with `NotElevated` unless `proposed_rank > actor_rank` strictly. Read-only;
/// never retries.
pub fn authorize(
    perms: &PermissionSet,
    p: Permission,
    actor_rank: i64,
    proposed_rank: Option<i64>,
) -> (r: Result<(), Error>)
    ensures
        r == spec_authorize(*perms, p, actor_rank, proposed_rank),
        r is Ok <==> perms.spec_has(p) && (proposed_rank is Some ==> proposed_rank->0 > actor_rank),
{
    if !perms.has(p) {
        return Err(Error::InsufficientPermission);
    }
    if let Some(rank) = proposed_rank {
        if rank <= actor_rank {
            return Err(Error::NotElevated);
        }
    }
    Ok(())
}

} // verus!
