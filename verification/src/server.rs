//! Servers, membership, and the role-edit entry point: resolve the actor's
//! standing, gate the mutation on the capability and elevation checks, then
//! apply the partial update to the stored role as one atomic in-memory write.

use crate::permissions::{Error, Permission, PermissionSet};
use crate::rank::{is_effective_rank, effective_rank, is_elevated_over};
use crate::role::{
    apply_partial, spec_apply, CustomField, FieldsRole, PartialRole, PartialRoleView, Role,
    RoleView,
};
use vstd::prelude::*;

verus! {

/// One stored role, keyed by its id (unique within the server).
#[derive(Debug)]
pub struct RoleEntry {
    pub id: String,
    pub role: Role,
}

#[verifier::ext_equal]
pub ghost struct RoleEntryView {
    pub id: Seq<char>,
    pub role: RoleView,
}

impl DeepView for RoleEntry {
    type V = RoleEntryView;

    open spec fn deep_view(&self) -> RoleEntryView {
        RoleEntryView { id: self.id.deep_view(), role: self.role.deep_view() }
    }
}

/// A server owning a set of roles.
#[derive(Debug)]
pub struct Server {
    pub id: String,
    pub roles: Vec<RoleEntry>,
}

#[verifier::ext_equal]
pub ghost struct ServerView {
    pub id: Seq<char>,
    pub roles: Seq<RoleEntryView>,
}

impl DeepView for Server {
    type V = ServerView;

    open spec fn deep_view(&self) -> ServerView {
        ServerView { id: self.id.deep_view(), roles: self.roles.deep_view() }
    }
}

/// A user's membership in a server: the ids of the roles assigned to them.
#[derive(Debug)]
pub struct Member {
    pub roles: Vec<String>,
}

/// `i` is the index of the first role entry whose id is `id`.
pub open spec fn is_first_role_match(roles: Seq<RoleEntryView>, id: Seq<char>, i: int) -> bool {
    &&& 0 <= i < roles.len()
    &&& roles[i].id == id
    &&& forall|j: int| 0 <= j < i ==> #[trigger] roles[j].id != id
}

/// Some role entry carries the id.
pub open spec fn role_found(roles: Seq<RoleEntryView>, id: Seq<char>) -> bool {
    exists|i: int| 0 <= i < roles.len() && #[trigger] roles[i].id == id
}

/// Index of the first role entry with the given id, if the id resolves.
pub fn role_index(roles: &Vec<RoleEntry>, id: &String) -> (r: Option<usize>)
    ensures
        match r {
            Some(i) => is_first_role_match(roles.deep_view(), id@, i as int),
            None => !role_found(roles.deep_view(), id@),
        },
{
    let mut i: usize = 0;
    while i < roles.len()
        invariant
            0 <= i <= roles@.len(),
            forall|j: int| 0 <= j < i ==> #[trigger] roles.deep_view()[j].id != id@,
        decreases roles@.len() - i,
    {
        if roles[i].id == *id {
            proof {
                assert(roles.deep_view()[i as int].id == roles@[i as int].id@);
            }
            return Some(i);
        }
        proof {
            assert(roles.deep_view()[i as int].id == roles@[i as int].id@);
        }
        i = i + 1;
    }
    None
}

/// Roles `i` (in the server) and `j` (on the member) agree: the member holds
/// the server's role at index `i`.
pub open spec fn is_member_role(
    roles: Seq<RoleEntryView>,
    member_roles: Seq<Seq<char>>,
    i: int,
    j: int,
) -> bool {
    &&& 0 <= i < roles.len()
    &&& 0 <= j < member_roles.len()
    &&& roles[i].id == member_roles[j]
}

/// `x` is the rank of some role the member holds.
pub open spec fn is_held_rank(
    roles: Seq<RoleEntryView>,
    member_roles: Seq<Seq<char>>,
    x: i64,
) -> bool {
    exists|i: int, j: int| is_member_role(roles, member_roles, i, j) && roles[i].role.rank == x
}

fn contains_string(v: &Vec<String>, s: &String) -> (r: bool)
    ensures
        r == exists|j: int| 0 <= j < v.deep_view().len() && #[trigger] v.deep_view()[j] == s@,
{
    let mut i: usize = 0;
    while i < v.len()
        invariant
            0 <= i <= v@.len(),
            forall|j: int| 0 <= j < i ==> #[trigger] v.deep_view()[j] != s@,
        decreases v@.len() - i,
    {
        if v[i] == *s {
            proof {
                assert(v.deep_view()[i as int] == v@[i as int]@);
            }
            return true;
        }
        proof {
            assert(v.deep_view()[i as int] == v@[i as int]@);
        }
        i = i + 1;
    }
    false
}

/// The actor's effective rank in this server: the most privileged (minimum)
/// rank among the roles the member holds here, or `i64::MIN` — maximal
/// privilege, the server-owner/default semantics — when they hold none.
pub fn member_rank(roles: &Vec<RoleEntry>, member: &Member) -> (r: i64)
    ensures
        (!exists|i: int, j: int|
            is_member_role(roles.deep_view(), member.roles.deep_view(), i, j)) ==> r == i64::MIN,
        (exists|i: int, j: int|
            is_member_role(roles.deep_view(), member.roles.deep_view(), i, j)) ==> {
            &&& is_held_rank(roles.deep_view(), member.roles.deep_view(), r)
            &&& forall|i: int, j: int|
                is_member_role(roles.deep_view(), member.roles.deep_view(), i, j) ==> r
                    <= roles.deep_view()[i].role.rank
        },
{
    let ghost rv = roles.deep_view();
    let ghost mv = member.roles.deep_view();
    let mut ranks: Vec<i64> = Vec::new();
    let mut i: usize = 0;
    while i < roles.len()
        invariant
            0 <= i <= roles@.len(),
            rv == roles.deep_view(),
            mv == member.roles.deep_view(),
            forall|k: int| 0 <= k < ranks@.len() ==> is_held_rank(rv, mv, #[trigger] ranks@[k]),
            forall|i2: int, j2: int|
                is_member_role(rv, mv, i2, j2) && i2 < i ==> ranks@.contains(rv[i2].role.rank),
        decreases roles@.len() - i,
    {
        let ghost old_ranks = ranks@;
        let hit = contains_string(&member.roles, &roles[i].id);
        proof {
            assert(rv[i as int].id == roles@[i as int].id@);
            assert(rv[i as int].role.rank == roles@[i as int].role.rank);
        }
        if hit {
            proof {
                let j = choose|j: int| 0 <= j < mv.len() && mv[j] == roles@[i as int].id@;
                assert(is_member_role(rv, mv, i as int, j));
            }
            ranks.push(roles[i].role.rank);
            proof {
                assert(ranks@ == old_ranks.push(rv[i as int].role.rank));
                assert(is_held_rank(rv, mv, rv[i as int].role.rank));
                assert forall|k: int| 0 <= k < ranks@.len() implies is_held_rank(
                    rv,
                    mv,
                    #[trigger] ranks@[k],
                ) by {
                    if k < old_ranks.len() {
                        assert(ranks@[k] == old_ranks[k]);
                    } else {
                        assert(ranks@[k] == rv[i as int].role.rank);
                    }
                }
                assert forall|i2: int, j2: int|
                    is_member_role(rv, mv, i2, j2) && i2 < i + 1 implies ranks@.contains(
                    rv[i2].role.rank,
                ) by {
                    if i2 < i {
                        assert(old_ranks.contains(rv[i2].role.rank));
                        let k = choose|k: int|
                            0 <= k < old_ranks.len() && old_ranks[k] == rv[i2].role.rank;
                        assert(ranks@[k] == rv[i2].role.rank);
                    } else {
                        assert(ranks@[old_ranks.len() as int] == rv[i as int].role.rank);
                        assert(rv[i2].role.rank == rv[i as int].role.rank);
                    }
                }
            }
        } else {
            proof {
                assert forall|i2: int, j2: int|
                    is_member_role(rv, mv, i2, j2) && i2 < i + 1 implies ranks@.contains(
                    rv[i2].role.rank,
                ) by {
                    if i2 == i {
                        assert(mv[j2] == rv[i2].id);
                    }
                }
            }
        }
        i = i + 1;
    }
    let r = effective_rank(&ranks);
    proof {
        lemma_member_rank_epilogue(rv, mv, ranks@, r);
    }
    r
}

proof fn lemma_member_rank_epilogue(
    rv: Seq<RoleEntryView>,
    mv: Seq<Seq<char>>,
    ranks: Seq<i64>,
    r: i64,
)
    requires
        forall|k: int| 0 <= k < ranks.len() ==> is_held_rank(rv, mv, #[trigger] ranks[k]),
        forall|i2: int, j2: int|
            is_member_role(rv, mv, i2, j2) ==> ranks.contains(rv[i2].role.rank),
        is_effective_rank(ranks, r),
    ensures
        (!exists|i: int, j: int| is_member_role(rv, mv, i, j)) ==> r == i64::MIN,
        (exists|i: int, j: int| is_member_role(rv, mv, i, j)) ==> {
            &&& is_held_rank(rv, mv, r)
            &&& forall|i: int, j: int| is_member_role(rv, mv, i, j) ==> r <= rv[i].role.rank
        },
{
    if exists|i2: int, j2: int| is_member_role(rv, mv, i2, j2) {
            let (i2, j2) = choose|i2: int, j2: int| is_member_role(rv, mv, i2, j2);
            assert(ranks.contains(rv[i2].role.rank));
            assert(ranks.len() > 0);
            // the minimum returned is itself one of the collected ranks,
            // and every collected rank is the rank of some held role
            let k = choose|k: int| 0 <= k < ranks.len() && ranks[k] == r;
            assert(is_held_rank(rv, mv, ranks[k]));
            // and it bounds the rank of every role the member holds
            assert forall|i3: int, j3: int| is_member_role(rv, mv, i3, j3) implies r
                <= rv[i3].role.rank by {
                assert(ranks.contains(rv[i3].role.rank));
                let k3 = choose|k3: int| 0 <= k3 < ranks.len() && ranks[k3] == rv[i3].role.rank;
                assert(r <= ranks[k3]);
            }
        } else {
            if ranks.len() > 0 {
                assert(is_held_rank(rv, mv, ranks[0]));
            }
            assert(ranks.len() == 0);
        }
}

/// The pre-validated payload of an edit-role request: new values for any
/// subset of the role's fields, and a remove-set of fields to clear.
#[derive(Debug)]
pub struct DataEditRole {
    pub name: Option<String>,
    pub colour: Option<String>,
    pub hoist: Option<bool>,
    pub rank: Option<i64>,
    pub remove: Option<Vec<FieldsRole>>,
    pub role_requestable: Option<bool>,
    pub info_required: Option<bool>,
    pub payment_required: Option<bool>,
    pub approvement_required: Option<bool>,
    pub expires: Option<bool>,
    pub cost: Option<i64>,
    pub duration: Option<i64>,
    pub duration_type: Option<String>,
    pub approval_roles: Option<Vec<String>>,
    pub fields: Option<Vec<CustomField>>,
}

#[verifier::ext_equal]
pub ghost struct DataEditRoleView {
    pub name: Option<Seq<char>>,
    pub colour: Option<Seq<char>>,
    pub hoist: Option<bool>,
    pub rank: Option<i64>,
    pub remove: Option<Seq<FieldsRole>>,
    pub role_requestable: Option<bool>,
    pub info_required: Option<bool>,
    pub payment_required: Option<bool>,
    pub approvement_required: Option<bool>,
    pub expires: Option<bool>,
    pub cost: Option<i64>,
    pub duration: Option<i64>,
    pub duration_type: Option<Seq<char>>,
    pub approval_roles: Option<Seq<Seq<char>>>,
    pub fields: Option<Seq<crate::role::CustomFieldView>>,
}

impl DeepView for FieldsRole {
    type V = FieldsRole;

    open spec fn deep_view(&self) -> FieldsRole {
        *self
    }
}

impl DeepView for DataEditRole {
    type V = DataEditRoleView;

    open spec fn deep_view(&self) -> DataEditRoleView {
        DataEditRoleView {
            name: self.name.deep_view(),
            colour: self.colour.deep_view(),
            hoist: self.hoist,
            rank: self.rank,
            remove: self.remove.deep_view(),
            role_requestable: self.role_requestable,
            info_required: self.info_required,
            payment_required: self.payment_required,
            approvement_required: self.approvement_required,
            expires: self.expires,
            cost: self.cost,
            duration: self.duration,
            duration_type: self.duration_type.deep_view(),
            approval_roles: self.approval_roles.deep_view(),
            fields: self.fields.deep_view(),
        }
    }
}

/// The patch an edit request stands for.
pub open spec fn spec_partial_of(d: DataEditRoleView) -> PartialRoleView {
    PartialRoleView {
        name: d.name,
        colour: d.colour,
        hoist: d.hoist,
        rank: d.rank,
        role_requestable: d.role_requestable,
        info_required: d.info_required,
        payment_required: d.payment_required,
        approvement_required: d.approvement_required,
        expires: d.expires,
        cost: d.cost,
        duration: d.duration,
        duration_type: d.duration_type,
        approval_roles: d.approval_roles,
        fields: d.fields,
    }
}

/// The remove-set an edit request stands for: empty when absent.
pub open spec fn spec_remove_of(d: DataEditRoleView) -> Seq<FieldsRole> {
    if d.remove is Some {
        d.remove->0
    } else {
        Seq::empty()
    }
}

/// The actor's effective rank as handed in by the external permission
/// resolution: absent resolution means maximal privilege.
pub open spec fn spec_actor_rank(member_rank: Option<i64>) -> i64 {
    if member_rank is Some {
        member_rank->0
    } else {
        i64::MIN
    }
}

/// Edit a role by its id.
///
/// Gates the mutation on the `ManageRole` capability, then on the elevation
/// check for a proposed rank (granted only when the proposed rank is strictly
/// less privileged than the actor's), then applies the partial update with
/// its remove-set to the stored role as one in-memory write, returning the
/// updated role. On any denial the server is left unchanged.
pub fn req(
    server: &mut Server,
    perms: &PermissionSet,
    member_rank: Option<i64>,
    role_id: &String,
    data: DataEditRole,
) -> (r: Result<Role, Error>)
    ensures
        ({
            let sv = old(server).deep_view();
            let d = data.deep_view();
            let actor = spec_actor_rank(member_rank);
            let has = perms.spec_has(Permission::ManageRole);
            let found = role_found(sv.roles, role_id@);
            &&& (r == Err::<Role, Error>(Error::InsufficientPermission) <==> !has)
            &&& (r == Err::<Role, Error>(Error::NotFound) <==> has && !found)
            &&& (r == Err::<Role, Error>(Error::NotElevated) <==> has && found && d.rank is Some
                && d.rank->0 <= actor)
            &&& (r is Ok <==> has && found && (d.rank is Some ==> d.rank->0 > actor))
            &&& (r is Ok ==> exists|i: int|
                {
                    &&& #[trigger] is_first_role_match(sv.roles, role_id@, i)
                    &&& final(server).deep_view().roles == sv.roles.update(
                        i,
                        RoleEntryView {
                            id: sv.roles[i].id,
                            role: spec_apply(sv.roles[i].role, spec_partial_of(d), spec_remove_of(d)),
                        },
                    )
                    &&& r->Ok_0.deep_view() == spec_apply(
                        sv.roles[i].role,
                        spec_partial_of(d),
                        spec_remove_of(d),
                    )
                })
            &&& final(server).id == old(server).id
            &&& (!(r is Ok) ==> *final(server) == *old(server))
        }),
{
    if !perms.has(Permission::ManageRole) {
        return Err(Error::InsufficientPermission);
    }
    let actor_rank: i64 = match member_rank {
        Some(v) => v,
        None => i64::MIN,
    };
    let idx = role_index(&server.roles, role_id);
    if let Some(i) = idx {
        if let Some(rank_v) = data.rank {
            if !is_elevated_over(actor_rank, rank_v) {
                return Err(Error::NotElevated);
            }
        }
        let ghost d = data.deep_view();
        let ghost sv = server.deep_view();
        let DataEditRole {
            name,
            colour,
            hoist,
            rank,
            remove,
            role_requestable,
            info_required,
            payment_required,
            approvement_required,
            expires,
            cost,
            duration,
            duration_type,
            approval_roles,
            fields,
        } = data;
        let partial = PartialRole {
            name,
            colour,
            hoist,
            rank,
            role_requestable,
            info_required,
            payment_required,
            approvement_required,
            expires,
            cost,
            duration,
            duration_type,
            approval_roles,
            fields,
        };
        proof {
            assert(partial.deep_view() =~= spec_partial_of(d));
        }
        let remove_vec: Vec<FieldsRole> = match remove {
            Some(v) => v,
            None => Vec::new(),
        };
        proof {
            assert(remove_vec@ =~= spec_remove_of(d));
        }
        let mut role = server.roles[i].role.duplicate();
        apply_partial(&mut role, partial, &remove_vec);
        let id_copy = server.roles[i].id.clone();
        let ret = role.duplicate();
        server.roles.set(i, RoleEntry { id: id_copy, role });
        proof {
            assert(server.roles.deep_view() =~= sv.roles.update(
                i as int,
                RoleEntryView {
                    id: sv.roles[i as int].id,
                    role: spec_apply(sv.roles[i as int].role, spec_partial_of(d), spec_remove_of(d)),
                },
            ));
            assert(is_first_role_match(sv.roles, role_id@, i as int));
        }
        Ok(ret)
    } else {
        Err(Error::NotFound)
    }
}

} // verus!
