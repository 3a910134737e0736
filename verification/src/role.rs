//! Role objects and the state mutator: a sparse `PartialRole` patch plus an
//! explicit remove-set is applied to a role snapshot. Fields in the
//! remove-set are cleared first and are never overwritten by a co-present
//! value in the patch: removal takes precedence.

use vstd::prelude::*;

verus! {

/// One entry of a role's typed key/value field bag: a declared field name,
/// its value name and its kind.
#[derive(Debug)]
pub struct CustomField {
    pub name: String,
    pub value: String,
    pub kind: String,
}

#[verifier::ext_equal]
pub ghost struct CustomFieldView {
    pub name: Seq<char>,
    pub value: Seq<char>,
    pub kind: Seq<char>,
}

impl DeepView for CustomField {
    type V = CustomFieldView;

    open spec fn deep_view(&self) -> CustomFieldView {
        CustomFieldView {
            name: self.name.deep_view(),
            value: self.value.deep_view(),
            kind: self.kind.deep_view(),
        }
    }
}

/// An authorization object owned by a server. `rank` is a signed integer and
/// lower numeric value means higher precedence; ranks are comparable only
/// within the same server.
#[derive(Debug)]
pub struct Role {
    pub name: String,
    pub colour: Option<String>,
    pub hoist: bool,
    pub rank: i64,
    pub role_requestable: Option<bool>,
    pub info_required: Option<bool>,
    pub payment_required: Option<bool>,
    pub approvement_required: Option<bool>,
    pub expires: Option<bool>,
    pub cost: Option<i64>,
    pub duration: Option<i64>,
    pub duration_type: Option<String>,
    pub approval_roles: Option<Vec<String>>,
    pub fields: Option<Vec<CustomField>>,
}

#[verifier::ext_equal]
pub ghost struct RoleView {
    pub name: Seq<char>,
    pub colour: Option<Seq<char>>,
    pub hoist: bool,
    pub rank: i64,
    pub role_requestable: Option<bool>,
    pub info_required: Option<bool>,
    pub payment_required: Option<bool>,
    pub approvement_required: Option<bool>,
    pub expires: Option<bool>,
    pub cost: Option<i64>,
    pub duration: Option<i64>,
    pub duration_type: Option<Seq<char>>,
    pub approval_roles: Option<Seq<Seq<char>>>,
    pub fields: Option<Seq<CustomFieldView>>,
}

impl DeepView for Role {
    type V = RoleView;

    open spec fn deep_view(&self) -> RoleView {
        RoleView {
            name: self.name.deep_view(),
            colour: self.colour.deep_view(),
            hoist: self.hoist,
            rank: self.rank,
            role_requestable: self.role_requestable,
            info_required: self.info_required,
            payment_required: self.payment_required,
            approvement_required: self.approvement_required,
            expires: self.expires,
            cost: self.cost,
            duration: self.duration,
            duration_type: self.duration_type.deep_view(),
            approval_roles: self.approval_roles.deep_view(),
            fields: self.fields.deep_view(),
        }
    }
}

/// A sparse patch over a role: a field absent from the patch is left
/// untouched; a field carrying `Some` is overwritten unless it is also in the
/// remove-set.
#[derive(Debug)]
pub struct PartialRole {
    pub name: Option<String>,
    pub colour: Option<String>,
    pub hoist: Option<bool>,
    pub rank: Option<i64>,
    pub role_requestable: Option<bool>,
    pub info_required: Option<bool>,
    pub payment_required: Option<bool>,
    pub approvement_required: Option<bool>,
    pub expires: Option<bool>,
    pub cost: Option<i64>,
    pub duration: Option<i64>,
    pub duration_type: Option<String>,
    pub approval_roles: Option<Vec<String>>,
    pub fields: Option<Vec<CustomField>>,
}

#[verifier::ext_equal]
pub ghost struct PartialRoleView {
    pub name: Option<Seq<char>>,
    pub colour: Option<Seq<char>>,
    pub hoist: Option<bool>,
    pub rank: Option<i64>,
    pub role_requestable: Option<bool>,
    pub info_required: Option<bool>,
    pub payment_required: Option<bool>,
    pub approvement_required: Option<bool>,
    pub expires: Option<bool>,
    pub cost: Option<i64>,
    pub duration: Option<i64>,
    pub duration_type: Option<Seq<char>>,
    pub approval_roles: Option<Seq<Seq<char>>>,
    pub fields: Option<Seq<CustomFieldView>>,
}

impl DeepView for PartialRole {
    type V = PartialRoleView;

    open spec fn deep_view(&self) -> PartialRoleView {
        PartialRoleView {
            name: self.name.deep_view(),
            colour: self.colour.deep_view(),
            hoist: self.hoist,
            rank: self.rank,
            role_requestable: self.role_requestable,
            info_required: self.info_required,
            payment_required: self.payment_required,
            approvement_required: self.approvement_required,
            expires: self.expires,
            cost: self.cost,
            duration: self.duration,
            duration_type: self.duration_type.deep_view(),
            approval_roles: self.approval_roles.deep_view(),
            fields: self.fields.deep_view(),
        }
    }
}

/// The clearable fields of a role: membership in the remove-set resets the
/// field to its absent value.
#[derive(Clone, Copy, Debug, PartialEq, Eq, Structural)]
pub enum FieldsRole {
    Colour,
    RoleRequestable,
    InfoRequired,
    PaymentRequired,
    ApprovementRequired,
    Expires,
    Cost,
    Duration,
    DurationType,
    ApprovalRoles,
    Fields,
}

/// Whether the remove-set names the given field.
pub fn removes(remove: &Vec<FieldsRole>, f: FieldsRole) -> (r: bool)
    ensures
        r == remove@.contains(f),
{
    let mut i: usize = 0;
    while i < remove.len()
        invariant
            0 <= i <= remove@.len(),
            forall|j: int| 0 <= j < i ==> remove@[j] != f,
        decreases remove@.len() - i,
    {
        if remove[i] == f {
            assert(remove@.contains(f)) by {
                assert(remove@[i as int] == f);
            }
            return true;
        }
        i = i + 1;
    }
    false
}

/// The merged object: remove-set processing strictly precedes value
/// assignment, so a removed field ends up absent even when the patch also
/// carries a value for it.
pub open spec fn spec_apply(r: RoleView, p: PartialRoleView, remove: Seq<FieldsRole>) -> RoleView {
    RoleView {
        name: if p.name is Some {
            p.name->0
        } else {
            r.name
        },
        colour: if remove.contains(FieldsRole::Colour) {
            None
        } else if p.colour is Some {
            p.colour
        } else {
            r.colour
        },
        hoist: if p.hoist is Some {
            p.hoist->0
        } else {
            r.hoist
        },
        rank: if p.rank is Some {
            p.rank->0
        } else {
            r.rank
        },
        role_requestable: if remove.contains(FieldsRole::RoleRequestable) {
            None
        } else if p.role_requestable is Some {
            p.role_requestable
        } else {
            r.role_requestable
        },
        info_required: if remove.contains(FieldsRole::InfoRequired) {
            None
        } else if p.info_required is Some {
            p.info_required
        } else {
            r.info_required
        },
        payment_required: if remove.contains(FieldsRole::PaymentRequired) {
            None
        } else if p.payment_required is Some {
            p.payment_required
        } else {
            r.payment_required
        },
        approvement_required: if remove.contains(FieldsRole::ApprovementRequired) {
            None
        } else if p.approvement_required is Some {
            p.approvement_required
        } else {
            r.approvement_required
        },
        expires: if remove.contains(FieldsRole::Expires) {
            None
        } else if p.expires is Some {
            p.expires
        } else {
            r.expires
        },
        cost: if remove.contains(FieldsRole::Cost) {
            None
        } else if p.cost is Some {
            p.cost
        } else {
            r.cost
        },
        duration: if remove.contains(FieldsRole::Duration) {
            None
        } else if p.duration is Some {
            p.duration
        } else {
            r.duration
        },
        duration_type: if remove.contains(FieldsRole::DurationType) {
            None
        } else if p.duration_type is Some {
            p.duration_type
        } else {
            r.duration_type
        },
        approval_roles: if remove.contains(FieldsRole::ApprovalRoles) {
            None
        } else if p.approval_roles is Some {
            p.approval_roles
        } else {
            r.approval_roles
        },
        fields: if remove.contains(FieldsRole::Fields) {
            None
        } else if p.fields is Some {
            p.fields
        } else {
            r.fields
        },
    }
}

/// The merged value of one clearable field: cleared when removed, else the
/// patch value when present, else the prior value.
pub open spec fn spec_merge<T>(cur: Option<T>, patch: Option<T>, removed: bool) -> Option<T> {
    if removed {
        None
    } else if patch is Some {
        patch
    } else {
        cur
    }
}

/// Merge one clearable field in place: clearing on removal strictly precedes
/// (and suppresses) assignment from the patch.
fn merge_field<T>(cur: &mut Option<T>, patch: Option<T>, removed: bool)
    ensures
        *final(cur) == spec_merge(*old(cur), patch, removed),
{
    if removed {
        *cur = None;
    } else if let Some(v) = patch {
        *cur = Some(v);
    }
}

/// Overwrite one non-clearable field when the patch carries a value.
fn assign_field<T>(cur: &mut T, patch: Option<T>)
    ensures
        patch is Some ==> *final(cur) == patch->0,
        patch is None ==> *final(cur) == *old(cur),
{
    if let Some(v) = patch {
        *cur = v;
    }
}

/// Apply a partial update to a role snapshot: clear every field named in the
/// remove-set first, then overwrite each non-removed field the patch carries.
pub fn apply_partial(role: &mut Role, partial: PartialRole, remove: &Vec<FieldsRole>)
    ensures
        final(role).deep_view() == spec_apply(old(role).deep_view(), partial.deep_view(), remove@),
{
    let ghost pv = partial.deep_view();
    let PartialRole {
        name,
        colour,
        hoist,
        rank,
        role_requestable,
        info_required,
        payment_required,
        approvement_required,
        expires,
        cost,
        duration,
        duration_type,
        approval_roles,
        fields,
    } = partial;

    assign_field(&mut role.name, name);
    assign_field(&mut role.hoist, hoist);
    assign_field(&mut role.rank, rank);
    merge_field(&mut role.colour, colour, removes(remove, FieldsRole::Colour));
    merge_field(
        &mut role.role_requestable,
        role_requestable,
        removes(remove, FieldsRole::RoleRequestable),
    );
    merge_field(&mut role.info_required, info_required, removes(remove, FieldsRole::InfoRequired));
    merge_field(
        &mut role.payment_required,
        payment_required,
        removes(remove, FieldsRole::PaymentRequired),
    );
    merge_field(
        &mut role.approvement_required,
        approvement_required,
        removes(remove, FieldsRole::ApprovementRequired),
    );
    merge_field(&mut role.expires, expires, removes(remove, FieldsRole::Expires));
    merge_field(&mut role.cost, cost, removes(remove, FieldsRole::Cost));
    merge_field(&mut role.duration, duration, removes(remove, FieldsRole::Duration));
    merge_field(&mut role.duration_type, duration_type, removes(remove, FieldsRole::DurationType));
    merge_field(
        &mut role.approval_roles,
        approval_roles,
        removes(remove, FieldsRole::ApprovalRoles),
    );
    merge_field(&mut role.fields, fields, removes(remove, FieldsRole::Fields));

    proof {
        assert(role.deep_view() =~= spec_apply(old(role).deep_view(), pv, remove@));
    }
}

fn clone_opt_string(o: &Option<String>) -> (r: Option<String>)
    ensures
        r.deep_view() == o.deep_view(),
{
    match o {
        Some(s) => Some(s.clone()),
        None => None,
    }
}

fn clone_string_vec(v: &Vec<String>) -> (r: Vec<String>)
    ensures
        r.deep_view() == v.deep_view(),
{
    let mut r: Vec<String> = Vec::new();
    let mut i: usize = 0;
    while i < v.len()
        invariant
            0 <= i <= v@.len(),
            r@.len() == i,
            forall|k: int| 0 <= k < i ==> #[trigger] r@[k]@ == v@[k]@,
        decreases v@.len() - i,
    {
        r.push(v[i].clone());
        i = i + 1;
    }
    proof {
        assert(r.deep_view() =~= v.deep_view());
    }
    r
}

fn clone_custom_fields(v: &Vec<CustomField>) -> (r: Vec<CustomField>)
    ensures
        r.deep_view() == v.deep_view(),
{
    let mut r: Vec<CustomField> = Vec::new();
    let mut i: usize = 0;
    while i < v.len()
        invariant
            0 <= i <= v@.len(),
            r@.len() == i,
            forall|k: int| 0 <= k < i ==> #[trigger] r@[k].deep_view() == v@[k].deep_view(),
        decreases v@.len() - i,
    {
        let f = CustomField {
            name: v[i].name.clone(),
            value: v[i].value.clone(),
            kind: v[i].kind.clone(),
        };
        r.push(f);
        i = i + 1;
    }
    proof {
        assert(r.deep_view() =~= v.deep_view());
    }
    r
}

impl Role {
    /// A copy of the role with the same abstract value, handed back to the
    /// caller after a successful edit while the store keeps its own copy.
    pub fn duplicate(&self) -> (r: Role)
        ensures
            r.deep_view() == self.deep_view(),
    {
        Role {
            name: self.name.clone(),
            colour: clone_opt_string(&self.colour),
            hoist: self.hoist,
            rank: self.rank,
            role_requestable: self.role_requestable,
            info_required: self.info_required,
            payment_required: self.payment_required,
            approvement_required: self.approvement_required,
            expires: self.expires,
            cost: self.cost,
            duration: self.duration,
            duration_type: clone_opt_string(&self.duration_type),
            approval_roles: match &self.approval_roles {
                Some(v) => Some(clone_string_vec(v)),
                None => None,
            },
            fields: match &self.fields {
                Some(v) => Some(clone_custom_fields(v)),
                None => None,
            },
        }
    }
}

/// Removal precedence: a field named in the remove-set ends up absent in the
/// merged object, regardless of whether the patch also carries a value for it.
pub proof fn lemma_removal_precedence(r: RoleView, p: PartialRoleView, remove: Seq<FieldsRole>)
    ensures
        remove.contains(FieldsRole::Colour) ==> spec_apply(r, p, remove).colour is None,
        remove.contains(FieldsRole::RoleRequestable) ==> spec_apply(
            r,
            p,
            remove,
        ).role_requestable is None,
        remove.contains(FieldsRole::InfoRequired) ==> spec_apply(r, p, remove).info_required is None,
        remove.contains(FieldsRole::PaymentRequired) ==> spec_apply(
            r,
            p,
            remove,
        ).payment_required is None,
        remove.contains(FieldsRole::ApprovementRequired) ==> spec_apply(
            r,
            p,
            remove,
        ).approvement_required is None,
        remove.contains(FieldsRole::Expires) ==> spec_apply(r, p, remove).expires is None,
        remove.contains(FieldsRole::Cost) ==> spec_apply(r, p, remove).cost is None,
        remove.contains(FieldsRole::Duration) ==> spec_apply(r, p, remove).duration is None,
        remove.contains(FieldsRole::DurationType) ==> spec_apply(r, p, remove).duration_type is None,
        remove.contains(FieldsRole::ApprovalRoles) ==> spec_apply(r, p, remove).approval_roles is None,
        remove.contains(FieldsRole::Fields) ==> spec_apply(r, p, remove).fields is None,
{
}

/// Idempotence: a partial update is a patch, not a delta — applying it twice
/// in sequence yields the same object as applying it once.
pub proof fn lemma_apply_idempotent(r: RoleView, p: PartialRoleView, remove: Seq<FieldsRole>)
    ensures
        spec_apply(spec_apply(r, p, remove), p, remove) == spec_apply(r, p, remove),
{
    assert(spec_apply(spec_apply(r, p, remove), p, remove) =~= spec_apply(r, p, remove));
}

} // verus!
