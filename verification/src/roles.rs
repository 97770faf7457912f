//! Roles, actions and the authorization policy.
//!
//! The policy is a pure decision function: given a resolved identity, a
//! target project and an action, it decides allow or deny from the caller's
//! effective role alone. Roles are totally ordered
//! `viewer < member < admin < owner`; the project owner implicitly holds
//! the `owner` role even without an explicit membership row.

use vstd::prelude::*;

verus! {

/// A role scoped to one project, as stored in a membership row.
#[derive(Clone, Copy, PartialEq, Eq, Structural, Debug)]
pub enum Role {
    Viewer,
    Member,
    Admin,
    Owner,
}

/// An action class that the policy decides on. `IngestEvents` covers the
/// event-submission endpoints; the others are resource-management classes.
#[derive(Clone, Copy, PartialEq, Eq, Structural, Debug)]
pub enum Action {
    IngestEvents,
    Read,
    Create,
    Update,
    DeleteProject,
    ManageMembers,
}

/// The caller as the identity resolver tagged it: a human operator with a
/// verified session token, or an application acting under a project's API
/// key. The closed set of kinds is consumed exhaustively by the policy.
#[derive(Clone, PartialEq, Eq, Debug)]
pub enum Identity {
    UserIdentity { user_id: u64, global_role: String },
    ProjectKeyIdentity { project_id: u64 },
}

/// Outcome of an authorization check. A missing resource is reported as
/// `DenyNotFound` before any role comparison runs, so that callers cannot
/// probe for the existence of resources they must not see.
#[derive(Clone, Copy, PartialEq, Eq, Structural, Debug)]
pub enum Decision {
    Allow,
    DenyForbidden,
    DenyNotFound,
}

/// Rank of a role in the total order `viewer < member < admin < owner`;
/// an absent membership ranks below every role.
pub open spec fn spec_rank(role: Option<Role>) -> int {
    match role {
        Option::None => 0,
        Option::Some(Role::Viewer) => 1,
        Option::Some(Role::Member) => 2,
        Option::Some(Role::Admin) => 3,
        Option::Some(Role::Owner) => 4,
    }
}

/// Minimum effective role required for each user-facing action class.
pub open spec fn spec_min_rank(action: Action) -> int {
    match action {
        Action::IngestEvents => 5,  // never granted through a user role
        Action::Read => 1,  // viewer
        Action::Create => 2,  // member
        Action::Update => 3,  // admin
        Action::DeleteProject => 4,  // owner
        Action::ManageMembers => 3,  // admin
    }
}

/// Effective role of a user on a project: `owner` whenever the user is the
/// project owner, else the explicit membership role, else nothing.
pub open spec fn spec_effective_role(
    user_id: u64,
    owner_id: u64,
    membership: Option<Role>,
) -> Option<Role> {
    if user_id == owner_id {
        Option::Some(Role::Owner)
    } else {
        membership
    }
}

/// The policy's verdict on a project that exists, given the caller's
/// identity and, for users, their effective role on that project:
/// an API-key identity may ingest events into its own project and nothing
/// else; a user identity may act whenever its effective role reaches the
/// action's minimum; every other combination is forbidden.
pub open spec fn spec_authorize(
    identity: Identity,
    action: Action,
    project_id: u64,
    owner_id: u64,
    membership: Option<Role>,
) -> Decision {
    match identity {
        Identity::ProjectKeyIdentity { project_id: key_project } => {
            if action == Action::IngestEvents && key_project == project_id {
                Decision::Allow
            } else {
                Decision::DenyForbidden
            }
        },
        Identity::UserIdentity { user_id, .. } => {
            if spec_rank(spec_effective_role(user_id, owner_id, membership)) >= spec_min_rank(
                action,
            ) {
                Decision::Allow
            } else {
                Decision::DenyForbidden
            }
        },
    }
}

impl Role {
    /// Rank of this role in the total order.
    pub fn rank(&self) -> (r: u8)
        ensures
            r as int == spec_rank(Option::Some(*self)),
    {
        match self {
            Role::Viewer => 1,
            Role::Member => 2,
            Role::Admin => 3,
            Role::Owner => 4,
        }
    }

    /// The lower-case name under which this role is stored and presented.
    pub fn as_str(&self) -> (r: String)
        ensures
            r@ == self.spec_name(),
    {
        match self {
            Role::Viewer => String::from_str("viewer"),
            Role::Member => String::from_str("member"),
            Role::Admin => String::from_str("admin"),
            Role::Owner => String::from_str("owner"),
        }
    }

    /// The lower-case name of this role.
    pub open spec fn spec_name(&self) -> Seq<char> {
        match self {
            Role::Viewer => "viewer"@,
            Role::Member => "member"@,
            Role::Admin => "admin"@,
            Role::Owner => "owner"@,
        }
    }
}

/// The role denoted by a lower-case role name, if any.
pub open spec fn spec_role_from(name: Seq<char>) -> Option<Role> {
    if name == "viewer"@ {
        Option::Some(Role::Viewer)
    } else if name == "member"@ {
        Option::Some(Role::Member)
    } else if name == "admin"@ {
        Option::Some(Role::Admin)
    } else if name == "owner"@ {
        Option::Some(Role::Owner)
    } else {
        Option::None
    }
}

/// Parse a role name as submitted by a caller. Unknown names yield nothing,
/// so that a validation error can be reported at the boundary.
pub fn role_from_str(name: &String) -> (r: Option<Role>)
    ensures
        r == spec_role_from(name@),
{
    if crate::strutil::string_eq_str(name, "viewer") {
        Some(Role::Viewer)
    } else if crate::strutil::string_eq_str(name, "member") {
        Some(Role::Member)
    } else if crate::strutil::string_eq_str(name, "admin") {
        Some(Role::Admin)
    } else if crate::strutil::string_eq_str(name, "owner") {
        Some(Role::Owner)
    } else {
        None
    }
}

/// Effective role of a user on a project owned by `owner_id`, given the
/// user's explicit membership role on it, if any.
pub fn effective_role(user_id: u64, owner_id: u64, membership: Option<Role>) -> (r: Option<Role>)
    ensures
        r == spec_effective_role(user_id, owner_id, membership),
{
    if user_id == owner_id {
        Some(Role::Owner)
    } else {
        membership
    }
}

/// Decide an action on a project that exists. Deterministic and free of
/// side effects; the verdict matches the documented minimum-role table:
/// read requires viewer, create requires member, update and member
/// management require admin, project deletion requires owner, and event
/// ingestion is allowed only to the project's own API key.
pub fn authorize(
    identity: &Identity,
    action: Action,
    project_id: u64,
    owner_id: u64,
    membership: Option<Role>,
) -> (d: Decision)
    ensures
        d == spec_authorize(*identity, action, project_id, owner_id, membership),
        d != Decision::DenyNotFound,
{
    match identity {
        Identity::ProjectKeyIdentity { project_id: key_project } => {
            if action == Action::IngestEvents && *key_project == project_id {
                Decision::Allow
            } else {
                Decision::DenyForbidden
            }
        },
        Identity::UserIdentity { user_id, .. } => {
            let role = effective_role(*user_id, owner_id, membership);
            let rank: u8 = match role {
                None => 0,
                Some(r) => r.rank(),
            };
            let min: u8 = match action {
                Action::IngestEvents => 5,
                Action::Read => 1,
                Action::Create => 2,
                Action::Update => 3,
                Action::DeleteProject => 4,
                Action::ManageMembers => 3,
            };
            if rank >= min {
                Decision::Allow
            } else {
                Decision::DenyForbidden
            }
        },
    }
}

/// Decide an action once the target project has been looked up: a project
/// that is absent is reported as not found before any role comparison, so
/// existence never leaks; on a present project the decision is the pure
/// policy verdict on the owner and the caller's membership.
pub fn authorize_resolved(
    identity: &Identity,
    action: Action,
    project_id: u64,
    lookup: Option<(u64, Option<Role>)>,
) -> (d: Decision)
    ensures
        lookup is None ==> d == Decision::DenyNotFound,
        lookup matches Some((owner_id, membership)) ==> d == spec_authorize(
            *identity,
            action,
            project_id,
            owner_id,
            membership,
        ),
{
    match lookup {
        None => Decision::DenyNotFound,
        Some((owner_id, membership)) => authorize(identity, action, project_id, owner_id, membership),
    }
}

} // verus!
