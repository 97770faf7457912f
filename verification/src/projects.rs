//! Project management: creation, lookup, API-key rotation and the
//! membership roster. Every operation is gated by the authorization
//! policy; a project invisible to the caller is reported as absent, and
//! the implicit owner can never be demoted or removed through the
//! membership API.

use vstd::prelude::*;

use crate::errors::AppError;
use crate::roles::{
    authorize, effective_role, spec_authorize, spec_effective_role, spec_rank, Action, Decision,
    Identity, Role,
};
use crate::shim::{format_rfc3339_seconds, new_opaque_key, spec_rfc3339_of};
use crate::store::{spec_projects_have, MembershipRecord, ProjectRecord, Store};
use crate::strutil::{spec_u64_string, u64_to_string};

verus! {

/// A project as presented in lists.
pub struct Project {
    pub id: String,
    pub name: String,
    pub owner_id: String,
}

/// A request to create a project.
pub struct CreateProjectRequest {
    pub name: String,
}

/// A request to rename a project.
pub struct UpdateProjectRequest {
    pub name: Option<String>,
}

/// A project as presented to its managers.
pub struct ProjectResponse {
    pub id: String,
    pub name: String,
    pub api_key: String,
    pub owner_id: String,
    pub created_at: String,
    pub updated_at: String,
}

/// A freshly rotated API key.
pub struct ProjectApiKeyResponse {
    pub api_key: String,
}

/// A request to add a member.
pub struct AddUserToProjectRequest {
    pub user_id: String,
    pub role: String,
}

/// A request to change a member's role.
pub struct UpdateUserRoleRequest {
    pub role: String,
}

/// One row of a project's roster.
pub struct ProjectUserResponse {
    pub project_id: String,
    pub user_id: String,
    pub role: String,
    pub user_name: String,
    pub user_email: String,
}

/// Decide an action of a caller on a project, resolving the project and
/// the caller's membership. A missing project is not found; so is a
/// project on which a user identity holds no role at all, to keep tenants
/// mutually invisible; a caller with some role but not enough of one is
/// forbidden, which is distinguishable only inside the tenant.
pub fn authorize_project_action(
    store: &Store,
    identity: &Identity,
    action: Action,
    project_id: u64,
) -> (r: Result<(), AppError>)
    requires
        store.wf(),
    ensures
        r is Ok ==> exists|j: int|
            0 <= j < store.projects@.len() && (#[trigger] store.projects@[j]).id == project_id
                && spec_authorize(
                *identity,
                action,
                project_id,
                store.projects@[j].owner_id,
                store.spec_membership_role(project_id, spec_user_of(*identity)),
            ) == Decision::Allow,
        r matches Err(e) ==> (e matches AppError::NotFoundError(_) || e
            matches AppError::ForbiddenError(_)),
        !store.spec_has_project(project_id) ==> (r matches Err(e) && e
            matches AppError::NotFoundError(_)),
        forall|j: int|
            0 <= j < store.projects@.len() && (#[trigger] store.projects@[j]).id == project_id
                && spec_authorize(
                *identity,
                action,
                project_id,
                store.projects@[j].owner_id,
                store.spec_membership_role(project_id, spec_user_of(*identity)),
            ) == Decision::Allow ==> r is Ok,
        forall|j: int|
            0 <= j < store.projects@.len() && (#[trigger] store.projects@[j]).id == project_id && (
            (*identity) matches Identity::UserIdentity { user_id, .. } && spec_rank(
                spec_effective_role(
                    user_id,
                    store.projects@[j].owner_id,
                    store.spec_membership_role(project_id, user_id),
                ),
            ) == 0) ==> (r matches Err(e) && e matches AppError::NotFoundError(_)),
        forall|j: int|
            0 <= j < store.projects@.len() && (#[trigger] store.projects@[j]).id == project_id && (
            (*identity) matches Identity::UserIdentity { user_id, .. } && spec_rank(
                spec_effective_role(
                    user_id,
                    store.projects@[j].owner_id,
                    store.spec_membership_role(project_id, user_id),
                ),
            ) >= 1) && spec_authorize(
                *identity,
                action,
                project_id,
                store.projects@[j].owner_id,
                store.spec_membership_role(project_id, spec_user_of(*identity)),
            ) != Decision::Allow ==> (r matches Err(e) && e matches AppError::ForbiddenError(_)),
        forall|j: int|
            0 <= j < store.projects@.len() && (#[trigger] store.projects@[j]).id == project_id && ((
            *identity) matches Identity::ProjectKeyIdentity { .. }) && spec_authorize(
                *identity,
                action,
                project_id,
                store.projects@[j].owner_id,
                store.spec_membership_role(project_id, spec_user_of(*identity)),
            ) != Decision::Allow ==> (r matches Err(e) && e matches AppError::ForbiddenError(_)),
{
    let pix = match store.find_project(project_id) {
        Some(p) => p,
        None => {
            return Err(AppError::NotFoundError(String::from_str("Project not found")));
        },
    };
    let owner_id = store.projects[pix].owner_id;
    proof {
        assert(forall|a: int, b: int|
            0 <= a < b < store.projects@.len() ==> (#[trigger] store.projects@[a]).id != (
            #[trigger] store.projects@[b]).id);
    }
    match identity {
        Identity::UserIdentity { user_id, .. } => {
            let membership = store.membership_role(project_id, *user_id);
            let role = effective_role(*user_id, owner_id, membership);
            if role.is_none() {
                // The caller has no standing on this project at all: report
                // the project as absent rather than reveal it.
                return Err(AppError::NotFoundError(String::from_str("Project not found")));
            }
            match authorize(identity, action, project_id, owner_id, membership) {
                Decision::Allow => Ok(()),
                _ => Err(AppError::ForbiddenError(String::from_str("Insufficient role"))),
            }
        },
        Identity::ProjectKeyIdentity { .. } => {
            match authorize(identity, action, project_id, owner_id, store.membership_role(
                project_id,
                spec_user_of_exec(identity),
            )) {
                Decision::Allow => Ok(()),
                _ => Err(AppError::ForbiddenError(String::from_str("Insufficient scope"))),
            }
        },
    }
}

/// Whether the caller's action on the project is allowed: the project with
/// this id exists and the policy grants the action to the caller's
/// effective role on it.
pub open spec fn spec_action_allowed(
    store: Store,
    identity: Identity,
    action: Action,
    project_id: u64,
) -> bool {
    exists|j: int|
        0 <= j < store.projects@.len() && (#[trigger] store.projects@[j]).id == project_id
            && spec_authorize(
            identity,
            action,
            project_id,
            store.projects@[j].owner_id,
            store.spec_membership_role(project_id, spec_user_of(identity)),
        ) == Decision::Allow
}

/// The user a caller acts as, or zero for an API-key caller, whose
/// membership is never consulted.
pub open spec fn spec_user_of(identity: Identity) -> u64 {
    match identity {
        Identity::UserIdentity { user_id, .. } => user_id,
        Identity::ProjectKeyIdentity { .. } => 0,
    }
}

/// Executable twin of `spec_user_of`.
fn spec_user_of_exec(identity: &Identity) -> (r: u64)
    ensures
        r == spec_user_of(*identity),
{
    match identity {
        Identity::UserIdentity { user_id, .. } => *user_id,
        Identity::ProjectKeyIdentity { .. } => 0,
    }
}

/// Render a project record; succeeds on every in-range record.
pub fn project_response_of(rec: &ProjectRecord) -> (r: Result<ProjectResponse, AppError>)
    ensures
        r matches Ok(resp) ==> resp.id@ == spec_u64_string(rec.id as int) && resp.name@
            == rec.name@ && resp.api_key@ == rec.api_key@ && resp.owner_id@ == spec_u64_string(
            rec.owner_id as int,
        ) && resp.created_at@ == spec_rfc3339_of(rec.created_at as int) && resp.updated_at@
            == spec_rfc3339_of(rec.updated_at as int),
        r matches Err(e) ==> e matches AppError::InternalServerError(_),
        crate::timebucket::spec_ts_in_range(rec.created_at as int)
            && crate::timebucket::spec_ts_in_range(rec.updated_at as int) ==> r is Ok,
{
    let created_at = match format_rfc3339_seconds(rec.created_at) {
        Some(t) => t,
        None => {
            return Err(AppError::InternalServerError(String::from_str("instant out of range")));
        },
    };
    let updated_at = match format_rfc3339_seconds(rec.updated_at) {
        Some(t) => t,
        None => {
            return Err(AppError::InternalServerError(String::from_str("instant out of range")));
        },
    };
    Ok(
        ProjectResponse {
            id: u64_to_string(rec.id),
            name: rec.name.clone(),
            api_key: rec.api_key.clone(),
            owner_id: u64_to_string(rec.owner_id),
            created_at,
            updated_at,
        },
    )
}

/// Create a project owned by the caller, with a fresh opaque API key. A
/// clashing key - an upsert race on the unique key column - is a conflict,
/// to be retried.
pub fn create_project(store: &mut Store, name: &String, owner_id: u64, now: i64) -> (r: Result<
    ProjectResponse,
    AppError,
>)
    requires
        old(store).wf(),
    ensures
        final(store).wf(),
        final(store).users == old(store).users,
        final(store).memberships == old(store).memberships,
        final(store).devices == old(store).devices,
        final(store).events == old(store).events,
        final(store).metrics == old(store).metrics,
        r matches Ok(resp) ==> {
            &&& final(store).projects@.len() == old(store).projects@.len() + 1
            &&& final(store).projects@.subrange(0, old(store).projects@.len() as int) == old(
                store,
            ).projects@
            &&& final(store).projects@.last().name@ == name@
            &&& final(store).projects@.last().owner_id == owner_id
            &&& final(store).projects@.last().created_at == now
            &&& final(store).projects@.last().updated_at == now
            &&& resp.name@ == name@
            &&& resp.id@ == spec_u64_string(final(store).projects@.last().id as int)
            &&& resp.api_key@ == final(store).projects@.last().api_key@
        },
        r matches Err(e) ==> {
            &&& final(store).projects == old(store).projects
            &&& final(store).next_id >= old(store).next_id
            &&& (e matches AppError::NotFoundError(_) ==> !old(store).spec_has_user(owner_id))
            &&& (e matches AppError::NotFoundError(_) || e matches AppError::ConflictError(_) || e
                matches AppError::InternalServerError(_))
        },
        !old(store).spec_has_user(owner_id) ==> (r matches Err(e) && e
            matches AppError::NotFoundError(_)),
{
    match store.find_user(owner_id) {
        Some(_) => {},
        None => {
            return Err(AppError::NotFoundError(String::from_str("Owner not found")));
        },
    }
    let api_key = new_opaque_key();
    if store.find_project_by_api_key(&api_key).is_some() {
        // The random key collided with a stored one; the caller retries.
        return Err(AppError::ConflictError(String::from_str("API key collision")));
    }
    let id = match store.fresh_id() {
        Some(id) => id,
        None => {
            return Err(AppError::InternalServerError(String::from_str("id space exhausted")));
        },
    };
    let ghost before = store.projects@;
    let rec = ProjectRecord {
        id,
        name: name.clone(),
        api_key,
        owner_id,
        created_at: now,
        updated_at: now,
    };
    let resp = match project_response_of(&rec) {
        Ok(resp) => resp,
        Err(e) => {
            return Err(e);
        },
    };
    store.projects.push(rec);
    proof {
        assert(store.projects@.subrange(0, before.len() as int) =~= before);
        assert(store.wf()) by {
            assert(forall|a: int, b: int|
                0 <= a < b < store.projects@.len() ==> (#[trigger] store.projects@[a]).id != (
                #[trigger] store.projects@[b]).id && store.projects@[a].api_key@
                    != store.projects@[b].api_key@);
            assert(forall|i: int|
                0 <= i < store.devices@.len() ==> spec_projects_have(
                    store.projects@,
                    (#[trigger] store.devices@[i]).project_id,
                ));
            assert(forall|i: int|
                0 <= i < store.events@.len() ==> spec_projects_have(
                    store.projects@,
                    (#[trigger] store.events@[i]).project_id,
                ));
            assert(forall|i: int|
                0 <= i < store.metrics@.len() ==> spec_projects_have(
                    store.projects@,
                    (#[trigger] store.metrics@[i]).project_id,
                ));
            assert(forall|i: int|
                0 <= i < store.memberships@.len() ==> spec_projects_have(
                    store.projects@,
                    (#[trigger] store.memberships@[i]).project_id,
                ));
            assert(forall|i: int, j: int|
                0 <= i < store.memberships@.len() && 0 <= j < store.projects@.len() && (
                #[trigger] store.memberships@[i]).project_id == (
                #[trigger] store.projects@[j]).id ==> store.memberships@[i].user_id
                    != store.projects@[j].owner_id) by {
                assert(forall|i: int|
                    0 <= i < store.memberships@.len() ==> (
                    #[trigger] store.memberships@[i]).project_id < old(store).next_id);
            }
        }
    }
    Ok(resp)
}

/// Fetch a project visible to the caller: allowed reads of in-range
/// records always succeed, a project on which a user holds no role at all
/// is reported as absent, and success implies the read was allowed.
pub fn get_project_by_id(store: &Store, identity: &Identity, project_id: u64) -> (r: Result<
    ProjectResponse,
    AppError,
>)
    requires
        store.wf(),
    ensures
        r matches Ok(resp) ==> exists|j: int|
            0 <= j < store.projects@.len() && (#[trigger] store.projects@[j]).id == project_id
                && resp.name@ == store.projects@[j].name@ && resp.api_key@
                == store.projects@[j].api_key@,
        !store.spec_has_project(project_id) ==> (r matches Err(e) && e
            matches AppError::NotFoundError(_)),
        r matches Err(e) ==> (e matches AppError::NotFoundError(_) || e
            matches AppError::ForbiddenError(_) || e matches AppError::InternalServerError(_)),
        r is Ok ==> spec_action_allowed(*store, *identity, Action::Read, project_id),
        forall|j: int|
            0 <= j < store.projects@.len() && (#[trigger] store.projects@[j]).id == project_id
                && spec_action_allowed(*store, *identity, Action::Read, project_id)
                && crate::timebucket::spec_ts_in_range(store.projects@[j].created_at as int)
                && crate::timebucket::spec_ts_in_range(store.projects@[j].updated_at as int) ==> r
                is Ok,
        forall|j: int|
            0 <= j < store.projects@.len() && (#[trigger] store.projects@[j]).id == project_id && (
            (*identity) matches Identity::UserIdentity { user_id, .. } && spec_rank(
                spec_effective_role(
                    user_id,
                    store.projects@[j].owner_id,
                    store.spec_membership_role(project_id, user_id),
                ),
            ) == 0) ==> (r matches Err(e) && e matches AppError::NotFoundError(_)),
{
    match authorize_project_action(store, identity, Action::Read, project_id) {
        Ok(_) => {},
        Err(e) => {
            return Err(e);
        },
    }
    let pix = match store.find_project(project_id) {
        Some(p) => p,
        None => {
            proof {
                assert(false);
            }
            return Err(AppError::NotFoundError(String::from_str("Project not found")));
        },
    };
    proof {
        assert(forall|a: int, b: int|
            0 <= a < b < store.projects@.len() ==> (#[trigger] store.projects@[a]).id != (
            #[trigger] store.projects@[b]).id);
    }
    project_response_of(&store.projects[pix])
}

/// Add a member to a project's roster. Only a caller allowed to manage
/// members may do it; the target must exist, may not already be a member,
/// and may not be the implicit owner, whose role is not a row.
pub fn add_user_to_project(
    store: &mut Store,
    identity: &Identity,
    project_id: u64,
    target_user_id: u64,
    role: Role,
) -> (r: Result<(), AppError>)
    requires
        old(store).wf(),
    ensures
        final(store).wf(),
        final(store).users == old(store).users,
        final(store).projects == old(store).projects,
        final(store).devices == old(store).devices,
        final(store).events == old(store).events,
        final(store).metrics == old(store).metrics,
        final(store).next_id == old(store).next_id,
        r is Ok ==> final(store).memberships@ == old(store).memberships@.push(
            MembershipRecord { project_id, user_id: target_user_id, role },
        ),
        r is Err ==> *final(store) == *old(store),
        r matches Err(e) ==> (e matches AppError::NotFoundError(_) || e
            matches AppError::ForbiddenError(_) || e matches AppError::ConflictError(_) || e
            matches AppError::ValidationError(_)),
        forall|j: int|
            0 <= j < old(store).projects@.len() && (#[trigger] old(store).projects@[j]).id
                == project_id && ((*identity) matches Identity::UserIdentity { user_id, .. }
                && spec_rank(
                spec_effective_role(
                    user_id,
                    old(store).projects@[j].owner_id,
                    old(store).spec_membership_role(project_id, user_id),
                ),
            ) >= 1) && spec_authorize(
                *identity,
                Action::ManageMembers,
                project_id,
                old(store).projects@[j].owner_id,
                old(store).spec_membership_role(project_id, spec_user_of(*identity)),
            ) != Decision::Allow ==> (r matches Err(e) && e matches AppError::ForbiddenError(_)),
        r is Ok ==> spec_action_allowed(*old(store), *identity, Action::ManageMembers, project_id),
        !old(store).spec_has_project(project_id) ==> (r matches Err(e) && e
            matches AppError::NotFoundError(_)),
        spec_action_allowed(*old(store), *identity, Action::ManageMembers, project_id) && old(
            store,
        ).spec_has_user(target_user_id) && (forall|j: int|
            0 <= j < old(store).projects@.len() && (#[trigger] old(store).projects@[j]).id
                == project_id ==> old(store).projects@[j].owner_id != target_user_id) && (forall|
            m: int,
        |
            0 <= m < old(store).memberships@.len() ==> !((
            #[trigger] old(store).memberships@[m]).project_id == project_id && old(
                store,
            ).memberships@[m].user_id == target_user_id)) ==> r is Ok,
{
    match authorize_project_action(store, identity, Action::ManageMembers, project_id) {
        Ok(_) => {},
        Err(e) => {
            match e {
                AppError::NotFoundError(m) => {
                    return Err(AppError::NotFoundError(m));
                },
                _ => {
                    return Err(AppError::ForbiddenError(String::from_str("Insufficient role")));
                },
            }
        },
    }
    let pix = match store.find_project(project_id) {
        Some(p) => p,
        None => {
            proof {
                assert(false);
            }
            return Err(AppError::NotFoundError(String::from_str("Project not found")));
        },
    };
    match store.find_user(target_user_id) {
        Some(_) => {},
        None => {
            return Err(AppError::NotFoundError(String::from_str("User not found")));
        },
    }
    if store.projects[pix].owner_id == target_user_id {
        // The owner's role is implicit; the roster never carries it.
        return Err(AppError::ValidationError(String::from_str("owner is already a member")));
    }
    if store.find_membership(project_id, target_user_id).is_some() {
        return Err(AppError::ConflictError(String::from_str("user is already a member")));
    }
    let ghost before = store.memberships@;
    store.memberships.push(MembershipRecord { project_id, user_id: target_user_id, role });
    proof {
        assert(store.memberships@.drop_last() =~= before);
        assert(store.memberships@ =~= before.push(
            MembershipRecord { project_id, user_id: target_user_id, role },
        ));
        assert(store.wf()) by {
            assert(store.spec_has_project(project_id));
            assert(store.spec_has_user(target_user_id));
            assert(forall|a: int, b: int|
                0 <= a < b < store.projects@.len() ==> (#[trigger] store.projects@[a]).id != (
                #[trigger] store.projects@[b]).id);
        }
    }
    Ok(())
}

/// Change a member's role. The implicit owner can never be demoted: a
/// role update aimed at the project owner is forbidden outright.
pub fn update_project_user_role(
    store: &mut Store,
    identity: &Identity,
    project_id: u64,
    target_user_id: u64,
    role: Role,
) -> (r: Result<(), AppError>)
    requires
        old(store).wf(),
    ensures
        final(store).wf(),
        final(store).users == old(store).users,
        final(store).projects == old(store).projects,
        final(store).devices == old(store).devices,
        final(store).events == old(store).events,
        final(store).metrics == old(store).metrics,
        r is Err ==> *final(store) == *old(store),
        forall|j: int|
            0 <= j < old(store).projects@.len() && (#[trigger] old(store).projects@[j]).id
                == project_id && old(store).projects@[j].owner_id == target_user_id
                && spec_authorize(
                *identity,
                Action::ManageMembers,
                project_id,
                old(store).projects@[j].owner_id,
                old(store).spec_membership_role(project_id, spec_user_of(*identity)),
            ) == Decision::Allow ==> (r matches Err(e) && e matches AppError::ForbiddenError(_)),
        r is Ok ==> exists|i: int|
            {
                &&& 0 <= i < old(store).memberships@.len()
                &&& (#[trigger] old(store).memberships@[i]).project_id == project_id
                &&& old(store).memberships@[i].user_id == target_user_id
                &&& final(store).memberships@ == old(store).memberships@.update(
                    i,
                    MembershipRecord { project_id, user_id: target_user_id, role },
                )
            },
        r matches Err(e) ==> (e matches AppError::NotFoundError(_) || e
            matches AppError::ForbiddenError(_)),
        forall|j: int|
            0 <= j < old(store).projects@.len() && (#[trigger] old(store).projects@[j]).id
                == project_id && ((*identity) matches Identity::UserIdentity { user_id, .. }
                && spec_rank(
                spec_effective_role(
                    user_id,
                    old(store).projects@[j].owner_id,
                    old(store).spec_membership_role(project_id, user_id),
                ),
            ) >= 1) && spec_authorize(
                *identity,
                Action::ManageMembers,
                project_id,
                old(store).projects@[j].owner_id,
                old(store).spec_membership_role(project_id, spec_user_of(*identity)),
            ) != Decision::Allow ==> (r matches Err(e) && e matches AppError::ForbiddenError(_)),
        r is Ok ==> spec_action_allowed(*old(store), *identity, Action::ManageMembers, project_id),
        !old(store).spec_has_project(project_id) ==> (r matches Err(e) && e
            matches AppError::NotFoundError(_)),
        spec_action_allowed(*old(store), *identity, Action::ManageMembers, project_id) && (forall|
            j: int,
        |
            0 <= j < old(store).projects@.len() && (#[trigger] old(store).projects@[j]).id
                == project_id ==> old(store).projects@[j].owner_id != target_user_id) && (exists|
            m: int,
        |
            0 <= m < old(store).memberships@.len() && (
            #[trigger] old(store).memberships@[m]).project_id == project_id && old(
                store,
            ).memberships@[m].user_id == target_user_id) ==> r is Ok,
{
    match authorize_project_action(store, identity, Action::ManageMembers, project_id) {
        Ok(_) => {},
        Err(e) => {
            match e {
                AppError::NotFoundError(m) => {
                    return Err(AppError::NotFoundError(m));
                },
                _ => {
                    return Err(AppError::ForbiddenError(String::from_str("Insufficient role")));
                },
            }
        },
    }
    let pix = match store.find_project(project_id) {
        Some(p) => p,
        None => {
            proof {
                assert(false);
            }
            return Err(AppError::NotFoundError(String::from_str("Project not found")));
        },
    };
    proof {
        assert(forall|a: int, b: int|
            0 <= a < b < store.projects@.len() ==> (#[trigger] store.projects@[a]).id != (
            #[trigger] store.projects@[b]).id);
    }
    if store.projects[pix].owner_id == target_user_id {
        return Err(AppError::ForbiddenError(String::from_str("the owner cannot be demoted")));
    }
    let mix = match store.find_membership(project_id, target_user_id) {
        Some(i) => i,
        None => {
            return Err(AppError::NotFoundError(String::from_str("Membership not found")));
        },
    };
    let ghost before = store.memberships@;
    store.memberships[mix] = MembershipRecord { project_id, user_id: target_user_id, role };
    proof {
        assert(store.wf()) by {
            assert(forall|a: int, b: int|
                0 <= a < b < store.memberships@.len() ==> !((
                #[trigger] store.memberships@[a]).project_id == (
                #[trigger] store.memberships@[b]).project_id && store.memberships@[a].user_id
                    == store.memberships@[b].user_id));
        }
    }
    Ok(())
}

/// Remove a member from the roster. The implicit owner can never be
/// removed: a removal aimed at the project owner is forbidden outright.
pub fn remove_user_from_project(
    store: &mut Store,
    identity: &Identity,
    project_id: u64,
    target_user_id: u64,
) -> (r: Result<(), AppError>)
    requires
        old(store).wf(),
    ensures
        final(store).wf(),
        final(store).users == old(store).users,
        final(store).projects == old(store).projects,
        final(store).devices == old(store).devices,
        final(store).events == old(store).events,
        final(store).metrics == old(store).metrics,
        r is Err ==> *final(store) == *old(store),
        forall|j: int|
            0 <= j < old(store).projects@.len() && (#[trigger] old(store).projects@[j]).id
                == project_id && old(store).projects@[j].owner_id == target_user_id
                && spec_authorize(
                *identity,
                Action::ManageMembers,
                project_id,
                old(store).projects@[j].owner_id,
                old(store).spec_membership_role(project_id, spec_user_of(*identity)),
            ) == Decision::Allow ==> (r matches Err(e) && e matches AppError::ForbiddenError(_)),
        r is Ok ==> exists|i: int|
            {
                &&& 0 <= i < old(store).memberships@.len()
                &&& (#[trigger] old(store).memberships@[i]).project_id == project_id
                &&& old(store).memberships@[i].user_id == target_user_id
                &&& final(store).memberships@ == old(store).memberships@.remove(i)
            },
        r matches Err(e) ==> (e matches AppError::NotFoundError(_) || e
            matches AppError::ForbiddenError(_)),
        forall|j: int|
            0 <= j < old(store).projects@.len() && (#[trigger] old(store).projects@[j]).id
                == project_id && ((*identity) matches Identity::UserIdentity { user_id, .. }
                && spec_rank(
                spec_effective_role(
                    user_id,
                    old(store).projects@[j].owner_id,
                    old(store).spec_membership_role(project_id, user_id),
                ),
            ) >= 1) && spec_authorize(
                *identity,
                Action::ManageMembers,
                project_id,
                old(store).projects@[j].owner_id,
                old(store).spec_membership_role(project_id, spec_user_of(*identity)),
            ) != Decision::Allow ==> (r matches Err(e) && e matches AppError::ForbiddenError(_)),
        r is Ok ==> spec_action_allowed(*old(store), *identity, Action::ManageMembers, project_id),
        !old(store).spec_has_project(project_id) ==> (r matches Err(e) && e
            matches AppError::NotFoundError(_)),
        spec_action_allowed(*old(store), *identity, Action::ManageMembers, project_id) && (forall|
            j: int,
        |
            0 <= j < old(store).projects@.len() && (#[trigger] old(store).projects@[j]).id
                == project_id ==> old(store).projects@[j].owner_id != target_user_id) && (exists|
            m: int,
        |
            0 <= m < old(store).memberships@.len() && (
            #[trigger] old(store).memberships@[m]).project_id == project_id && old(
                store,
            ).memberships@[m].user_id == target_user_id) ==> r is Ok,
{
    match authorize_project_action(store, identity, Action::ManageMembers, project_id) {
        Ok(_) => {},
        Err(e) => {
            match e {
                AppError::NotFoundError(m) => {
                    return Err(AppError::NotFoundError(m));
                },
                _ => {
                    return Err(AppError::ForbiddenError(String::from_str("Insufficient role")));
                },
            }
        },
    }
    let pix = match store.find_project(project_id) {
        Some(p) => p,
        None => {
            proof {
                assert(false);
            }
            return Err(AppError::NotFoundError(String::from_str("Project not found")));
        },
    };
    proof {
        assert(forall|a: int, b: int|
            0 <= a < b < store.projects@.len() ==> (#[trigger] store.projects@[a]).id != (
            #[trigger] store.projects@[b]).id);
    }
    if store.projects[pix].owner_id == target_user_id {
        return Err(AppError::ForbiddenError(String::from_str("the owner cannot be removed")));
    }
    let mix = match store.find_membership(project_id, target_user_id) {
        Some(i) => i,
        None => {
            return Err(AppError::NotFoundError(String::from_str("Membership not found")));
        },
    };
    let ghost before = store.memberships@;
    store.memberships.remove(mix);
    proof {
        assert(store.wf()) by {
            assert(forall|a: int|
                0 <= a < store.memberships@.len() ==> #[trigger] store.memberships@[a] == (if a
                    < mix as int {
                    before[a]
                } else {
                    before[a + 1]
                }));
        }
    }
    Ok(())
}

/// List a project's roster, joined with the member accounts.
pub fn get_project_users(store: &Store, identity: &Identity, project_id: u64) -> (r: Result<
    Vec<ProjectUserResponse>,
    AppError,
>)
    requires
        store.wf(),
    ensures
        r matches Err(e) ==> (e matches AppError::NotFoundError(_) || e
            matches AppError::ForbiddenError(_)),
        !store.spec_has_project(project_id) ==> (r matches Err(e) && e
            matches AppError::NotFoundError(_)),
        r matches Ok(rs) ==> forall|i: int|
            0 <= i < rs@.len() ==> (#[trigger] rs@[i]).project_id@ == spec_u64_string(
                project_id as int,
            ),
        r is Ok ==> spec_action_allowed(*store, *identity, Action::Read, project_id),
        spec_action_allowed(*store, *identity, Action::Read, project_id) ==> r is Ok,
{
    match authorize_project_action(store, identity, Action::Read, project_id) {
        Ok(_) => {},
        Err(e) => {
            return Err(e);
        },
    }
    let mut out: Vec<ProjectUserResponse> = Vec::new();
    let mut i: usize = 0;
    while i < store.memberships.len()
        invariant
            store.wf(),
            i <= store.memberships@.len(),
            forall|j: int|
                0 <= j < out@.len() ==> (#[trigger] out@[j]).project_id@ == spec_u64_string(
                    project_id as int,
                ),
        decreases store.memberships@.len() - i,
    {
        let m = &store.memberships[i];
        if m.project_id == project_id {
            let uix = match store.find_user(m.user_id) {
                Some(u) => u,
                None => {
                    proof {
                        assert(store.spec_has_user(store.memberships@[i as int].user_id));
                        assert(false);
                    }
                    return Err(AppError::NotFoundError(String::from_str("User not found")));
                },
            };
            out.push(
                ProjectUserResponse {
                    project_id: u64_to_string(project_id),
                    user_id: u64_to_string(m.user_id),
                    role: m.role.as_str(),
                    user_name: store.users[uix].name.clone(),
                    user_email: store.users[uix].email.clone(),
                },
            );
        }
        i += 1;
    }
    Ok(out)
}

/// Rename a project. Only a caller allowed to update it may do it; the
/// name is replaced when given and kept otherwise, and the update instant
/// is recorded.
pub fn update_project(
    store: &mut Store,
    identity: &Identity,
    project_id: u64,
    name: &Option<String>,
    now: i64,
) -> (r: Result<ProjectResponse, AppError>)
    requires
        old(store).wf(),
    ensures
        final(store).wf(),
        final(store).users == old(store).users,
        final(store).memberships == old(store).memberships,
        final(store).devices == old(store).devices,
        final(store).events == old(store).events,
        final(store).metrics == old(store).metrics,
        final(store).next_id == old(store).next_id,
        r is Err ==> *final(store) == *old(store),
        r matches Err(e) ==> (e matches AppError::NotFoundError(_) || e
            matches AppError::ForbiddenError(_) || e matches AppError::InternalServerError(_)),
        r is Ok ==> spec_action_allowed(*old(store), *identity, Action::Update, project_id),
        !old(store).spec_has_project(project_id) ==> (r matches Err(e) && e
            matches AppError::NotFoundError(_)),
        r matches Ok(resp) ==> exists|j: int|
            {
                &&& 0 <= j < old(store).projects@.len()
                &&& (#[trigger] old(store).projects@[j]).id == project_id
                &&& final(store).projects@.len() == old(store).projects@.len()
                &&& (forall|a: int|
                    0 <= a < old(store).projects@.len() && a != j ==> final(store).projects@[a]
                        == old(store).projects@[a])
                &&& final(store).projects@[j].id == project_id
                &&& (name matches Some(n) ==> final(store).projects@[j].name@ == n@)
                &&& (name is None ==> final(store).projects@[j].name@ == old(
                    store,
                ).projects@[j].name@)
                &&& final(store).projects@[j].api_key@ == old(store).projects@[j].api_key@
                &&& final(store).projects@[j].owner_id == old(store).projects@[j].owner_id
                &&& final(store).projects@[j].created_at == old(store).projects@[j].created_at
                &&& final(store).projects@[j].updated_at == now
                &&& resp.name@ == final(store).projects@[j].name@
            },
        forall|j: int|
            0 <= j < old(store).projects@.len() && (#[trigger] old(store).projects@[j]).id
                == project_id && spec_action_allowed(
                *old(store),
                *identity,
                Action::Update,
                project_id,
            ) && crate::timebucket::spec_ts_in_range(old(store).projects@[j].created_at as int)
                && crate::timebucket::spec_ts_in_range(now as int) ==> r is Ok,
{
    match authorize_project_action(store, identity, Action::Update, project_id) {
        Ok(_) => {},
        Err(e) => {
            return Err(e);
        },
    }
    let pix = match store.find_project(project_id) {
        Some(p) => p,
        None => {
            proof {
                assert(false);
            }
            return Err(AppError::NotFoundError(String::from_str("Project not found")));
        },
    };
    proof {
        assert(forall|a: int, b: int|
            0 <= a < b < store.projects@.len() ==> (#[trigger] store.projects@[a]).id != (
            #[trigger] store.projects@[b]).id && store.projects@[a].api_key@
                != store.projects@[b].api_key@);
    }
    let new_name: String = match name {
        Some(n) => n.clone(),
        None => store.projects[pix].name.clone(),
    };
    let rec = ProjectRecord {
        id: store.projects[pix].id,
        name: new_name,
        api_key: store.projects[pix].api_key.clone(),
        owner_id: store.projects[pix].owner_id,
        created_at: store.projects[pix].created_at,
        updated_at: now,
    };
    let resp = match project_response_of(&rec) {
        Ok(resp) => resp,
        Err(e) => {
            return Err(e);
        },
    };
    let ghost before = *store;
    store.projects[pix] = rec;
    proof {
        assert(store.wf()) by {
            assert(forall|a: int, b: int|
                0 <= a < b < store.projects@.len() ==> (#[trigger] store.projects@[a]).id != (
                #[trigger] store.projects@[b]).id && store.projects@[a].api_key@
                    != store.projects@[b].api_key@);
            crate::store::lemma_projects_have_same_ids(before.projects@, store.projects@);
            assert(forall|i: int, j: int|
                0 <= i < store.memberships@.len() && 0 <= j < store.projects@.len() && (
                #[trigger] store.memberships@[i]).project_id == (
                #[trigger] store.projects@[j]).id ==> store.memberships@[i].user_id
                    != store.projects@[j].owner_id) by {
                assert(forall|a: int|
                    0 <= a < before.projects@.len() ==> (#[trigger] store.projects@[a]).id
                        == before.projects@[a].id && store.projects@[a].owner_id
                        == before.projects@[a].owner_id);
            }
        }
    }
    Ok(resp)
}

/// Rotate a project's API key: a fresh opaque key replaces the stored one
/// for a caller allowed to update the project. A key that collides with a
/// stored one - an upsert race on the unique key column - is a conflict,
/// to be retried; the old key stops resolving the moment the new one is
/// stored.
pub fn regenerate_api_key(
    store: &mut Store,
    identity: &Identity,
    project_id: u64,
    now: i64,
) -> (r: Result<String, AppError>)
    requires
        old(store).wf(),
    ensures
        final(store).wf(),
        final(store).users == old(store).users,
        final(store).memberships == old(store).memberships,
        final(store).devices == old(store).devices,
        final(store).events == old(store).events,
        final(store).metrics == old(store).metrics,
        final(store).next_id == old(store).next_id,
        r is Err ==> *final(store) == *old(store),
        r matches Err(e) ==> (e matches AppError::NotFoundError(_) || e
            matches AppError::ForbiddenError(_) || e matches AppError::ConflictError(_)),
        r is Ok ==> spec_action_allowed(*old(store), *identity, Action::Update, project_id),
        !old(store).spec_has_project(project_id) ==> (r matches Err(e) && e
            matches AppError::NotFoundError(_)),
        r matches Ok(key) ==> exists|j: int|
            {
                &&& 0 <= j < old(store).projects@.len()
                &&& (#[trigger] old(store).projects@[j]).id == project_id
                &&& final(store).projects@.len() == old(store).projects@.len()
                &&& (forall|a: int|
                    0 <= a < old(store).projects@.len() && a != j ==> final(store).projects@[a]
                        == old(store).projects@[a])
                &&& final(store).projects@[j].id == project_id
                &&& final(store).projects@[j].api_key@ == key@
                &&& final(store).projects@[j].name@ == old(store).projects@[j].name@
                &&& final(store).projects@[j].owner_id == old(store).projects@[j].owner_id
                &&& final(store).projects@[j].updated_at == now
            },
{
    match authorize_project_action(store, identity, Action::Update, project_id) {
        Ok(_) => {},
        Err(e) => {
            match e {
                AppError::NotFoundError(m) => {
                    return Err(AppError::NotFoundError(m));
                },
                _ => {
                    return Err(AppError::ForbiddenError(String::from_str("Insufficient role")));
                },
            }
        },
    }
    let pix = match store.find_project(project_id) {
        Some(p) => p,
        None => {
            proof {
                assert(false);
            }
            return Err(AppError::NotFoundError(String::from_str("Project not found")));
        },
    };
    let api_key = new_opaque_key();
    if store.find_project_by_api_key(&api_key).is_some() {
        // The random key collided with a stored one; the caller retries.
        return Err(AppError::ConflictError(String::from_str("API key collision")));
    }
    proof {
        assert(forall|a: int, b: int|
            0 <= a < b < store.projects@.len() ==> (#[trigger] store.projects@[a]).id != (
            #[trigger] store.projects@[b]).id && store.projects@[a].api_key@
                != store.projects@[b].api_key@);
    }
    let rec = ProjectRecord {
        id: store.projects[pix].id,
        name: store.projects[pix].name.clone(),
        api_key: api_key.clone(),
        owner_id: store.projects[pix].owner_id,
        created_at: store.projects[pix].created_at,
        updated_at: now,
    };
    let ghost before = *store;
    store.projects[pix] = rec;
    proof {
        assert(store.wf()) by {
            assert(forall|a: int, b: int|
                0 <= a < b < store.projects@.len() ==> (#[trigger] store.projects@[a]).id != (
                #[trigger] store.projects@[b]).id && store.projects@[a].api_key@
                    != store.projects@[b].api_key@);
            crate::store::lemma_projects_have_same_ids(before.projects@, store.projects@);
            assert(forall|i: int, j: int|
                0 <= i < store.memberships@.len() && 0 <= j < store.projects@.len() && (
                #[trigger] store.memberships@[i]).project_id == (
                #[trigger] store.projects@[j]).id ==> store.memberships@[i].user_id
                    != store.projects@[j].owner_id) by {
                assert(forall|a: int|
                    0 <= a < before.projects@.len() ==> (#[trigger] store.projects@[a]).id
                        == before.projects@[a].id && store.projects@[a].owner_id
                        == before.projects@[a].owner_id);
            }
        }
    }
    Ok(api_key)
}

} // verus!
