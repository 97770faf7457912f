//! User accounts: creation with a hashed password and a unique email, and
//! the presentation of accounts to callers.

use vstd::prelude::*;

use crate::errors::AppError;
use crate::shim::{
    format_rfc3339_seconds, hash_password, spec_is_phc_hash, spec_password_matches,
    spec_rfc3339_of, verify_password,
};
use crate::store::{Store, UserRecord};
use crate::strutil::{spec_u64_string, u64_to_string};

verus! {

/// A request to create an account. A missing role defaults to `user`.
pub struct CreateUserRequest {
    pub email: String,
    pub name: String,
    pub password: String,
    pub role: Option<String>,
}

/// A request to update an account's profile.
pub struct UpdateUserRequest {
    pub name: Option<String>,
    pub email: Option<String>,
    pub role: Option<String>,
}

/// A request to change an account's password.
pub struct ChangePasswordRequest {
    pub current_password: String,
    pub new_password: String,
}

/// An account as presented to callers.
pub struct UserResponse {
    pub id: String,
    pub email: String,
    pub name: String,
    pub role: String,
    pub created_at: String,
    pub updated_at: String,
}

/// Render an account record; succeeds on every in-range record.
pub fn user_response_of(rec: &UserRecord) -> (r: Result<UserResponse, AppError>)
    ensures
        r matches Ok(resp) ==> resp.id@ == spec_u64_string(rec.id as int) && resp.email@
            == rec.email@ && resp.name@ == rec.name@ && resp.role@ == rec.role@ && resp.created_at@
            == spec_rfc3339_of(rec.created_at as int) && resp.updated_at@ == spec_rfc3339_of(
            rec.updated_at as int,
        ),
        r matches Err(e) ==> e matches AppError::InternalServerError(_),
        crate::timebucket::spec_ts_in_range(rec.created_at as int)
            && crate::timebucket::spec_ts_in_range(rec.updated_at as int) ==> r is Ok,
{
    let created_at = match format_rfc3339_seconds(rec.created_at) {
        Some(t) => t,
        None => {
            return Err(AppError::InternalServerError(String::from_str("instant out of range")));
        },
    };
    let updated_at = match format_rfc3339_seconds(rec.updated_at) {
        Some(t) => t,
        None => {
            return Err(AppError::InternalServerError(String::from_str("instant out of range")));
        },
    };
    Ok(
        UserResponse {
            id: u64_to_string(rec.id),
            email: rec.email.clone(),
            name: rec.name.clone(),
            role: rec.role.clone(),
            created_at,
            updated_at,
        },
    )
}

/// Create an account: the email must be unused; the password is stored
/// only as its salted hash, which verifies against the given password; a
/// missing role defaults to `user`.
pub fn create_user(store: &mut Store, req: &CreateUserRequest, now: i64) -> (r: Result<
    UserResponse,
    AppError,
>)
    requires
        old(store).wf(),
    ensures
        final(store).wf(),
        final(store).projects == old(store).projects,
        final(store).memberships == old(store).memberships,
        final(store).devices == old(store).devices,
        final(store).events == old(store).events,
        final(store).metrics == old(store).metrics,
        r matches Ok(resp) ==> {
            &&& final(store).users@.len() == old(store).users@.len() + 1
            &&& final(store).users@.subrange(0, old(store).users@.len() as int) == old(
                store,
            ).users@
            &&& final(store).users@.last().email@ == req.email@
            &&& final(store).users@.last().name@ == req.name@
            &&& spec_password_matches(req.password@, final(store).users@.last().password_hash@)
            &&& (req.role matches Some(ro) ==> final(store).users@.last().role@ == ro@)
            &&& (req.role is None ==> final(store).users@.last().role@ == "user"@)
            &&& resp.email@ == req.email@
            &&& resp.id@ == spec_u64_string(final(store).users@.last().id as int)
        },
        r matches Err(e) ==> {
            &&& final(store).users == old(store).users
            &&& (e matches AppError::ConflictError(_) ==> exists|i: int|
                0 <= i < old(store).users@.len() && (#[trigger] old(store).users@[i]).email@
                    == req.email@)
            &&& (e matches AppError::ConflictError(_) || e
                matches AppError::InternalServerError(_))
        },
        (exists|i: int|
            0 <= i < old(store).users@.len() && (#[trigger] old(store).users@[i]).email@
                == req.email@) ==> (r matches Err(e) && e matches AppError::ConflictError(_)),
{
    match store.find_user_by_email(&req.email) {
        Some(_) => {
            return Err(AppError::ConflictError(String::from_str("email is already registered")));
        },
        None => {},
    }
    let password_hash = match hash_password(req.password.as_str()) {
        Ok(h) => h,
        Err(e) => {
            return Err(e);
        },
    };
    let role: String = match &req.role {
        Some(ro) => ro.clone(),
        None => String::from_str("user"),
    };
    let id = match store.fresh_id() {
        Some(id) => id,
        None => {
            return Err(AppError::InternalServerError(String::from_str("id space exhausted")));
        },
    };
    let rec = UserRecord {
        id,
        email: req.email.clone(),
        password_hash,
        name: req.name.clone(),
        role,
        created_at: now,
        updated_at: now,
    };
    let resp = match user_response_of(&rec) {
        Ok(resp) => resp,
        Err(e) => {
            return Err(e);
        },
    };
    let ghost before = store.users@;
    store.users.push(rec);
    proof {
        assert(store.users@.subrange(0, before.len() as int) =~= before);
        assert(store.wf()) by {
            assert(forall|a: int, b: int|
                0 <= a < b < store.users@.len() ==> (#[trigger] store.users@[a]).id != (
                #[trigger] store.users@[b]).id && store.users@[a].email@
                    != store.users@[b].email@);
            assert(forall|i: int|
                0 <= i < store.memberships@.len() ==> crate::store::spec_users_have(
                    store.users@,
                    (#[trigger] store.memberships@[i]).user_id,
                ));
        }
    }
    Ok(resp)
}

/// Fetch an account by id.
pub fn get_user(store: &Store, id: u64) -> (r: Result<UserResponse, AppError>)
    requires
        store.wf(),
    ensures
        r matches Ok(resp) ==> exists|i: int|
            0 <= i < store.users@.len() && (#[trigger] store.users@[i]).id == id && resp.email@
                == store.users@[i].email@ && resp.name@ == store.users@[i].name@,
        r matches Err(e) ==> (e matches AppError::NotFoundError(_) ==> !store.spec_has_user(id))
            && (e matches AppError::NotFoundError(_) || e matches AppError::InternalServerError(
            _,
        )),
        !store.spec_has_user(id) ==> r is Err,
        forall|i: int|
            0 <= i < store.users@.len() && (#[trigger] store.users@[i]).id == id
                && crate::timebucket::spec_ts_in_range(store.users@[i].created_at as int)
                && crate::timebucket::spec_ts_in_range(store.users@[i].updated_at as int) ==> r
                is Ok,
{
    match store.find_user(id) {
        Some(i) => user_response_of(&store.users[i]),
        None => Err(AppError::NotFoundError(String::from_str("User not found"))),
    }
}

/// List every account.
pub fn get_users(store: &Store) -> (r: Result<Vec<UserResponse>, AppError>)
    requires
        store.wf(),
    ensures
        r matches Ok(rs) ==> rs@.len() == store.users@.len() && forall|i: int|
            0 <= i < rs@.len() ==> (#[trigger] rs@[i]).email@ == store.users@[i].email@
                && rs@[i].name@ == store.users@[i].name@ && rs@[i].role@ == store.users@[i].role@
                && rs@[i].id@ == spec_u64_string(store.users@[i].id as int),
        r matches Err(e) ==> e matches AppError::InternalServerError(_),
        (forall|i: int|
            0 <= i < store.users@.len() ==> crate::timebucket::spec_ts_in_range(
                (#[trigger] store.users@[i]).created_at as int,
            ) && crate::timebucket::spec_ts_in_range(store.users@[i].updated_at as int)) ==> r
            is Ok,
{
    let mut out: Vec<UserResponse> = Vec::new();
    let mut i: usize = 0;
    while i < store.users.len()
        invariant
            i <= store.users@.len(),
            out@.len() == i,
            forall|j: int|
                0 <= j < i ==> (#[trigger] out@[j]).email@ == store.users@[j].email@ && out@[j].name@
                    == store.users@[j].name@ && out@[j].role@ == store.users@[j].role@
                    && out@[j].id@ == spec_u64_string(store.users@[j].id as int),
        decreases store.users@.len() - i,
    {
        match user_response_of(&store.users[i]) {
            Ok(resp) => {
                out.push(resp);
            },
            Err(e) => {
                return Err(e);
            },
        }
        i += 1;
    }
    Ok(out)
}

/// Update an account's profile: each given field replaces the stored one,
/// the rest are kept; a new email must not belong to another account.
pub fn update_user(store: &mut Store, id: u64, req: &UpdateUserRequest, now: i64) -> (r: Result<
    UserResponse,
    AppError,
>)
    requires
        old(store).wf(),
    ensures
        final(store).wf(),
        final(store).projects == old(store).projects,
        final(store).memberships == old(store).memberships,
        final(store).devices == old(store).devices,
        final(store).events == old(store).events,
        final(store).metrics == old(store).metrics,
        final(store).next_id == old(store).next_id,
        r is Err ==> *final(store) == *old(store),
        r matches Err(e) ==> (e matches AppError::NotFoundError(_) || e
            matches AppError::ConflictError(_) || e matches AppError::InternalServerError(_)),
        !old(store).spec_has_user(id) ==> (r matches Err(e) && e
            matches AppError::NotFoundError(_)),
        r matches Ok(resp) ==> exists|i: int|
            {
                &&& 0 <= i < old(store).users@.len()
                &&& (#[trigger] old(store).users@[i]).id == id
                &&& final(store).users@.len() == old(store).users@.len()
                &&& (forall|a: int|
                    0 <= a < old(store).users@.len() && a != i ==> final(store).users@[a] == old(
                        store,
                    ).users@[a])
                &&& final(store).users@[i].id == id
                &&& (req.name matches Some(n) ==> final(store).users@[i].name@ == n@)
                &&& (req.name is None ==> final(store).users@[i].name@ == old(
                    store,
                ).users@[i].name@)
                &&& (req.email matches Some(em) ==> final(store).users@[i].email@ == em@)
                &&& (req.email is None ==> final(store).users@[i].email@ == old(
                    store,
                ).users@[i].email@)
                &&& (req.role matches Some(ro) ==> final(store).users@[i].role@ == ro@)
                &&& (req.role is None ==> final(store).users@[i].role@ == old(
                    store,
                ).users@[i].role@)
                &&& final(store).users@[i].password_hash@ == old(store).users@[i].password_hash@
                &&& final(store).users@[i].created_at == old(store).users@[i].created_at
                &&& final(store).users@[i].updated_at == now
                &&& resp.email@ == final(store).users@[i].email@
                &&& resp.name@ == final(store).users@[i].name@
            },
        forall|i: int|
            0 <= i < old(store).users@.len() && (#[trigger] old(store).users@[i]).id == id && (
            req.email matches Some(em) && (exists|a: int|
                0 <= a < old(store).users@.len() && (#[trigger] old(store).users@[a]).email@ == em@
                    && old(store).users@[a].id != id)) ==> (r matches Err(e) && e
            matches AppError::ConflictError(_)),
        forall|i: int|
            0 <= i < old(store).users@.len() && (#[trigger] old(store).users@[i]).id == id && (
            req.email is None || (req.email matches Some(em) && (forall|a: int|
                0 <= a < old(store).users@.len() ==> ((#[trigger] old(store).users@[a]).email@
                    == em@ ==> old(store).users@[a].id == id))))
                && crate::timebucket::spec_ts_in_range(old(store).users@[i].created_at as int)
                && crate::timebucket::spec_ts_in_range(now as int) ==> r is Ok,
{
    let ix = match store.find_user(id) {
        Some(i) => i,
        None => {
            return Err(AppError::NotFoundError(String::from_str("User not found")));
        },
    };
    proof {
        assert(forall|a: int, b: int|
            0 <= a < b < store.users@.len() ==> (#[trigger] store.users@[a]).id != (
            #[trigger] store.users@[b]).id && store.users@[a].email@ != store.users@[b].email@);
    }
    let email: String = match &req.email {
        Some(em) => {
            match store.find_user_by_email(em) {
                Some(other) => {
                    if store.users[other].id != id {
                        return Err(
                            AppError::ConflictError(
                                String::from_str("email is already registered"),
                            ),
                        );
                    }
                },
                None => {},
            }
            em.clone()
        },
        None => store.users[ix].email.clone(),
    };
    let name: String = match &req.name {
        Some(n) => n.clone(),
        None => store.users[ix].name.clone(),
    };
    let role: String = match &req.role {
        Some(ro) => ro.clone(),
        None => store.users[ix].role.clone(),
    };
    let rec = UserRecord {
        id: store.users[ix].id,
        email,
        password_hash: store.users[ix].password_hash.clone(),
        name,
        role,
        created_at: store.users[ix].created_at,
        updated_at: now,
    };
    let resp = match user_response_of(&rec) {
        Ok(resp) => resp,
        Err(e) => {
            return Err(e);
        },
    };
    let ghost before = *store;
    store.users[ix] = rec;
    proof {
        assert(store.wf()) by {
            assert(forall|a: int, b: int|
                0 <= a < b < store.users@.len() ==> (#[trigger] store.users@[a]).id != (
                #[trigger] store.users@[b]).id && store.users@[a].email@
                    != store.users@[b].email@);
            crate::store::lemma_users_have_same_ids(before.users@, store.users@);
        }
    }
    Ok(resp)
}

/// Change an account's password: the current password must verify against
/// the stored hash, and the new password is stored only as a fresh salted
/// hash that verifies against it.
pub fn change_password(store: &mut Store, id: u64, req: &ChangePasswordRequest, now: i64) -> (r:
    Result<(), AppError>)
    requires
        old(store).wf(),
    ensures
        final(store).wf(),
        final(store).projects == old(store).projects,
        final(store).memberships == old(store).memberships,
        final(store).devices == old(store).devices,
        final(store).events == old(store).events,
        final(store).metrics == old(store).metrics,
        final(store).next_id == old(store).next_id,
        r is Err ==> *final(store) == *old(store),
        r matches Err(e) ==> (e matches AppError::NotFoundError(_) || e
            matches AppError::AuthError(_) || e matches AppError::InternalServerError(_)),
        !old(store).spec_has_user(id) ==> (r matches Err(e) && e
            matches AppError::NotFoundError(_)),
        forall|i: int|
            0 <= i < old(store).users@.len() && (#[trigger] old(store).users@[i]).id == id
                && crate::shim::spec_is_phc_hash(old(store).users@[i].password_hash@)
                && !spec_password_matches(
                req.current_password@,
                old(store).users@[i].password_hash@,
            ) ==> (r matches Err(e) && e matches AppError::AuthError(_)),
        r is Ok ==> exists|i: int|
            {
                &&& 0 <= i < old(store).users@.len()
                &&& (#[trigger] old(store).users@[i]).id == id
                &&& spec_password_matches(
                    req.current_password@,
                    old(store).users@[i].password_hash@,
                )
                &&& final(store).users@.len() == old(store).users@.len()
                &&& (forall|a: int|
                    0 <= a < old(store).users@.len() && a != i ==> final(store).users@[a] == old(
                        store,
                    ).users@[a])
                &&& final(store).users@[i].id == id
                &&& final(store).users@[i].email@ == old(store).users@[i].email@
                &&& final(store).users@[i].name@ == old(store).users@[i].name@
                &&& final(store).users@[i].role@ == old(store).users@[i].role@
                &&& spec_password_matches(
                    req.new_password@,
                    final(store).users@[i].password_hash@,
                )
                &&& final(store).users@[i].updated_at == now
            },
{
    let ix = match store.find_user(id) {
        Some(i) => i,
        None => {
            return Err(AppError::NotFoundError(String::from_str("User not found")));
        },
    };
    proof {
        assert(forall|a: int, b: int|
            0 <= a < b < store.users@.len() ==> (#[trigger] store.users@[a]).id != (
            #[trigger] store.users@[b]).id && store.users@[a].email@ != store.users@[b].email@);
    }
    let ok = match verify_password(
        req.current_password.as_str(),
        store.users[ix].password_hash.as_str(),
    ) {
        Ok(b) => b,
        Err(e) => {
            return Err(e);
        },
    };
    if !ok {
        return Err(AppError::AuthError(String::from_str("current password is wrong")));
    }
    let password_hash = match hash_password(req.new_password.as_str()) {
        Ok(h) => h,
        Err(e) => {
            return Err(e);
        },
    };
    let rec = UserRecord {
        id: store.users[ix].id,
        email: store.users[ix].email.clone(),
        password_hash,
        name: store.users[ix].name.clone(),
        role: store.users[ix].role.clone(),
        created_at: store.users[ix].created_at,
        updated_at: now,
    };
    let ghost before = *store;
    store.users[ix] = rec;
    proof {
        assert(store.wf()) by {
            assert(forall|a: int, b: int|
                0 <= a < b < store.users@.len() ==> (#[trigger] store.users@[a]).id != (
                #[trigger] store.users@[b]).id && store.users@[a].email@
                    != store.users@[b].email@);
            crate::store::lemma_users_have_same_ids(before.users@, store.users@);
        }
    }
    Ok(())
}

} // verus!
