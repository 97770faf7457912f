//! The identity resolver and the login flow. Resolution is state-free per
//! request: a bearer header yields a user or API-key identity from a
//! verified token; a raw API key on its own header is matched against the
//! project table. Resolution only authenticates; every authorization
//! decision is the policy's.

use vstd::prelude::*;

use crate::errors::AppError;
use crate::roles::Identity;
use crate::shim::{spec_password_matches, verify_password};
use crate::store::Store;
use crate::strutil::{
    has_lit_at, parse_id, spec_all_digits, spec_digits_val, spec_has_at, spec_u64_string,
};
use crate::tokens::{generate_token, spec_token, verify_token};

verus! {

/// A login request: the operator's email and password.
pub struct LoginRequest {
    pub email: String,
    pub password: String,
}

/// A successful login: a session token and the user it names.
pub struct LoginResponse {
    pub token: String,
    pub user: User,
}

/// A raw API-key credential as submitted for exchange.
pub struct ApiKeyAuth {
    pub project_id: String,
    pub api_key: String,
}

/// A user as presented to callers.
pub struct User {
    pub id: String,
    pub email: String,
    pub name: String,
    pub role: String,
}

/// Whether the header carries exactly `Bearer ` followed by the token of
/// these claims under this secret.
pub open spec fn spec_bearer_of(
    auth_header: Option<String>,
    cv: crate::claims::ClaimsView,
    secret: Seq<char>,
) -> bool {
    auth_header matches Some(h) && h@ == "Bearer "@ + spec_token(cv, secret)
}

/// Claims whose subject is a decimal user id.
pub open spec fn spec_user_claims(cv: crate::claims::ClaimsView) -> bool {
    !cv.is_api_key && spec_all_digits(cv.sub) && cv.sub.len() >= 1 && spec_digits_val(cv.sub)
        <= u64::MAX as int
}

/// Claims that carry a decimal project id under the API-key scope.
pub open spec fn spec_key_claims(cv: crate::claims::ClaimsView) -> bool {
    cv.is_api_key && (cv.project_id matches Some(p) && spec_all_digits(p) && p.len() >= 1
        && spec_digits_val(p) <= u64::MAX as int)
}

/// Resolve the bearer credential of a request: the header must carry a
/// `Bearer` token that verifies under the secret and is not expired. An
/// API-key-scope token yields a project identity, a user-scope token a
/// user identity. Every rejection is an authentication error: a missing
/// header, a malformed credential, or an invalid or expired token; every
/// well-formed, unexpired credential of either scope is accepted and
/// tagged with its kind.
pub fn resolve_bearer_identity(
    auth_header: &Option<String>,
    jwt_secret: &String,
    now: u64,
) -> (r: Result<Identity, AppError>)
    ensures
        r matches Err(e) ==> e matches AppError::AuthError(_),
        r is Ok ==> (auth_header matches Some(h) && spec_has_at(h@, "Bearer "@, 0)),
        r matches Ok(ident) ==> exists|cv: crate::claims::ClaimsView|
            {
                &&& crate::claims::spec_claims_wf(cv)
                &&& (auth_header matches Some(h) && h@.subrange(7, h@.len() as int) == spec_token(
                    cv,
                    jwt_secret@,
                ))
                &&& now < cv.exp
                &&& match ident {
                    Identity::ProjectKeyIdentity { project_id } => cv.is_api_key && (
                    cv.project_id matches Some(p) && crate::strutil::spec_digits_val(p)
                        == project_id as int),
                    Identity::UserIdentity { user_id, global_role } => !cv.is_api_key
                        && crate::strutil::spec_digits_val(cv.sub) == user_id as int && global_role@
                        == cv.role,
                }
            },
        forall|cv: crate::claims::ClaimsView|
            crate::claims::spec_claims_wf(cv) && spec_bearer_of(*auth_header, cv, jwt_secret@)
                && now < cv.exp && spec_user_claims(cv) ==> (r matches Ok(ident) && (
            ident matches Identity::UserIdentity { user_id, global_role } && user_id as int
                == spec_digits_val(cv.sub) && global_role@ == cv.role)),
        forall|cv: crate::claims::ClaimsView|
            crate::claims::spec_claims_wf(cv) && spec_bearer_of(*auth_header, cv, jwt_secret@)
                && now < cv.exp && spec_key_claims(cv) ==> (r matches Ok(ident) && (
            ident matches Identity::ProjectKeyIdentity { project_id } && cv.project_id matches Some(
                p,
            ) && project_id as int == spec_digits_val(p))),
{
    let header = match auth_header {
        Some(h) => h,
        None => {
            return Err(AppError::AuthError(String::from_str("Missing authorization header")));
        },
    };
    proof {
        reveal_strlit("Bearer ");
        assert forall|cv: crate::claims::ClaimsView|
            crate::claims::spec_claims_wf(cv) && spec_bearer_of(*auth_header, cv, jwt_secret@)
                && now < cv.exp implies spec_has_at(header@, "Bearer "@, 0) && header@.subrange(
            7,
            header@.len() as int,
        ) == spec_token(cv, jwt_secret@) by {
            assert(header@.subrange(0, 7) =~= "Bearer "@);
            assert(header@.subrange(7, header@.len() as int) =~= spec_token(cv, jwt_secret@));
        }
    }
    if !has_lit_at(header.as_str(), "Bearer ", 0) {
        return Err(AppError::AuthError(String::from_str("Invalid authorization scheme")));
    }
    let len = header.as_str().unicode_len();
    let token = header.as_str().substring_char(7, len).to_owned();
    let claims = match verify_token(&token, jwt_secret, now) {
        Ok(c) => c,
        Err(e) => {
            return Err(AppError::AuthError(String::from_str("Invalid token")));
        },
    };
    if claims.is_api_key {
        let pid_text = match &claims.project_id {
            Some(p) => p,
            None => {
                return Err(AppError::AuthError(String::from_str("Invalid token: no project")));
            },
        };
        let project_id = match parse_id(pid_text) {
            Some(v) => v,
            None => {
                return Err(AppError::AuthError(String::from_str("Invalid token: bad project id")));
            },
        };
        Ok(Identity::ProjectKeyIdentity { project_id })
    } else {
        let user_id = match parse_id(&claims.sub) {
            Some(v) => v,
            None => {
                return Err(AppError::AuthError(String::from_str("Invalid token: bad subject")));
            },
        };
        Ok(Identity::UserIdentity { user_id, global_role: claims.role })
    }
}

/// Resolve a raw API key against the project table: the key names exactly
/// the project that carries it; an unknown key is an authentication error.
pub fn resolve_api_key_identity(store: &Store, api_key_header: &Option<String>) -> (r: Result<
    Identity,
    AppError,
>)
    requires
        store.wf(),
    ensures
        r matches Err(e) ==> e matches AppError::AuthError(_),
        r matches Err(e) ==> (api_key_header matches Some(k) ==> forall|j: int|
            0 <= j < store.projects@.len() ==> (#[trigger] store.projects@[j]).api_key@ != k@),
        r matches Ok(ident) ==> (api_key_header matches Some(k) && exists|j: int|
            0 <= j < store.projects@.len() && (#[trigger] store.projects@[j]).api_key@ == k@
                && ident == (Identity::ProjectKeyIdentity { project_id: store.projects@[j].id })),
{
    let key = match api_key_header {
        Some(k) => k,
        None => {
            return Err(AppError::AuthError(String::from_str("Missing API key")));
        },
    };
    match store.find_project_by_api_key(key) {
        Some(i) => Ok(Identity::ProjectKeyIdentity { project_id: store.projects[i].id }),
        None => Err(AppError::AuthError(String::from_str("Invalid API key"))),
    }
}

/// Log an operator in: find the account by email, verify the password
/// against the stored hash, and issue a session token for the account's
/// global role, expiring `expiration_hours` hours past `now`. An account
/// with a well-formed stored hash and a matching password always gets a
/// token; an unknown email and a wrong password are rejected with one and
/// the same authentication error, so account existence does not leak.
pub fn login(
    store: &Store,
    email: &String,
    password: &String,
    jwt_secret: &String,
    expiration_hours: u64,
    now: u64,
) -> (r: Result<LoginResponse, AppError>)
    requires
        store.wf(),
        now + expiration_hours * 3600 <= u64::MAX,
    ensures
        r matches Ok(resp) ==> exists|i: int|
            {
                &&& 0 <= i < store.users@.len()
                &&& (#[trigger] store.users@[i]).email@ == email@
                &&& spec_password_matches(password@, store.users@[i].password_hash@)
                &&& resp.user.email@ == email@
                &&& resp.user.name@ == store.users@[i].name@
                &&& resp.user.role@ == store.users@[i].role@
                &&& resp.user.id@ == crate::strutil::spec_u64_string(store.users@[i].id as int)
                &&& resp.token@ == spec_token(
                    crate::claims::ClaimsView {
                        sub: crate::strutil::spec_u64_string(store.users@[i].id as int),
                        role: store.users@[i].role@,
                        exp: (now + expiration_hours * 3600) as u64,
                        project_id: Option::None,
                        is_api_key: false,
                    },
                    jwt_secret@,
                )
            },
        r matches Err(e) ==> (e matches AppError::AuthError(_) || e
            matches AppError::InternalServerError(_) || e matches AppError::ValidationError(_)),
        r matches Err(e) ==> (e matches AppError::AuthError(_) ==> (forall|i: int|
            0 <= i < store.users@.len() ==> (#[trigger] store.users@[i]).email@ != email@) || (
        exists|i: int|
            0 <= i < store.users@.len() && (#[trigger] store.users@[i]).email@ == email@
                && !spec_password_matches(password@, store.users@[i].password_hash@))),
        (exists|i: int|
            0 <= i < store.users@.len() && (#[trigger] store.users@[i]).email@ == email@
                && crate::shim::spec_is_phc_hash(store.users@[i].password_hash@)
                && spec_password_matches(password@, store.users@[i].password_hash@)
                && crate::claims::spec_json_safe(store.users@[i].role@)) ==> r is Ok,
        ((forall|i: int|
            0 <= i < store.users@.len() ==> (#[trigger] store.users@[i]).email@ != email@) || (
        exists|i: int|
            0 <= i < store.users@.len() && (#[trigger] store.users@[i]).email@ == email@
                && crate::shim::spec_is_phc_hash(store.users@[i].password_hash@)
                && !spec_password_matches(password@, store.users@[i].password_hash@))) ==> (r
            matches Err(e) && e matches AppError::AuthError(_)),
{
    let ix = match store.find_user_by_email(email) {
        Some(i) => i,
        None => {
            return Err(AppError::AuthError(String::from_str("Invalid email or password")));
        },
    };
    proof {
        assert(forall|a: int, b: int|
            0 <= a < b < store.users@.len() ==> (#[trigger] store.users@[a]).email@ != (
            #[trigger] store.users@[b]).email@);
    }
    let ok = match verify_password(password.as_str(), store.users[ix].password_hash.as_str()) {
        Ok(b) => b,
        Err(e) => {
            return Err(e);
        },
    };
    if !ok {
        return Err(AppError::AuthError(String::from_str("Invalid email or password")));
    }
    let token = match generate_token(
        store.users[ix].id,
        &store.users[ix].role,
        jwt_secret,
        expiration_hours,
        now,
    ) {
        Ok(t) => t,
        Err(e) => {
            return Err(e);
        },
    };
    let user = User {
        id: crate::strutil::u64_to_string(store.users[ix].id),
        email: store.users[ix].email.clone(),
        name: store.users[ix].name.clone(),
        role: store.users[ix].role.clone(),
    };
    Ok(LoginResponse { token, user })
}

} // verus!
