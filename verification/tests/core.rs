use telemetry_core::auth::{login, resolve_api_key_identity, resolve_bearer_identity};
use telemetry_core::errors::AppError;
use telemetry_core::events::{
    create_batch_events, create_event, get_event_by_id, get_events, BatchEventsRequest, EventData,
};
use telemetry_core::metrics::{query_timeseries, record_metric, CombinePolicy};
use telemetry_core::projects::{
    add_user_to_project, authorize_project_action, create_project, get_project_by_id,
    remove_user_from_project, update_project_user_role,
};
use telemetry_core::roles::{authorize, Action, Decision, Identity, Role};
use telemetry_core::store::Store;
use telemetry_core::timebucket::{bucket_bounds, Interval};
use telemetry_core::tokens::{generate_api_key_token, generate_token, verify_token};
use telemetry_core::users::{create_user, CreateUserRequest};

fn event(device: &str, ty: &str, ts: &str) -> EventData {
    EventData {
        event_type: ty.to_string(),
        event_name: Some("level_started".to_string()),
        parameters: None,
        timestamp: ts.to_string(),
        device_id: device.to_string(),
        platform: "ios".to_string(),
        os_version: Some("17.0".to_string()),
        app_version: Some("1.2.3".to_string()),
        ip_address: Some("192.0.2.10".to_string()),
    }
}

fn store_with_owner_and_project() -> (Store, u64, u64) {
    let mut store = Store::new();
    let user = create_user(
        &mut store,
        &CreateUserRequest {
            email: "owner@example.com".to_string(),
            name: "Owner".to_string(),
            password: "hunter2hunter2".to_string(),
            role: None,
        },
        1_700_000_000,
    )
    .unwrap();
    let owner_id: u64 = user.id.parse().unwrap();
    let project = create_project(&mut store, &"game".to_string(), owner_id, 1_700_000_000).unwrap();
    let project_id: u64 = project.id.parse().unwrap();
    (store, owner_id, project_id)
}

#[test]
fn single_event_creates_device_and_row() {
    let (mut store, _owner, project_id) = store_with_owner_and_project();
    let resp = create_event(
        &mut store,
        project_id,
        &event("dev-1", "session_start", "2024-05-02T10:00:00Z"),
        1_714_650_000,
    )
    .unwrap();
    assert_eq!(resp.event_type, "session_start");
    assert_eq!(store.events.len(), 1);
    assert_eq!(store.devices.len(), 1);
    assert_eq!(store.devices[0].device_id, "dev-1");
    // The documentation address range maps to its fixed country code.
    assert_eq!(store.devices[0].country.as_deref(), Some("US"));
    assert_eq!(resp.timestamp, "2024-05-02T10:00:00+00:00");
}

#[test]
fn repeated_ingest_keeps_one_device_row() {
    let (mut store, _owner, project_id) = store_with_owner_and_project();
    create_event(
        &mut store,
        project_id,
        &event("dev-1", "session_start", "2024-05-02T10:00:00Z"),
        1000,
    )
    .unwrap();
    create_event(
        &mut store,
        project_id,
        &event("dev-1", "session_end", "2024-05-02T10:05:00Z"),
        2000,
    )
    .unwrap();
    create_event(
        &mut store,
        project_id,
        &event("dev-1", "session_start", "2024-05-02T11:00:00Z"),
        3000,
    )
    .unwrap();
    assert_eq!(store.devices.len(), 1);
    assert_eq!(store.devices[0].first_seen, 1000);
    assert_eq!(store.devices[0].last_seen, 3000);
    assert_eq!(store.events.len(), 3);
}

#[test]
fn batch_with_unparsable_timestamp_is_rejected_whole() {
    let (mut store, _owner, project_id) = store_with_owner_and_project();
    let batch = BatchEventsRequest {
        events: vec![
            event("dev-1", "session_start", "2024-05-02T10:00:00Z"),
            event("dev-1", "session_end", "not-a-timestamp"),
            event("dev-2", "session_start", "2024-05-02T10:02:00Z"),
        ],
    };
    let r = create_batch_events(&mut store, project_id, &batch, 1_714_650_000);
    match r {
        Err(AppError::ValidationError(_)) => {}
        other => panic!("expected a validation error, got {:?}", other.is_ok()),
    }
    // Atomic batch: nothing persisted, no devices created.
    assert_eq!(store.events.len(), 0);
    assert_eq!(store.devices.len(), 0);
}

#[test]
fn valid_batch_persists_every_item() {
    let (mut store, _owner, project_id) = store_with_owner_and_project();
    let batch = BatchEventsRequest {
        events: vec![
            event("dev-1", "session_start", "2024-05-02T10:00:00Z"),
            event("dev-1", "session_end", "2024-05-02T10:05:00Z"),
        ],
    };
    let rs = create_batch_events(&mut store, project_id, &batch, 1_714_650_000).unwrap();
    assert_eq!(rs.len(), 2);
    assert_eq!(store.events.len(), 2);
    assert_eq!(store.devices.len(), 1);
}

#[test]
fn events_are_listed_in_timestamp_order_with_filters() {
    let (mut store, _owner, project_id) = store_with_owner_and_project();
    create_event(&mut store, project_id, &event("d", "b", "2024-05-02T12:00:00Z"), 1).unwrap();
    create_event(&mut store, project_id, &event("d", "a", "2024-05-02T10:00:00Z"), 2).unwrap();
    create_event(&mut store, project_id, &event("d", "a", "2024-05-02T11:00:00Z"), 3).unwrap();
    let all = get_events(&store, project_id, &None, None, None, 1, 50).unwrap();
    assert_eq!(all.len(), 3);
    assert_eq!(all[0].event_type, "a");
    assert!(all[0].timestamp <= all[1].timestamp && all[1].timestamp <= all[2].timestamp);
    let only_a = get_events(&store, project_id, &Some("a".to_string()), None, None, 1, 50).unwrap();
    assert_eq!(only_a.len(), 2);
    let page2 = get_events(&store, project_id, &None, None, None, 2, 2).unwrap();
    assert_eq!(page2.len(), 1);
}

#[test]
fn tenant_isolation_reports_not_found() {
    let (mut store, _owner, project_id) = store_with_owner_and_project();
    let outsider = create_user(
        &mut store,
        &CreateUserRequest {
            email: "other@example.com".to_string(),
            name: "Other".to_string(),
            password: "pw-pw-pw-pw".to_string(),
            role: None,
        },
        0,
    )
    .unwrap();
    let outsider_id: u64 = outsider.id.parse().unwrap();
    let resp = create_event(
        &mut store,
        project_id,
        &event("dev-1", "session_start", "2024-05-02T10:00:00Z"),
        5,
    )
    .unwrap();
    // A user with no membership on the project gets "not found", never
    // "forbidden", for an event of that project.
    match get_event_by_id(&store, &resp.id, outsider_id) {
        Err(AppError::NotFoundError(_)) => {}
        _ => panic!("expected not-found for a foreign tenant"),
    }
}

#[test]
fn metric_sum_is_order_insensitive() {
    let (mut store1, _o1, p1) = store_with_owner_and_project();
    let (mut store2, _o2, p2) = store_with_owner_and_project();
    let ty = "sessions".to_string();
    let period = "day".to_string();
    for d in [5i64, -2, 9] {
        record_metric(&mut store1, p1, &ty, &period, 86400, &None, d, CombinePolicy::Sum).unwrap();
    }
    for d in [9i64, 5, -2] {
        record_metric(&mut store2, p2, &ty, &period, 86400, &None, d, CombinePolicy::Sum).unwrap();
    }
    assert_eq!(store1.metrics.len(), 1);
    assert_eq!(store2.metrics.len(), 1);
    assert_eq!(store1.metrics[0].value, 12);
    assert_eq!(store2.metrics[0].value, 12);
}

#[test]
fn metric_replace_keeps_last_value() {
    let (mut store, _owner, project_id) = store_with_owner_and_project();
    let ty = "fps".to_string();
    let period = "hour".to_string();
    record_metric(&mut store, project_id, &ty, &period, 0, &None, 60, CombinePolicy::Replace)
        .unwrap();
    let v = record_metric(
        &mut store,
        project_id,
        &ty,
        &period,
        0,
        &None,
        58,
        CombinePolicy::Replace,
    )
    .unwrap();
    assert_eq!(v, 58);
    assert_eq!(store.metrics.len(), 1);
}

#[test]
fn timeseries_fills_gaps_with_zero() {
    let (mut store, _owner, project_id) = store_with_owner_and_project();
    let ty = "sessions".to_string();
    let period = "day".to_string();
    // Three days starting at the epoch day 0; data only on day 2.
    record_metric(&mut store, project_id, &ty, &period, 86400, &None, 7, CombinePolicy::Sum)
        .unwrap();
    let vals = query_timeseries(&store, project_id, &ty, &None, 0, 3 * 86400 - 1, Interval::Day)
        .unwrap();
    assert_eq!(vals.len(), 3);
    assert_eq!(vals[0], (0, 0));
    assert_eq!(vals[1], (86400, 7));
    assert_eq!(vals[2], (2 * 86400, 0));
}

#[test]
fn month_buckets_follow_the_calendar() {
    // 2024-02-10 12:00:00 UTC falls in a leap February.
    let ts = 1_707_566_400i64;
    let (start, next) = bucket_bounds(Interval::Month, ts);
    // 2024-02-01 and 2024-03-01.
    assert_eq!(start, 1_706_745_600);
    assert_eq!(next, 1_706_745_600 + 29 * 86400);
    let (hs, hn) = bucket_bounds(Interval::Hour, ts);
    assert_eq!(hs, ts - ts % 3600);
    assert_eq!(hn, hs + 3600);
}

#[test]
fn authorization_matches_the_role_table() {
    let user = |id: u64| Identity::UserIdentity { user_id: id, global_role: "user".to_string() };
    let owner_id = 1u64;
    let pid = 10u64;
    let cases: Vec<(Option<Role>, Action, bool)> = vec![
        (None, Action::Read, false),
        (Some(Role::Viewer), Action::Read, true),
        (Some(Role::Viewer), Action::Create, false),
        (Some(Role::Member), Action::Create, true),
        (Some(Role::Member), Action::Update, false),
        (Some(Role::Admin), Action::Update, true),
        (Some(Role::Admin), Action::ManageMembers, true),
        (Some(Role::Admin), Action::DeleteProject, false),
        (Some(Role::Owner), Action::DeleteProject, true),
        (Some(Role::Viewer), Action::IngestEvents, false),
        (Some(Role::Owner), Action::IngestEvents, false),
    ];
    for (role, action, allowed) in cases {
        let d = authorize(&user(2), action, pid, owner_id, role);
        assert_eq!(d == Decision::Allow, allowed);
    }
    // The implicit owner passes every management action.
    assert_eq!(authorize(&user(1), Action::DeleteProject, pid, owner_id, None), Decision::Allow);
    // An API key ingests into its own project and nothing else.
    let key = Identity::ProjectKeyIdentity { project_id: pid };
    assert_eq!(authorize(&key, Action::IngestEvents, pid, owner_id, None), Decision::Allow);
    assert_eq!(authorize(&key, Action::IngestEvents, 11, owner_id, None), Decision::DenyForbidden);
    assert_eq!(authorize(&key, Action::Read, pid, owner_id, None), Decision::DenyForbidden);
}

#[test]
fn owner_is_never_demotable_or_removable() {
    let (mut store, owner_id, project_id) = store_with_owner_and_project();
    let owner = Identity::UserIdentity { user_id: owner_id, global_role: "user".to_string() };
    match update_project_user_role(&mut store, &owner, project_id, owner_id, Role::Viewer) {
        Err(AppError::ForbiddenError(_)) => {}
        _ => panic!("expected the owner demotion to be forbidden"),
    }
    match remove_user_from_project(&mut store, &owner, project_id, owner_id) {
        Err(AppError::ForbiddenError(_)) => {}
        _ => panic!("expected the owner removal to be forbidden"),
    }
}

#[test]
fn membership_grants_visibility() {
    let (mut store, owner_id, project_id) = store_with_owner_and_project();
    let viewer = create_user(
        &mut store,
        &CreateUserRequest {
            email: "viewer@example.com".to_string(),
            name: "Viewer".to_string(),
            password: "pw-pw-pw-pw".to_string(),
            role: None,
        },
        0,
    )
    .unwrap();
    let viewer_id: u64 = viewer.id.parse().unwrap();
    let owner = Identity::UserIdentity { user_id: owner_id, global_role: "user".to_string() };
    let viewer_ident = Identity::UserIdentity { user_id: viewer_id, global_role: "user".to_string() };
    // Before membership: the project is invisible.
    match get_project_by_id(&store, &viewer_ident, project_id) {
        Err(AppError::NotFoundError(_)) => {}
        _ => panic!("expected the project to be invisible"),
    }
    add_user_to_project(&mut store, &owner, project_id, viewer_id, Role::Viewer).unwrap();
    let p = get_project_by_id(&store, &viewer_ident, project_id).unwrap();
    assert_eq!(p.name, "game");
    // A viewer may read but not manage members.
    assert!(authorize_project_action(&store, &viewer_ident, Action::Read, project_id).is_ok());
    match authorize_project_action(&store, &viewer_ident, Action::ManageMembers, project_id) {
        Err(AppError::ForbiddenError(_)) => {}
        _ => panic!("expected member management to be forbidden to a viewer"),
    }
}

#[test]
fn login_issues_a_verifiable_token() {
    let (mut store, _owner, _project) = store_with_owner_and_project();
    let secret = "SECRET-REDACTED".to_string();
    let now = 1_700_000_100u64;
    let resp = login(
        &store,
        &"owner@example.com".to_string(),
        &"hunter2hunter2".to_string(),
        &secret,
        24,
        now,
    )
    .unwrap();
    let claims = verify_token(&resp.token, &secret, now + 10).unwrap();
    assert_eq!(claims.role, "user");
    assert!(!claims.is_api_key);
    assert_eq!(claims.sub, resp.user.id);
    match login(
        &store,
        &"owner@example.com".to_string(),
        &"wrong-password".to_string(),
        &secret,
        24,
        now,
    ) {
        Err(AppError::AuthError(_)) => {}
        _ => panic!("expected a wrong password to be rejected"),
    }
}

#[test]
fn api_key_resolves_its_project() {
    let (mut store, _owner, project_id) = store_with_owner_and_project();
    let key = store.projects[0].api_key.clone();
    match resolve_api_key_identity(&store, &Some(key)) {
        Ok(Identity::ProjectKeyIdentity { project_id: p }) => assert_eq!(p, project_id),
        _ => panic!("expected the key to resolve its project"),
    }
    match resolve_api_key_identity(&store, &Some("no-such-key".to_string())) {
        Err(AppError::AuthError(_)) => {}
        _ => panic!("expected an unknown key to be rejected"),
    }
    match resolve_api_key_identity(&store, &None) {
        Err(AppError::AuthError(_)) => {}
        _ => panic!("expected a missing key to be rejected"),
    }
}

#[test]
fn bearer_header_resolves_identities() {
    let secret = "SECRET-REDACTED".to_string();
    let now = 1_700_000_000u64;
    let token = generate_token(42, &"admin".to_string(), &secret, 24, now).unwrap();
    let header = Some(format!("Bearer {}", token));
    match resolve_bearer_identity(&header, &secret, now + 5) {
        Ok(Identity::UserIdentity { user_id, global_role }) => {
            assert_eq!(user_id, 42);
            assert_eq!(global_role, "admin");
        }
        _ => panic!("expected a user identity"),
    }
    let key_token = generate_api_key_token(7, &secret, now).unwrap();
    let key_header = Some(format!("Bearer {}", key_token));
    match resolve_bearer_identity(&key_header, &secret, now + 5) {
        Ok(Identity::ProjectKeyIdentity { project_id }) => assert_eq!(project_id, 7),
        _ => panic!("expected a project-key identity"),
    }
    match resolve_bearer_identity(&Some("Token abc".to_string()), &secret, now) {
        Err(AppError::AuthError(_)) => {}
        _ => panic!("expected a foreign scheme to be rejected"),
    }
    match resolve_bearer_identity(&None, &secret, now) {
        Err(AppError::AuthError(_)) => {}
        _ => panic!("expected a missing header to be rejected"),
    }
}

#[test]
fn project_rename_and_key_rotation() {
    let (mut store, owner_id, project_id) = store_with_owner_and_project();
    let owner = Identity::UserIdentity { user_id: owner_id, global_role: "user".to_string() };
    let old_key = store.projects[0].api_key.clone();
    let renamed = telemetry_core::projects::update_project(
        &mut store,
        &owner,
        project_id,
        &Some("game-two".to_string()),
        1_700_000_500,
    )
    .unwrap();
    assert_eq!(renamed.name, "game-two");
    assert_eq!(renamed.api_key, old_key);
    let new_key =
        telemetry_core::projects::regenerate_api_key(&mut store, &owner, project_id, 1_700_000_600)
            .unwrap();
    assert_ne!(new_key, old_key);
    assert_eq!(store.projects[0].api_key, new_key);
    // The old key stops resolving; the new one resolves the project.
    match resolve_api_key_identity(&store, &Some(old_key)) {
        Err(AppError::AuthError(_)) => {}
        _ => panic!("expected the rotated-out key to stop resolving"),
    }
    match resolve_api_key_identity(&store, &Some(new_key)) {
        Ok(Identity::ProjectKeyIdentity { project_id: p }) => assert_eq!(p, project_id),
        _ => panic!("expected the fresh key to resolve"),
    }
    // A mere viewer may not rename.
    let outsider = Identity::UserIdentity { user_id: owner_id + 77, global_role: "user".to_string() };
    match telemetry_core::projects::update_project(&mut store, &outsider, project_id, &None, 0) {
        Err(AppError::NotFoundError(_)) => {}
        _ => panic!("expected a roleless caller to see nothing"),
    }
}

#[test]
fn user_profile_and_password_updates() {
    let (mut store, owner_id, _project_id) = store_with_owner_and_project();
    let all = telemetry_core::users::get_users(&store).unwrap();
    assert_eq!(all.len(), 1);
    assert_eq!(all[0].email, "owner@example.com");
    let updated = telemetry_core::users::update_user(
        &mut store,
        owner_id,
        &telemetry_core::users::UpdateUserRequest {
            name: Some("Renamed".to_string()),
            email: None,
            role: Some("admin".to_string()),
        },
        1_700_000_700,
    )
    .unwrap();
    assert_eq!(updated.name, "Renamed");
    assert_eq!(store.users[0].role, "admin");
    match telemetry_core::users::change_password(
        &mut store,
        owner_id,
        &telemetry_core::users::ChangePasswordRequest {
            current_password: "wrong-guess".to_string(),
            new_password: "brand-new-pw".to_string(),
        },
        1_700_000_800,
    ) {
        Err(AppError::AuthError(_)) => {}
        _ => panic!("expected a wrong current password to be rejected"),
    }
    telemetry_core::users::change_password(
        &mut store,
        owner_id,
        &telemetry_core::users::ChangePasswordRequest {
            current_password: "hunter2hunter2".to_string(),
            new_password: "brand-new-pw".to_string(),
        },
        1_700_000_800,
    )
    .unwrap();
    let secret = "SECRET-REDACTED".to_string();
    assert!(login(&store, &"owner@example.com".to_string(), &"brand-new-pw".to_string(), &secret, 1, 0).is_ok());
    match login(&store, &"owner@example.com".to_string(), &"hunter2hunter2".to_string(), &secret, 1, 0) {
        Err(AppError::AuthError(_)) => {}
        _ => panic!("expected the old password to stop working"),
    }
}
