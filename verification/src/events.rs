//! The event ingestor: validation, single and batch submission, and the
//! read paths. A submission is validated (non-empty type, parsable
//! timestamp), resolves or creates its device through the registry, and is
//! stored with a server-assigned id and receipt time; the client timestamp
//! is kept as reported. Batch submission is atomic: one invalid item
//! rejects the whole batch and nothing is persisted. Reads are scoped to
//! the caller's projects; an event out of the caller's sight is reported
//! as not found, never as forbidden, so existence does not leak across
//! tenants.

use vstd::prelude::*;

use crate::devices::{upsert_device, spec_opt_view, DeviceAttributes};
use crate::errors::AppError;
use crate::roles::spec_rank;
use crate::shim::{format_rfc3339_seconds, parse_rfc3339_seconds, spec_instant_of, spec_rfc3339_of};
use crate::store::{spec_projects_have, EventRecord, Store};
use crate::strutil::{parse_id, spec_all_digits, spec_digits_val, spec_u64_string, u64_to_string};

verus! {

/// A submitted event, as the boundary hands it over: the structured
/// parameter payload is carried as its canonical text.
pub struct EventData {
    pub event_type: String,
    pub event_name: Option<String>,
    pub parameters: Option<String>,
    pub timestamp: String,
    pub device_id: String,
    pub platform: String,
    pub os_version: Option<String>,
    pub app_version: Option<String>,
    pub ip_address: Option<String>,
}

/// A batch of submitted events.
pub struct BatchEventsRequest {
    pub events: Vec<EventData>,
}

/// The stored projection of an event: ids as opaque decimal strings,
/// instants in RFC 3339 text.
pub struct EventResponse {
    pub id: String,
    pub project_id: String,
    pub device_id: String,
    pub event_type: String,
    pub event_name: Option<String>,
    pub parameters: Option<String>,
    pub timestamp: String,
    pub received_at: String,
}

/// The start of a session, as submitted by an instrumented application.
pub struct SessionStartRequest {
    pub device_id: String,
    pub platform: String,
    pub os_version: Option<String>,
    pub app_version: Option<String>,
    pub ip_address: Option<String>,
}

/// The end of a session with its measured duration.
pub struct SessionEndRequest {
    pub device_id: String,
    pub duration_seconds: u64,
}

/// A first-installation report.
pub struct InstallationRequest {
    pub device_id: String,
    pub platform: String,
    pub os_version: Option<String>,
    pub app_version: Option<String>,
    pub ip_address: Option<String>,
}

/// The filters of an event query, as submitted.
pub struct QueryEventsRequest {
    pub event_type: Option<String>,
    pub event_name: Option<String>,
    pub device_id: Option<String>,
    pub start_date: Option<String>,
    pub end_date: Option<String>,
    pub page: Option<u64>,
    pub page_size: Option<u64>,
}

/// The query string of the event-listing endpoint.
pub struct GetEventsQuery {
    pub project_id: String,
    pub event_type: Option<String>,
    pub start_date: Option<String>,
    pub end_date: Option<String>,
    pub page: Option<u64>,
    pub limit: Option<u64>,
}

/// A page of events with its pagination bookkeeping.
pub struct QueryEventsResponse {
    pub events: Vec<EventResponse>,
    pub total: u64,
    pub page: u64,
    pub page_size: u64,
    pub pages: u64,
}

/// A submission is valid when its type is non-empty and its timestamp is a
/// parsable instant.
pub open spec fn spec_event_valid(e: EventData) -> bool {
    e.event_type@.len() > 0 && spec_instant_of(e.timestamp@) is Some
}

/// Validate a submission.
pub fn validate_event(e: &EventData) -> (r: Result<i64, AppError>)
    ensures
        r matches Ok(ts) ==> spec_event_valid(*e) && spec_instant_of(e.timestamp@) == Some(
            ts as int,
        ),
        r matches Err(err) ==> !spec_event_valid(*e) && err matches AppError::ValidationError(_),
        spec_event_valid(*e) ==> r is Ok,
{
    if e.event_type.as_str().unicode_len() == 0 {
        return Err(AppError::ValidationError(String::from_str("event_type is required")));
    }
    match parse_rfc3339_seconds(e.timestamp.as_str()) {
        Some(ts) => Ok(ts),
        None => Err(AppError::ValidationError(String::from_str("timestamp is not a valid instant"))),
    }
}

/// The instant a valid submission reports.
pub open spec fn spec_event_instant(e: EventData) -> int {
    spec_instant_of(e.timestamp@)->Some_0
}

/// What a stored event record holds of a submission: the fields as
/// submitted, the client instant as reported, and the receipt time.
pub open spec fn spec_record_of(rec: EventRecord, pid: u64, data: EventData, now: i64) -> bool {
    &&& rec.project_id == pid
    &&& rec.event_type@ == data.event_type@
    &&& spec_opt_view(rec.event_name) == spec_opt_view(data.event_name)
    &&& spec_opt_view(rec.parameters) == spec_opt_view(data.parameters)
    &&& spec_instant_of(data.timestamp@) == Some(rec.timestamp as int)
    &&& rec.received_at == now
}

/// Whether the table holds a record of this submission whose projection
/// the response reports.
pub open spec fn spec_item_stored(
    events: Seq<EventRecord>,
    pid: u64,
    data: EventData,
    now: i64,
    resp: EventResponse,
) -> bool {
    exists|k: int|
        {
            &&& 0 <= k < events.len()
            &&& spec_record_of(#[trigger] events[k], pid, data, now)
            &&& spec_response_of(resp, events[k])
        }
}

/// What a response reports of a stored record.
pub open spec fn spec_response_of(r: EventResponse, rec: EventRecord) -> bool {
    &&& r.id@ == spec_u64_string(rec.id as int)
    &&& r.project_id@ == spec_u64_string(rec.project_id as int)
    &&& r.device_id@ == spec_u64_string(rec.device_id as int)
    &&& r.event_type@ == rec.event_type@
    &&& spec_opt_view(r.event_name) == spec_opt_view(rec.event_name)
    &&& spec_opt_view(r.parameters) == spec_opt_view(rec.parameters)
    &&& r.timestamp@ == spec_rfc3339_of(rec.timestamp as int)
    &&& r.received_at@ == spec_rfc3339_of(rec.received_at as int)
}

/// Copy an optional text field.
fn clone_opt(o: &Option<String>) -> (r: Option<String>)
    ensures
        spec_opt_view(r) == spec_opt_view(*o),
{
    match o {
        Some(s) => Some(s.clone()),
        None => None,
    }
}

/// The stored projection of a record. Fails only when an instant falls out
/// of the renderer's range; succeeds on every in-range record.
pub fn event_response_of(rec: &EventRecord) -> (r: Result<EventResponse, AppError>)
    ensures
        r matches Ok(resp) ==> spec_response_of(resp, *rec),
        r matches Err(e) ==> e matches AppError::InternalServerError(_),
        crate::timebucket::spec_ts_in_range(rec.timestamp as int)
            && crate::timebucket::spec_ts_in_range(rec.received_at as int) ==> r is Ok,
{
    let timestamp = match format_rfc3339_seconds(rec.timestamp) {
        Some(t) => t,
        None => {
            return Err(AppError::InternalServerError(String::from_str("instant out of range")));
        },
    };
    let received_at = match format_rfc3339_seconds(rec.received_at) {
        Some(t) => t,
        None => {
            return Err(AppError::InternalServerError(String::from_str("instant out of range")));
        },
    };
    Ok(
        EventResponse {
            id: u64_to_string(rec.id),
            project_id: u64_to_string(rec.project_id),
            device_id: u64_to_string(rec.device_id),
            event_type: rec.event_type.clone(),
            event_name: clone_opt(&rec.event_name),
            parameters: clone_opt(&rec.parameters),
            timestamp,
            received_at,
        },
    )
}

/// Where a new event with this client timestamp goes to keep the table
/// ordered: right after every stored event at or before it.
fn insert_position(events: &Vec<EventRecord>, ts: i64) -> (k: usize)
    requires
        forall|i: int, j: int|
            0 <= i < j < events@.len() ==> (#[trigger] events@[i]).timestamp <= (
            #[trigger] events@[j]).timestamp,
    ensures
        k <= events@.len(),
        forall|j: int| 0 <= j < k ==> (#[trigger] events@[j]).timestamp <= ts,
        forall|j: int| k <= j < events@.len() ==> (#[trigger] events@[j]).timestamp > ts,
{
    let mut i: usize = 0;
    while i < events.len()
        invariant
            i <= events@.len(),
            forall|j: int| 0 <= j < i ==> (#[trigger] events@[j]).timestamp <= ts,
            forall|a: int, b: int|
                0 <= a < b < events@.len() ==> (#[trigger] events@[a]).timestamp <= (
                #[trigger] events@[b]).timestamp,
        decreases events@.len() - i,
    {
        if events[i].timestamp > ts {
            return i;
        }
        i += 1;
    }
    i
}

/// Create one event: validate it, resolve or create its device, and store
/// it with a fresh id and `received_at = now`. The client timestamp is
/// stored as reported; skew against `now` is allowed. On any error the
/// store is unchanged: a missing project is not found, an invalid payload
/// is a validation error, and only an instant out of the renderer's range
/// or an exhausted id space is internal.
pub fn create_event(store: &mut Store, project_id: u64, data: &EventData, now: i64) -> (r: Result<
    EventResponse,
    AppError,
>)
    requires
        old(store).wf(),
    ensures
        final(store).wf(),
        final(store).users == old(store).users,
        final(store).projects == old(store).projects,
        final(store).memberships == old(store).memberships,
        final(store).metrics == old(store).metrics,
        final(store).next_id >= old(store).next_id,
        final(store).next_id <= old(store).next_id + 2,
        r matches Ok(resp) ==> {
            &&& spec_event_valid(*data)
            &&& crate::devices::spec_upsert_step(
                old(store).devices@,
                final(store).devices@,
                project_id,
                data.device_id@,
                now,
            )
            &&& exists|k: int|
                {
                    &&& 0 <= k <= old(store).events@.len()
                    &&& final(store).events@.len() == old(store).events@.len() + 1
                    &&& (forall|j: int|
                        0 <= j < k ==> final(store).events@[j] == old(store).events@[j])
                    &&& (forall|j: int|
                        k < j < final(store).events@.len() ==> final(store).events@[j]
                            == old(store).events@[j - 1])
                    &&& spec_record_of(#[trigger] final(store).events@[k], project_id, *data, now)
                    &&& spec_response_of(resp, final(store).events@[k])
                    &&& exists|d: int|
                        {
                            &&& 0 <= d < final(store).devices@.len()
                            &&& (#[trigger] final(store).devices@[d]).id
                                == final(store).events@[k].device_id
                            &&& crate::devices::spec_key_match(
                                final(store).devices@[d],
                                project_id,
                                data.device_id@,
                            )
                            &&& final(store).devices@[d].platform@ == data.platform@
                            &&& spec_opt_view(final(store).devices@[d].os_version) == spec_opt_view(
                                data.os_version,
                            )
                            &&& spec_opt_view(final(store).devices@[d].app_version)
                                == spec_opt_view(data.app_version)
                            &&& spec_opt_view(final(store).devices@[d].ip_address) == spec_opt_view(
                                data.ip_address,
                            )
                            &&& spec_opt_view(final(store).devices@[d].country)
                                == crate::devices::spec_derived_country(
                                spec_opt_view(data.ip_address),
                            )
                            &&& final(store).devices@[d].last_seen == now
                        }
                }
        },
        r matches Err(e) ==> {
            &&& *final(store) == *old(store)
            &&& (e matches AppError::NotFoundError(_) || e matches AppError::ValidationError(_)
                || e matches AppError::InternalServerError(_))
            &&& (e matches AppError::NotFoundError(_) ==> !old(store).spec_has_project(project_id))
            &&& (e matches AppError::ValidationError(_) ==> !spec_event_valid(*data))
        },
        !old(store).spec_has_project(project_id) ==> (r matches Err(e) && e
            matches AppError::NotFoundError(_)),
        old(store).spec_has_project(project_id) && !spec_event_valid(*data) ==> (r matches Err(e)
            && e matches AppError::ValidationError(_)),
        old(store).spec_has_project(project_id) && spec_event_valid(*data)
            && crate::timebucket::spec_ts_in_range(spec_event_instant(*data))
            && crate::timebucket::spec_ts_in_range(now as int) && old(store).next_id < u64::MAX - 1
            ==> r is Ok,
{
    match store.find_project(project_id) {
        Some(_) => {},
        None => {
            return Err(AppError::NotFoundError(String::from_str("Project not found")));
        },
    }
    proof {
        assert(store.spec_has_project(project_id));
    }
    let ts = match validate_event(data) {
        Ok(ts) => ts,
        Err(e) => {
            return Err(e);
        },
    };
    // Render both instants before touching the store, so that a failure
    // leaves no partial write behind.
    let ts_text = match format_rfc3339_seconds(ts) {
        Some(t) => t,
        None => {
            return Err(AppError::InternalServerError(String::from_str("instant out of range")));
        },
    };
    let now_text = match format_rfc3339_seconds(now) {
        Some(t) => t,
        None => {
            return Err(AppError::InternalServerError(String::from_str("instant out of range")));
        },
    };
    if store.next_id >= u64::MAX - 1 {
        return Err(AppError::InternalServerError(String::from_str("id space exhausted")));
    }
    let ghost pre = *store;
    let attrs = DeviceAttributes {
        platform: data.platform.clone(),
        os_version: clone_opt(&data.os_version),
        app_version: clone_opt(&data.app_version),
        ip_address: clone_opt(&data.ip_address),
    };
    let device = match upsert_device(store, project_id, &data.device_id, &attrs, now) {
        Ok(d) => d,
        Err(e) => {
            proof {
                assert(false);
            }
            return Err(AppError::InternalServerError(String::from_str("id space exhausted")));
        },
    };
    let id = match store.fresh_id() {
        Some(id) => id,
        None => {
            proof {
                assert(false);
            }
            return Err(AppError::InternalServerError(String::from_str("id space exhausted")));
        },
    };
    let rec = EventRecord {
        id,
        project_id,
        device_id: device,
        event_type: data.event_type.clone(),
        event_name: clone_opt(&data.event_name),
        parameters: clone_opt(&data.parameters),
        timestamp: ts,
        received_at: now,
    };
    let k = insert_position(&store.events, ts);
    let ghost before_events = store.events@;
    store.events.insert(k, rec);
    let resp = EventResponse {
        id: u64_to_string(id),
        project_id: u64_to_string(project_id),
        device_id: u64_to_string(device),
        event_type: data.event_type.clone(),
        event_name: clone_opt(&data.event_name),
        parameters: clone_opt(&data.parameters),
        timestamp: ts_text,
        received_at: now_text,
    };
    proof {
        let evs = store.events@;
        assert(evs == before_events.insert(k as int, rec));
        assert(evs[k as int] == rec);
        assert(forall|j: int| 0 <= j < k ==> evs[j] == #[trigger] before_events[j]);
        assert(forall|j: int|
            k < j < evs.len() ==> evs[j] == #[trigger] before_events[j - 1]);
        assert(before_events == pre.events@);
        assert(spec_record_of(rec, project_id, *data, now));
        assert(spec_response_of(resp, rec));
        assert(store.wf()) by {
            assert(crate::store::spec_events_ok(evs, store.projects@, store.next_id)) by {
                assert(spec_projects_have(store.projects@, project_id));
                assert(forall|i: int|
                    0 <= i < before_events.len() ==> (#[trigger] before_events[i]).id
                        < pre.next_id);
                assert(rec.id < store.next_id);
                assert(forall|a: int, b: int|
                    0 <= a < b < evs.len() ==> (#[trigger] evs[a]).id != (#[trigger] evs[b]).id);
                assert(forall|a: int, b: int|
                    0 <= a < b < evs.len() ==> (#[trigger] evs[a]).timestamp <= (
                    #[trigger] evs[b]).timestamp);
            }
        }
    }
    Ok(resp)
}

/// Create a batch of events atomically at the validation stage: every item
/// is validated first, and one invalid item rejects the whole batch with
/// nothing persisted. Valid items are then stored one by one in order.
pub fn create_batch_events(
    store: &mut Store,
    project_id: u64,
    batch: &BatchEventsRequest,
    now: i64,
) -> (r: Result<Vec<EventResponse>, AppError>)
    requires
        old(store).wf(),
    ensures
        final(store).wf(),
        final(store).users == old(store).users,
        final(store).projects == old(store).projects,
        final(store).memberships == old(store).memberships,
        final(store).metrics == old(store).metrics,
        r matches Err(e) ==> {
            &&& (e matches AppError::ValidationError(_) ==> *final(store) == *old(store) && exists|
                i: int,
            | 0 <= i < batch.events@.len() && !spec_event_valid(#[trigger] batch.events@[i]))
            &&& (e matches AppError::NotFoundError(_) ==> *final(store) == *old(store) && !old(
                store,
            ).spec_has_project(project_id))
            &&& (e matches AppError::NotFoundError(_) || e matches AppError::ValidationError(_)
                || e matches AppError::InternalServerError(_))
        },
        r matches Ok(rs) ==> {
            &&& rs@.len() == batch.events@.len()
            &&& final(store).events@.len() == old(store).events@.len() + batch.events@.len()
            &&& forall|i: int|
                0 <= i < batch.events@.len() ==> spec_event_valid(#[trigger] batch.events@[i])
            &&& forall|i: int|
                0 <= i < rs@.len() ==> spec_item_stored(
                    final(store).events@,
                    project_id,
                    #[trigger] batch.events@[i],
                    now,
                    rs@[i],
                )
        },
        !old(store).spec_has_project(project_id) ==> (r matches Err(e) && e
            matches AppError::NotFoundError(_)),
        old(store).spec_has_project(project_id) && (exists|i: int|
            0 <= i < batch.events@.len() && !spec_event_valid(#[trigger] batch.events@[i])) ==> ((
        r matches Err(e) && e matches AppError::ValidationError(_)) && *final(store) == *old(
            store,
        )),
        old(store).spec_has_project(project_id) && (forall|i: int|
            0 <= i < batch.events@.len() ==> spec_event_valid(#[trigger] batch.events@[i])
                && crate::timebucket::spec_ts_in_range(spec_event_instant(batch.events@[i])))
            && crate::timebucket::spec_ts_in_range(now as int) && old(store).next_id as int + 2
            * batch.events@.len() < u64::MAX - 1 ==> r is Ok,
{
    match store.find_project(project_id) {
        Some(_) => {},
        None => {
            return Err(AppError::NotFoundError(String::from_str("Project not found")));
        },
    }
    if !batch_all_valid(batch) {
        return Err(
            AppError::ValidationError(
                String::from_str("batch rejected: an item failed validation"),
            ),
        );
    }
    let ghost can_finish = store.spec_has_project(project_id) && (forall|j: int|
        0 <= j < batch.events@.len() ==> spec_event_valid(#[trigger] batch.events@[j])
            && crate::timebucket::spec_ts_in_range(spec_event_instant(batch.events@[j])))
        && crate::timebucket::spec_ts_in_range(now as int) && store.next_id as int + 2
        * batch.events@.len() < u64::MAX - 1;
    let mut out: Vec<EventResponse> = Vec::new();
    let mut i: usize = 0;
    while i < batch.events.len()
        invariant
            old(store).wf(),
            store.wf(),
            i <= batch.events@.len(),
            out@.len() == i,
            store.users == old(store).users,
            store.projects == old(store).projects,
            store.memberships == old(store).memberships,
            store.metrics == old(store).metrics,
            store.events@.len() == old(store).events@.len() + i,
            store.next_id as int <= old(store).next_id as int + 2 * i,
            store.spec_has_project(project_id),
            can_finish == (old(store).spec_has_project(project_id) && (forall|j: int|
                0 <= j < batch.events@.len() ==> spec_event_valid(#[trigger] batch.events@[j])
                    && crate::timebucket::spec_ts_in_range(spec_event_instant(batch.events@[j])))
                && crate::timebucket::spec_ts_in_range(now as int) && old(store).next_id as int + 2
                * batch.events@.len() < u64::MAX - 1),
            forall|j: int| 0 <= j < batch.events@.len() ==> spec_event_valid(
                #[trigger] batch.events@[j],
            ),
            forall|j: int|
                0 <= j < i ==> spec_item_stored(
                    store.events@,
                    project_id,
                    #[trigger] batch.events@[j],
                    now,
                    out@[j],
                ),
        decreases batch.events@.len() - i,
    {
        let ghost pre_events = store.events@;
        let ghost pre_out = out@;
        match create_event(store, project_id, &batch.events[i], now) {
            Ok(resp) => {
                out.push(resp);
                proof {
                    // Earlier items keep a stored witness: the insert shifts
                    // indices by at most one and changes no record.
                    let kins = choose|k: int|
                        {
                            &&& 0 <= k <= pre_events.len()
                            &&& store.events@.len() == pre_events.len() + 1
                            &&& (forall|j: int|
                                0 <= j < k ==> store.events@[j] == pre_events[j])
                            &&& (forall|j: int|
                                k < j < store.events@.len() ==> store.events@[j] == pre_events[j
                                    - 1])
                            &&& spec_record_of(
                                #[trigger] store.events@[k],
                                project_id,
                                batch.events@[i as int],
                                now,
                            )
                            &&& spec_response_of(resp, store.events@[k])
                        };
                    assert forall|j: int| 0 <= j < i + 1 implies spec_item_stored(
                        store.events@,
                        project_id,
                        #[trigger] batch.events@[j],
                        now,
                        out@[j],
                    ) by {
                        if j < i {
                            let k0 = choose|k: int|
                                {
                                    &&& 0 <= k < pre_events.len()
                                    &&& spec_record_of(
                                        #[trigger] pre_events[k],
                                        project_id,
                                        batch.events@[j],
                                        now,
                                    )
                                    &&& spec_response_of(pre_out[j], pre_events[k])
                                };
                            if k0 < kins {
                                assert(store.events@[k0] == pre_events[k0]);
                                assert(spec_record_of(
                                    store.events@[k0],
                                    project_id,
                                    batch.events@[j],
                                    now,
                                ));
                            } else {
                                assert(store.events@[k0 + 1] == pre_events[k0]);
                                assert(spec_record_of(
                                    store.events@[k0 + 1],
                                    project_id,
                                    batch.events@[j],
                                    now,
                                ));
                            }
                        } else {
                            assert(spec_record_of(
                                store.events@[kins],
                                project_id,
                                batch.events@[j],
                                now,
                            ));
                        }
                    }
                }
            },
            Err(e) => {
                // The item was validated and the project exists, so only an
                // internal failure remains; it surfaces as such. When every
                // instant is in range and the id space has headroom, the
                // write cannot fail, so a finishable batch never lands here.
                proof {
                    if can_finish {
                        assert(store.next_id < u64::MAX - 1);
                        assert(false);
                    }
                }
                return Err(AppError::InternalServerError(String::from_str("batch write failed")));
            },
        }
        i += 1;
    }
    Ok(out)
}

/// Whether every item of a batch passes validation.
fn batch_all_valid(batch: &BatchEventsRequest) -> (r: bool)
    ensures
        r == forall|j: int| 0 <= j < batch.events@.len() ==> spec_event_valid(
            #[trigger] batch.events@[j],
        ),
{
    let mut i: usize = 0;
    while i < batch.events.len()
        invariant
            i <= batch.events@.len(),
            forall|j: int| 0 <= j < i ==> spec_event_valid(#[trigger] batch.events@[j]),
        decreases batch.events@.len() - i,
    {
        match validate_event(&batch.events[i]) {
            Ok(_) => {},
            Err(_) => {
                return false;
            },
        }
        i += 1;
    }
    true
}

/// Whether an event passes the read filters.
pub open spec fn spec_event_matches(
    e: EventRecord,
    pid: u64,
    ty: Option<Seq<char>>,
    start: Option<i64>,
    end: Option<i64>,
) -> bool {
    &&& e.project_id == pid
    &&& match ty {
        Option::Some(t) => e.event_type@ == t,
        Option::None => true,
    }
    &&& match start {
        Option::Some(s) => e.timestamp >= s,
        Option::None => true,
    }
    &&& match end {
        Option::Some(s) => e.timestamp <= s,
        Option::None => true,
    }
}

/// The events of a project that pass the filters, in stored (timestamp)
/// order.
pub open spec fn spec_filtered_events(
    events: Seq<EventRecord>,
    pid: u64,
    ty: Option<Seq<char>>,
    start: Option<i64>,
    end: Option<i64>,
) -> Seq<EventRecord>
    decreases events.len(),
{
    if events.len() == 0 {
        Seq::empty()
    } else {
        let rest = spec_filtered_events(events.drop_last(), pid, ty, start, end);
        if spec_event_matches(events.last(), pid, ty, start, end) {
            rest.push(events.last())
        } else {
            rest
        }
    }
}

/// List a project's events: filtered by type and client-timestamp range,
/// ordered by timestamp, and paginated. The page is sliced out of the
/// filtered sequence: `limit` entries starting at `(page - 1) * limit`.
pub fn get_events(
    store: &Store,
    project_id: u64,
    event_type: &Option<String>,
    start: Option<i64>,
    end: Option<i64>,
    page: u64,
    limit: u64,
) -> (r: Result<Vec<EventResponse>, AppError>)
    requires
        store.wf(),
        page >= 1,
        limit >= 1,
    ensures
        r matches Ok(rs) ==> {
            let filtered = spec_filtered_events(
                store.events@,
                project_id,
                spec_opt_view(*event_type),
                start,
                end,
            );
            let off = (page - 1) as int * limit as int;
            &&& rs@.len() == (if off + limit <= filtered.len() {
                limit as int
            } else if off <= filtered.len() {
                filtered.len() - off
            } else {
                0int
            })
            &&& forall|i: int|
                0 <= i < rs@.len() ==> spec_response_of(#[trigger] rs@[i], filtered[off + i])
        },
        r matches Err(e) ==> (e matches AppError::NotFoundError(_) ==> !store.spec_has_project(
            project_id,
        )) && (e matches AppError::NotFoundError(_) || e matches AppError::InternalServerError(_)),
        !store.spec_has_project(project_id) ==> (r matches Err(e) && e
            matches AppError::NotFoundError(_)),
        store.spec_has_project(project_id) && (forall|i: int|
            0 <= i < store.events@.len() ==> crate::timebucket::spec_ts_in_range(
                (#[trigger] store.events@[i]).timestamp as int,
            ) && crate::timebucket::spec_ts_in_range(store.events@[i].received_at as int)) ==> r
            is Ok,
{
    match store.find_project(project_id) {
        Some(_) => {},
        None => {
            return Err(AppError::NotFoundError(String::from_str("Project not found")));
        },
    }
    proof {
        assert(store.spec_has_project(project_id));
    }
    let ghost ty = spec_opt_view(*event_type);
    let mut matched: Vec<usize> = Vec::new();
    let mut i: usize = 0;
    proof {
        assert(store.events@.take(0) =~= Seq::<EventRecord>::empty());
    }
    while i < store.events.len()
        invariant
            store.spec_has_project(project_id),
            i <= store.events@.len(),
            ty == spec_opt_view(*event_type),
            forall|j: int| 0 <= j < matched@.len() ==> (#[trigger] matched@[j]) < i,
            matched@.len() <= i,
            spec_filtered_events(store.events@.take(i as int), project_id, ty, start, end)
                =~= matched@.map_values(|x: usize| store.events@[x as int]),
        decreases store.events@.len() - i,
    {
        let e = &store.events[i];
        let ty_ok: bool = match event_type {
            Some(t) => crate::strutil::str_eq(e.event_type.as_str(), t.as_str()),
            None => true,
        };
        let start_ok: bool = match start {
            Some(s) => e.timestamp >= s,
            None => true,
        };
        let end_ok: bool = match end {
            Some(s) => e.timestamp <= s,
            None => true,
        };
        let ghost prev = matched@;
        if e.project_id == project_id && ty_ok && start_ok && end_ok {
            matched.push(i);
        }
        proof {
            let cur = store.events@[i as int];
            assert(store.events@.take(i + 1).drop_last() =~= store.events@.take(i as int));
            assert(store.events@.take(i + 1).last() == cur);
            if spec_event_matches(cur, project_id, ty, start, end) {
                assert(matched@ =~= prev.push(i));
                assert(matched@.map_values(|x: usize| store.events@[x as int]) =~= prev.map_values(
                    |x: usize| store.events@[x as int],
                ).push(cur));
            }
        }
        i += 1;
    }
    proof {
        assert(store.events@.take(store.events@.len() as int) =~= store.events@);
    }
    // Slice the requested page out of the filtered list.
    proof {
        assert((page as int - 1) * (limit as int) < 0x100000000000000000000000000000000int)
            by (nonlinear_arith)
            requires
                1 <= page as int <= 0xffffffffffffffffint,
                1 <= limit as int <= 0xffffffffffffffffint,
        ;
    }
    let off128: u128 = (page as u128 - 1) * (limit as u128);
    let total = matched.len();
    let mut out: Vec<EventResponse> = Vec::new();
    if off128 >= total as u128 {
        proof {
            assert(out@.len() == 0);
        }
        return Ok(out);
    }
    let off: usize = off128 as usize;
    let mut j: usize = off;
    while j < total && ((j - off) as u64) < limit
        invariant
            store.spec_has_project(project_id),
            off <= j <= total,
            total == matched@.len(),
            j - off <= limit,
            out@.len() == j - off,
            forall|x: int| 0 <= x < matched@.len() ==> (#[trigger] matched@[x]) < store.events@.len(),
            spec_filtered_events(store.events@, project_id, spec_opt_view(*event_type), start, end)
                =~= matched@.map_values(|x: usize| store.events@[x as int]),
            forall|x: int|
                0 <= x < out@.len() ==> spec_response_of(
                    #[trigger] out@[x],
                    store.events@[matched@[off + x] as int],
                ),
        decreases total - j,
    {
        let rec_ix = matched[j];
        match event_response_of(&store.events[rec_ix]) {
            Ok(resp) => {
                out.push(resp);
            },
            Err(e) => {
                return Err(e);
            },
        }
        j += 1;
    }
    proof {
        let filtered = spec_filtered_events(
            store.events@,
            project_id,
            spec_opt_view(*event_type),
            start,
            end,
        );
        assert(filtered =~= matched@.map_values(|x: usize| store.events@[x as int]));
        assert(filtered.len() == matched@.len());
        assert(forall|x: int|
            0 <= x < out@.len() ==> #[trigger] filtered[off + x] == store.events@[matched@[off
                + x] as int]);
    }
    Ok(out)
}

/// Fetch one event by id, scoped to the caller. The event is visible only
/// when the caller holds any effective role on its project; otherwise - and
/// when it does not exist at all, or the id does not parse - the answer is
/// `NotFoundError`, never `ForbiddenError`, so existence does not leak
/// across tenant boundaries.
pub fn get_event_by_id(store: &Store, id: &String, user_id: u64) -> (r: Result<
    EventResponse,
    AppError,
>)
    requires
        store.wf(),
    ensures
        r matches Ok(resp) ==> exists|i: int|
            {
                &&& 0 <= i < store.events@.len()
                &&& (#[trigger] store.events@[i]).id as int == spec_digits_val(id@)
                &&& spec_response_of(resp, store.events@[i])
            },
        r matches Err(e) ==> (e matches AppError::NotFoundError(_) || e
            matches AppError::InternalServerError(_)),
        forall|i: int, j: int|
            0 <= i < store.events@.len() && (#[trigger] store.events@[i]).id as int
                == spec_digits_val(id@) && spec_all_digits(id@) && id@.len() > 0 && 0 <= j
                < store.projects@.len() && (#[trigger] store.projects@[j]).id
                == store.events@[i].project_id && spec_rank(
                crate::roles::spec_effective_role(
                    user_id,
                    store.projects@[j].owner_id,
                    store.spec_membership_role(store.events@[i].project_id, user_id),
                ),
            ) == 0 ==> (r matches Err(e) && e matches AppError::NotFoundError(_)),
        forall|i: int, j: int|
            0 <= i < store.events@.len() && (#[trigger] store.events@[i]).id as int
                == spec_digits_val(id@) && spec_all_digits(id@) && id@.len() > 0 && spec_digits_val(
                id@,
            ) <= u64::MAX as int && 0 <= j < store.projects@.len() && (
            #[trigger] store.projects@[j]).id == store.events@[i].project_id && spec_rank(
                crate::roles::spec_effective_role(
                    user_id,
                    store.projects@[j].owner_id,
                    store.spec_membership_role(store.events@[i].project_id, user_id),
                ),
            ) >= 1 && crate::timebucket::spec_ts_in_range(store.events@[i].timestamp as int)
                && crate::timebucket::spec_ts_in_range(store.events@[i].received_at as int) ==> r
                is Ok,
{
    let eid = match parse_id(id) {
        Some(v) => v,
        None => {
            return Err(AppError::NotFoundError(String::from_str("Event not found")));
        },
    };
    let ix = match store.find_event(eid) {
        Some(ix) => ix,
        None => {
            return Err(AppError::NotFoundError(String::from_str("Event not found")));
        },
    };
    let pid = store.events[ix].project_id;
    let pix = match store.find_project(pid) {
        Some(p) => p,
        None => {
            return Err(AppError::NotFoundError(String::from_str("Event not found")));
        },
    };
    let owner_id = store.projects[pix].owner_id;
    let membership = store.membership_role(pid, user_id);
    let role = crate::roles::effective_role(user_id, owner_id, membership);
    let visible: bool = match role {
        Some(_) => true,
        None => false,
    };
    if !visible {
        // The event exists, but the caller holds no role on its project:
        // report it as absent rather than forbidden.
        return Err(AppError::NotFoundError(String::from_str("Event not found")));
    }
    proof {
        assert(forall|i: int, j: int|
            0 <= i < j < store.events@.len() ==> (#[trigger] store.events@[i]).id != (
            #[trigger] store.events@[j]).id);
        assert(forall|i: int, j: int|
            0 <= i < j < store.projects@.len() ==> (#[trigger] store.projects@[i]).id != (
            #[trigger] store.projects@[j]).id);
    }
    event_response_of(&store.events[ix])
}

} // verus!
