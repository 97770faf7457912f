//! The device registry: devices are upserted under their natural key
//! (project, client-supplied device id). A first ingest creates the row
//! with `first_seen = last_seen = now`; later ingests refresh the mutable
//! attributes and bump `last_seen`, never `first_seen`. The well-formedness
//! invariant keeps the natural key unique, so repeated ingests of one key
//! always land on one row; the series law below states what a whole run of
//! ingests leaves behind.

use vstd::prelude::*;

use crate::errors::AppError;
use crate::geo::{ip_to_country, spec_country_of};
use crate::store::{DeviceRecord, Store};

verus! {

/// The client-reported device attributes carried by an event.
pub struct DeviceAttributes {
    pub platform: String,
    pub os_version: Option<String>,
    pub app_version: Option<String>,
    pub ip_address: Option<String>,
}

/// View of an optional text field.
pub open spec fn spec_opt_view(o: Option<String>) -> Option<Seq<char>> {
    match o {
        Option::Some(s) => Option::Some(s@),
        Option::None => Option::None,
    }
}

/// The country derived from an optional client address.
pub open spec fn spec_derived_country(ip: Option<Seq<char>>) -> Option<Seq<char>> {
    match ip {
        Option::Some(s) => spec_country_of(s),
        Option::None => Option::None,
    }
}

/// Whether a row matches the natural key.
pub open spec fn spec_key_match(d: DeviceRecord, pid: u64, key: Seq<char>) -> bool {
    d.project_id == pid && d.device_id@ == key
}

/// How many rows match the natural key.
pub open spec fn spec_key_count(devs: Seq<DeviceRecord>, pid: u64, key: Seq<char>) -> int
    decreases devs.len(),
{
    if devs.len() == 0 {
        0
    } else {
        spec_key_count(devs.drop_last(), pid, key) + if spec_key_match(devs.last(), pid, key) {
            1int
        } else {
            0int
        }
    }
}

/// What one upsert does to the device table, as far as the natural key is
/// concerned: a missing key appends a fresh row seen first and last `now`;
/// a present key refreshes exactly the matching row, keeping `first_seen`
/// and setting `last_seen` to `now`.
pub open spec fn spec_upsert_step(
    before: Seq<DeviceRecord>,
    after: Seq<DeviceRecord>,
    pid: u64,
    key: Seq<char>,
    now: i64,
) -> bool {
    if spec_key_count(before, pid, key) == 0 {
        &&& after.len() == before.len() + 1
        &&& after.subrange(0, before.len() as int) == before
        &&& spec_key_match(after.last(), pid, key)
        &&& after.last().first_seen == now
        &&& after.last().last_seen == now
    } else {
        exists|i: int|
            {
                &&& 0 <= i < before.len()
                &&& spec_key_match(#[trigger] before[i], pid, key)
                &&& after.len() == before.len()
                &&& (forall|j: int| 0 <= j < before.len() && j != i ==> after[j] == before[j])
                &&& spec_key_match(after[i], pid, key)
                &&& after[i].first_seen == before[i].first_seen
                &&& after[i].last_seen == now
            }
    }
}

/// Replacing a row changes the count by the difference of the two matches.
proof fn lemma_count_update(
    devs: Seq<DeviceRecord>,
    i: int,
    d: DeviceRecord,
    pid: u64,
    key: Seq<char>,
)
    requires
        0 <= i < devs.len(),
    ensures
        spec_key_count(devs.update(i, d), pid, key) == spec_key_count(devs, pid, key) + (
        if spec_key_match(d, pid, key) {
            1int
        } else {
            0int
        }) - (if spec_key_match(devs[i], pid, key) {
            1int
        } else {
            0int
        }),
    decreases devs.len(),
{
    let u = devs.update(i, d);
    if i == devs.len() - 1 {
        assert(u.drop_last() =~= devs.drop_last());
        assert(u.last() == d);
    } else {
        assert(u.drop_last() =~= devs.drop_last().update(i, d));
        assert(u.last() == devs.last());
        lemma_count_update(devs.drop_last(), i, d, pid, key);
    }
}

/// A matching row makes the count positive.
proof fn lemma_count_at_least_one(devs: Seq<DeviceRecord>, pid: u64, key: Seq<char>, i: int)
    requires
        0 <= i < devs.len(),
        spec_key_match(devs[i], pid, key),
    ensures
        spec_key_count(devs, pid, key) >= 1,
    decreases devs.len(),
{
    lemma_count_nonneg(devs, pid, key);
    if i == devs.len() - 1 {
        lemma_count_nonneg(devs.drop_last(), pid, key);
    } else {
        lemma_count_at_least_one(devs.drop_last(), pid, key, i);
    }
}

/// Counts are never negative.
proof fn lemma_count_nonneg(devs: Seq<DeviceRecord>, pid: u64, key: Seq<char>)
    ensures
        spec_key_count(devs, pid, key) >= 0,
    decreases devs.len(),
{
    if devs.len() > 0 {
        lemma_count_nonneg(devs.drop_last(), pid, key);
    }
}

/// Two distinct matching rows make the count at least two.
proof fn lemma_count_two(devs: Seq<DeviceRecord>, pid: u64, key: Seq<char>, i: int, j: int)
    requires
        0 <= i < j < devs.len(),
        spec_key_match(devs[i], pid, key),
        spec_key_match(devs[j], pid, key),
    ensures
        spec_key_count(devs, pid, key) >= 2,
    decreases devs.len(),
{
    if j == devs.len() - 1 {
        lemma_count_at_least_one(devs.drop_last(), pid, key, i);
    } else {
        lemma_count_two(devs.drop_last(), pid, key, i, j);
    }
}

/// A count of one pins every matching row to the same first and last seen
/// instants.
proof fn lemma_count_one_values(
    devs: Seq<DeviceRecord>,
    pid: u64,
    key: Seq<char>,
    i: int,
    j: int,
)
    requires
        spec_key_count(devs, pid, key) == 1,
        0 <= i < devs.len(),
        0 <= j < devs.len(),
        spec_key_match(devs[i], pid, key),
        spec_key_match(devs[j], pid, key),
    ensures
        i == j,
{
    if i < j {
        lemma_count_two(devs, pid, key, i, j);
    } else if j < i {
        lemma_count_two(devs, pid, key, j, i);
    }
}

/// Law of concurrent ingestion, serialised by the store: a run of upserts
/// of one new natural key, observed at nondecreasing instants, leaves
/// exactly one row for that key, first seen at the least observed instant
/// and last seen at the greatest.
pub proof fn lemma_device_ingest_series(
    states: Seq<Seq<DeviceRecord>>,
    times: Seq<i64>,
    pid: u64,
    key: Seq<char>,
)
    requires
        states.len() == times.len() + 1,
        times.len() >= 1,
        spec_key_count(states[0], pid, key) == 0,
        forall|k: int|
            0 <= k < times.len() ==> spec_upsert_step(
                #[trigger] states[k],
                states[k + 1],
                pid,
                key,
                times[k],
            ),
        forall|k: int| 0 <= k < times.len() - 1 ==> #[trigger] times[k] <= times[k + 1],
    ensures
        spec_key_count(states.last(), pid, key) == 1,
        forall|i: int|
            0 <= i < states.last().len() && spec_key_match(#[trigger] states.last()[i], pid, key)
                ==> states.last()[i].first_seen == times[0] && states.last()[i].last_seen
                == times[times.len() - 1],
    decreases times.len(),
{
    let n = times.len() as int;
    if n == 1 {
        let before = states[0];
        let after = states[1];
        assert(spec_upsert_step(before, after, pid, key, times[0]));
        assert(after.drop_last() =~= before);
        assert(spec_key_count(after, pid, key) == 1);
        assert forall|i: int|
            0 <= i < after.len() && spec_key_match(#[trigger] after[i], pid, key) implies after[i].first_seen
            == times[0] && after[i].last_seen == times[0] by {
            lemma_count_one_values(after, pid, key, i, after.len() - 1);
        }
    } else {
        lemma_device_ingest_series(states.drop_last(), times.drop_last(), pid, key);
        let prev = states[n - 1];
        let last = states[n];
        assert(states.drop_last().last() =~= prev);
        assert(states.last() =~= last);
        assert(spec_upsert_step(prev, last, pid, key, times[n - 1]));
        lemma_count_nonneg(prev, pid, key);
        assert(spec_key_count(prev, pid, key) == 1);
        let w = choose|i: int|
            {
                &&& 0 <= i < prev.len()
                &&& spec_key_match(#[trigger] prev[i], pid, key)
                &&& last.len() == prev.len()
                &&& (forall|j: int| 0 <= j < prev.len() && j != i ==> last[j] == prev[j])
                &&& spec_key_match(last[i], pid, key)
                &&& last[i].first_seen == prev[i].first_seen
                &&& last[i].last_seen == times[n - 1]
            };
        assert(last =~= prev.update(w, last[w]));
        lemma_count_update(prev, w, last[w], pid, key);
        assert(spec_key_count(last, pid, key) == 1);
        assert(prev[w].first_seen == times.drop_last()[0]);
        assert(times.drop_last()[0] == times[0]);
        assert forall|i: int|
            0 <= i < last.len() && spec_key_match(#[trigger] last[i], pid, key) implies last[i].first_seen
            == times[0] && last[i].last_seen == times[n - 1] by {
            lemma_count_one_values(last, pid, key, i, w);
        }
    }
}

/// Upsert a device under its natural key: create it on first sight with
/// `first_seen = last_seen = now`, else refresh its mutable attributes and
/// bump `last_seen`; `first_seen` never changes after creation. The country
/// is derived from the reported address by the geolocation lookup. Returns
/// the surrogate id of the row.
pub fn upsert_device(
    store: &mut Store,
    project_id: u64,
    device_id: &String,
    attrs: &DeviceAttributes,
    now: i64,
) -> (r: Result<u64, AppError>)
    requires
        old(store).wf(),
    ensures
        final(store).wf(),
        final(store).users == old(store).users,
        final(store).projects == old(store).projects,
        final(store).memberships == old(store).memberships,
        final(store).events == old(store).events,
        final(store).metrics == old(store).metrics,
        final(store).next_id >= old(store).next_id,
        final(store).next_id <= old(store).next_id + 1,
        r matches Ok(id) ==> {
            &&& spec_upsert_step(
                old(store).devices@,
                final(store).devices@,
                project_id,
                device_id@,
                now,
            )
            &&& exists|i: int|
                {
                    &&& 0 <= i < final(store).devices@.len()
                    &&& {
                        let d = #[trigger] final(store).devices@[i];
                        &&& d.id == id
                        &&& spec_key_match(d, project_id, device_id@)
                        &&& d.platform@ == attrs.platform@
                        &&& spec_opt_view(d.os_version) == spec_opt_view(attrs.os_version)
                        &&& spec_opt_view(d.app_version) == spec_opt_view(attrs.app_version)
                        &&& spec_opt_view(d.ip_address) == spec_opt_view(attrs.ip_address)
                        &&& spec_opt_view(d.country) == spec_derived_country(
                            spec_opt_view(attrs.ip_address),
                        )
                        &&& d.last_seen == now
                    }
                }
        },
        r matches Err(e) ==> *final(store) == *old(store) && (e matches AppError::NotFoundError(_)
            || e matches AppError::InternalServerError(_)) && (e matches AppError::NotFoundError(_)
            ==> !old(store).spec_has_project(project_id)),
        old(store).spec_has_project(project_id) && old(store).next_id < u64::MAX ==> r is Ok,
{
    match store.find_project(project_id) {
        Some(_) => {},
        None => {
            return Err(AppError::NotFoundError(String::from_str("Project not found")));
        },
    }
    proof {
        assert(store.spec_has_project(project_id));
    }
    let country: Option<String> = match &attrs.ip_address {
        Some(ip) => ip_to_country(ip.as_str()),
        None => None,
    };
    match store.find_device_by_key(project_id, device_id) {
        Some(i) => {
            let ghost before = store.devices@;
            let id = store.devices[i].id;
            let first_seen = store.devices[i].first_seen;
            let updated = DeviceRecord {
                id,
                project_id,
                device_id: device_id.clone(),
                platform: attrs.platform.clone(),
                os_version: clone_opt(&attrs.os_version),
                app_version: clone_opt(&attrs.app_version),
                first_seen,
                last_seen: now,
                ip_address: clone_opt(&attrs.ip_address),
                country,
            };
            store.devices[i] = updated;
            proof {
                lemma_count_at_least_one(before, project_id, device_id@, i as int);
                assert(spec_upsert_step(
                    before,
                    store.devices@,
                    project_id,
                    device_id@,
                    now,
                )) by {
                    assert(0 <= (i as int) < before.len() && spec_key_match(
                        before[i as int],
                        project_id,
                        device_id@,
                    ) && store.devices@.len() == before.len() && (forall|j: int|
                        0 <= j < before.len() && j != i as int ==> store.devices@[j] == before[j])
                        && spec_key_match(store.devices@[i as int], project_id, device_id@)
                        && store.devices@[i as int].first_seen == before[i as int].first_seen
                        && store.devices@[i as int].last_seen == now);
                }
                assert(store.wf()) by {
                    assert(forall|a: int, b: int|
                        0 <= a < b < store.devices@.len() ==> (#[trigger] store.devices@[a]).id != (
                        #[trigger] store.devices@[b]).id);
                }
            }
            Ok(id)
        },
        None => {
            let id = match store.fresh_id() {
                Some(id) => id,
                None => {
                    return Err(
                        AppError::InternalServerError(String::from_str("id space exhausted")),
                    );
                },
            };
            let ghost before = store.devices@;
            let fresh = DeviceRecord {
                id,
                project_id,
                device_id: device_id.clone(),
                platform: attrs.platform.clone(),
                os_version: clone_opt(&attrs.os_version),
                app_version: clone_opt(&attrs.app_version),
                first_seen: now,
                last_seen: now,
                ip_address: clone_opt(&attrs.ip_address),
                country,
            };
            store.devices.push(fresh);
            proof {
                assert(forall|j: int|
                    0 <= j < before.len() ==> !spec_key_match(
                        #[trigger] before[j],
                        project_id,
                        device_id@,
                    ));
                if spec_key_count(before, project_id, device_id@) != 0 {
                    lemma_count_nonneg(before, project_id, device_id@);
                    let k = lemma_count_pos_witness(before, project_id, device_id@);
                }
                assert(store.devices@.subrange(0, before.len() as int) =~= before);
                assert(store.devices@.last() == fresh);
                assert(store.spec_has_project(project_id));
                assert(store.wf()) by {
                    assert(forall|a: int|
                        0 <= a < before.len() ==> store.devices@[a] == #[trigger] before[a]);
                    assert(forall|a: int, b: int|
                        0 <= a < b < store.devices@.len() ==> !((
                        #[trigger] store.devices@[a]).project_id == (
                        #[trigger] store.devices@[b]).project_id && store.devices@[a].device_id@
                            == store.devices@[b].device_id@));
                }
            }
            Ok(id)
        },
    }
}

/// A positive count yields a matching row.
proof fn lemma_count_pos_witness(devs: Seq<DeviceRecord>, pid: u64, key: Seq<char>) -> (i: int)
    requires
        spec_key_count(devs, pid, key) > 0,
    ensures
        0 <= i < devs.len(),
        spec_key_match(devs[i], pid, key),
    decreases devs.len(),
{
    lemma_count_nonneg(devs, pid, key);
    if devs.len() == 0 {
        0
    } else if spec_key_match(devs.last(), pid, key) {
        devs.len() - 1
    } else {
        lemma_count_nonneg(devs.drop_last(), pid, key);
        lemma_count_pos_witness(devs.drop_last(), pid, key)
    }
}

/// Copy an optional text field.
fn clone_opt(o: &Option<String>) -> (r: Option<String>)
    ensures
        spec_opt_view(r) == spec_opt_view(*o),
{
    match o {
        Some(s) => Some(s.clone()),
        None => None,
    }
}

} // verus!
