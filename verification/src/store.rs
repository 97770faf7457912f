//! The in-memory model of the persistence store: one record type per
//! entity, a well-formedness invariant tying them together, and verified
//! lookups. The device registry, the event ingestor and the metric
//! aggregator mutate a `Store` through operations whose contracts preserve
//! the invariant: unique surrogate ids, unique natural keys, and foreign
//! keys that resolve.

use vstd::prelude::*;

use crate::roles::Role;

verus! {

/// A registered human operator.
pub struct UserRecord {
    pub id: u64,
    pub email: String,
    pub password_hash: String,
    pub name: String,
    pub role: String,
    pub created_at: i64,
    pub updated_at: i64,
}

/// A tenant: the isolation boundary owning devices, events and metrics.
pub struct ProjectRecord {
    pub id: u64,
    pub name: String,
    pub api_key: String,
    pub owner_id: u64,
    pub created_at: i64,
    pub updated_at: i64,
}

/// An explicit project role of a user. The owner's role is implicit and
/// never stored.
pub struct MembershipRecord {
    pub project_id: u64,
    pub user_id: u64,
    pub role: Role,
}

/// A device, keyed naturally by (project, client-supplied device id).
pub struct DeviceRecord {
    pub id: u64,
    pub project_id: u64,
    pub device_id: String,
    pub platform: String,
    pub os_version: Option<String>,
    pub app_version: Option<String>,
    pub first_seen: i64,
    pub last_seen: i64,
    pub ip_address: Option<String>,
    pub country: Option<String>,
}

/// A stored telemetry event; immutable once stored.
pub struct EventRecord {
    pub id: u64,
    pub project_id: u64,
    pub device_id: u64,
    pub event_type: String,
    pub event_name: Option<String>,
    pub parameters: Option<String>,
    pub timestamp: i64,
    pub received_at: i64,
}

/// One metric bucket; identified by its aggregation key
/// (project, type, period, period start, dimensions).
pub struct MetricRecord {
    pub id: u64,
    pub project_id: u64,
    pub metric_type: String,
    pub period: String,
    pub period_start: i64,
    pub value: i64,
    pub dimensions: Option<String>,
}

/// Whether two metric records share one aggregation key.
pub open spec fn spec_same_metric_key(a: MetricRecord, b: MetricRecord) -> bool {
    &&& a.project_id == b.project_id
    &&& a.metric_type@ == b.metric_type@
    &&& a.period@ == b.period@
    &&& a.period_start == b.period_start
    &&& match (a.dimensions, b.dimensions) {
        (Option::Some(x), Option::Some(y)) => x@ == y@,
        (Option::None, Option::None) => true,
        _ => false,
    }
}


/// Some project in the table carries the id.
pub open spec fn spec_projects_have(projects: Seq<ProjectRecord>, id: u64) -> bool {
    exists|i: int| 0 <= i < projects.len() && projects[i].id == id
}

/// Some user in the table carries the id.
pub open spec fn spec_users_have(users: Seq<UserRecord>, id: u64) -> bool {
    exists|i: int| 0 <= i < users.len() && users[i].id == id
}

/// Users: ids below the allocator mark, ids and emails unique.
pub open spec fn spec_users_ok(users: Seq<UserRecord>, next_id: u64) -> bool {
    &&& forall|i: int| 0 <= i < users.len() ==> (#[trigger] users[i]).id < next_id
    &&& forall|i: int, j: int|
        0 <= i < j < users.len() ==> (#[trigger] users[i]).id != (#[trigger] users[j]).id
            && users[i].email@ != users[j].email@
}

/// Projects: ids below the allocator mark, ids and API keys unique.
pub open spec fn spec_projects_ok(projects: Seq<ProjectRecord>, next_id: u64) -> bool {
    &&& forall|i: int| 0 <= i < projects.len() ==> (#[trigger] projects[i]).id < next_id
    &&& forall|i: int, j: int|
        0 <= i < j < projects.len() ==> (#[trigger] projects[i]).id != (#[trigger] projects[j]).id
            && projects[i].api_key@ != projects[j].api_key@
}

/// Devices: ids below the allocator mark and unique, natural keys unique,
/// owning projects present.
pub open spec fn spec_devices_ok(
    devices: Seq<DeviceRecord>,
    projects: Seq<ProjectRecord>,
    next_id: u64,
) -> bool {
    &&& forall|i: int| 0 <= i < devices.len() ==> (#[trigger] devices[i]).id < next_id
    &&& forall|i: int, j: int|
        0 <= i < j < devices.len() ==> (#[trigger] devices[i]).id != (#[trigger] devices[j]).id
    &&& forall|i: int, j: int|
        0 <= i < j < devices.len() ==> !((#[trigger] devices[i]).project_id == (
        #[trigger] devices[j]).project_id && devices[i].device_id@ == devices[j].device_id@)
    &&& forall|i: int|
        0 <= i < devices.len() ==> spec_projects_have(projects, (#[trigger] devices[i]).project_id)
}

/// Events: ids below the allocator mark and unique, owning projects
/// present, and the table ordered by client timestamp.
pub open spec fn spec_events_ok(
    events: Seq<EventRecord>,
    projects: Seq<ProjectRecord>,
    next_id: u64,
) -> bool {
    &&& forall|i: int| 0 <= i < events.len() ==> (#[trigger] events[i]).id < next_id
    &&& forall|i: int, j: int|
        0 <= i < j < events.len() ==> (#[trigger] events[i]).id != (#[trigger] events[j]).id
    &&& forall|i: int|
        0 <= i < events.len() ==> spec_projects_have(projects, (#[trigger] events[i]).project_id)
    &&& forall|i: int, j: int|
        0 <= i < j < events.len() ==> (#[trigger] events[i]).timestamp <= (
        #[trigger] events[j]).timestamp
}

/// Metric buckets: ids below the allocator mark, aggregation keys unique,
/// owning projects present.
pub open spec fn spec_metrics_ok(
    metrics: Seq<MetricRecord>,
    projects: Seq<ProjectRecord>,
    next_id: u64,
) -> bool {
    &&& forall|i: int| 0 <= i < metrics.len() ==> (#[trigger] metrics[i]).id < next_id
    &&& forall|i: int, j: int|
        0 <= i < j < metrics.len() ==> !spec_same_metric_key(
            #[trigger] metrics[i],
            #[trigger] metrics[j],
        )
    &&& forall|i: int|
        0 <= i < metrics.len() ==> spec_projects_have(projects, (#[trigger] metrics[i]).project_id)
}

/// Memberships: one row per (project, user), both sides present, and never
/// a row for the project's own owner.
pub open spec fn spec_memberships_ok(
    memberships: Seq<MembershipRecord>,
    projects: Seq<ProjectRecord>,
    users: Seq<UserRecord>,
) -> bool {
    &&& forall|i: int, j: int|
        0 <= i < j < memberships.len() ==> !((#[trigger] memberships[i]).project_id == (
        #[trigger] memberships[j]).project_id && memberships[i].user_id == memberships[j].user_id)
    &&& forall|i: int|
        0 <= i < memberships.len() ==> spec_projects_have(
            projects,
            (#[trigger] memberships[i]).project_id,
        ) && spec_users_have(users, (#[trigger] memberships[i]).user_id)
    &&& forall|i: int, j: int|
        0 <= i < memberships.len() && 0 <= j < projects.len() && (
        #[trigger] memberships[i]).project_id == (#[trigger] projects[j]).id ==> memberships[i].user_id
            != projects[j].owner_id
}

/// Project tables whose rows carry the same ids resolve the same ids.
pub proof fn lemma_projects_have_same_ids(p1: Seq<ProjectRecord>, p2: Seq<ProjectRecord>)
    requires
        p1.len() == p2.len(),
        forall|a: int| 0 <= a < p1.len() ==> (#[trigger] p1[a]).id == p2[a].id,
    ensures
        forall|p: u64| spec_projects_have(p1, p) == spec_projects_have(p2, p),
{
    assert forall|p: u64| spec_projects_have(p1, p) == spec_projects_have(p2, p) by {
        if spec_projects_have(p1, p) {
            let w = choose|i: int| 0 <= i < p1.len() && p1[i].id == p;
            assert(p2[w].id == p);
        }
        if spec_projects_have(p2, p) {
            let w = choose|i: int| 0 <= i < p2.len() && p2[i].id == p;
            assert(p1[w].id == p);
        }
    }
}

/// User tables whose rows carry the same ids resolve the same ids.
pub proof fn lemma_users_have_same_ids(u1: Seq<UserRecord>, u2: Seq<UserRecord>)
    requires
        u1.len() == u2.len(),
        forall|a: int| 0 <= a < u1.len() ==> (#[trigger] u1[a]).id == u2[a].id,
    ensures
        forall|p: u64| spec_users_have(u1, p) == spec_users_have(u2, p),
{
    assert forall|p: u64| spec_users_have(u1, p) == spec_users_have(u2, p) by {
        if spec_users_have(u1, p) {
            let w = choose|i: int| 0 <= i < u1.len() && u1[i].id == p;
            assert(u2[w].id == p);
        }
        if spec_users_have(u2, p) {
            let w = choose|i: int| 0 <= i < u2.len() && u2[i].id == p;
            assert(u1[w].id == p);
        }
    }
}

/// A larger allocator mark keeps every table well-formed.
pub proof fn lemma_wf_mono(s1: Store, s2: Store)
    requires
        s1.wf(),
        s2.users@ == s1.users@,
        s2.projects@ == s1.projects@,
        s2.memberships@ == s1.memberships@,
        s2.devices@ == s1.devices@,
        s2.events@ == s1.events@,
        s2.metrics@ == s1.metrics@,
        s2.next_id >= s1.next_id,
    ensures
        s2.wf(),
{
}

/// The whole store.
pub struct Store {
    pub users: Vec<UserRecord>,
    pub projects: Vec<ProjectRecord>,
    pub memberships: Vec<MembershipRecord>,
    pub devices: Vec<DeviceRecord>,
    pub events: Vec<EventRecord>,
    pub metrics: Vec<MetricRecord>,
    pub next_id: u64,
}

impl Store {
    /// A user id that resolves.
    pub open spec fn spec_has_user(&self, id: u64) -> bool {
        spec_users_have(self.users@, id)
    }

    /// A project id that resolves.
    pub open spec fn spec_has_project(&self, id: u64) -> bool {
        spec_projects_have(self.projects@, id)
    }

    /// Whether a device with the natural key (project, device id) exists.
    pub open spec fn spec_has_device_key(&self, project_id: u64, device_id: Seq<char>) -> bool {
        exists|i: int|
            0 <= i < self.devices@.len() && self.devices@[i].project_id == project_id
                && self.devices@[i].device_id@ == device_id
    }

    /// The explicit membership role of a user on a project, if any.
    pub open spec fn spec_membership_role(&self, project_id: u64, user_id: u64) -> Option<Role> {
        if exists|i: int|
            0 <= i < self.memberships@.len() && self.memberships@[i].project_id == project_id
                && self.memberships@[i].user_id == user_id {
            let i = choose|i: int|
                0 <= i < self.memberships@.len() && self.memberships@[i].project_id == project_id
                    && self.memberships@[i].user_id == user_id;
            Option::Some(self.memberships@[i].role)
        } else {
            Option::None
        }
    }

    /// Well-formedness: ids are below the allocator mark and unique, natural
    /// keys are unique, every foreign key resolves, the owner holds no
    /// explicit membership row, and events stand in timestamp order.
    pub open spec fn wf(&self) -> bool {
        &&& spec_users_ok(self.users@, self.next_id)
        &&& spec_projects_ok(self.projects@, self.next_id)
        &&& spec_devices_ok(self.devices@, self.projects@, self.next_id)
        &&& spec_events_ok(self.events@, self.projects@, self.next_id)
        &&& spec_metrics_ok(self.metrics@, self.projects@, self.next_id)
        &&& spec_memberships_ok(self.memberships@, self.projects@, self.users@)
    }

    /// An empty store.
    pub fn new() -> (s: Store)
        ensures
            s.wf(),
            s.users@.len() == 0,
            s.projects@.len() == 0,
            s.memberships@.len() == 0,
            s.devices@.len() == 0,
            s.events@.len() == 0,
            s.metrics@.len() == 0,
            s.next_id == 1,
    {
        Store {
            users: Vec::new(),
            projects: Vec::new(),
            memberships: Vec::new(),
            devices: Vec::new(),
            events: Vec::new(),
            metrics: Vec::new(),
            next_id: 1,
        }
    }

    /// Position of the user with the given id.
    pub fn find_user(&self, id: u64) -> (r: Option<usize>)
        ensures
            r matches Some(i) ==> i < self.users@.len() && self.users@[i as int].id == id,
            r is None ==> !self.spec_has_user(id),
    {
        let mut i: usize = 0;
        while i < self.users.len()
            invariant
                i <= self.users@.len(),
                forall|j: int| 0 <= j < i ==> (#[trigger] self.users@[j]).id != id,
            decreases self.users@.len() - i,
        {
            if self.users[i].id == id {
                return Some(i);
            }
            i += 1;
        }
        None
    }

    /// Position of the user with the given email.
    pub fn find_user_by_email(&self, email: &String) -> (r: Option<usize>)
        ensures
            r matches Some(i) ==> i < self.users@.len() && self.users@[i as int].email@ == email@,
            r is None ==> forall|j: int|
                0 <= j < self.users@.len() ==> (#[trigger] self.users@[j]).email@ != email@,
    {
        let mut i: usize = 0;
        while i < self.users.len()
            invariant
                i <= self.users@.len(),
                forall|j: int| 0 <= j < i ==> (#[trigger] self.users@[j]).email@ != email@,
            decreases self.users@.len() - i,
        {
            if crate::strutil::str_eq(self.users[i].email.as_str(), email.as_str()) {
                return Some(i);
            }
            i += 1;
        }
        None
    }

    /// Position of the project with the given id.
    pub fn find_project(&self, id: u64) -> (r: Option<usize>)
        ensures
            r matches Some(i) ==> i < self.projects@.len() && self.projects@[i as int].id == id,
            r is None ==> !self.spec_has_project(id),
    {
        let mut i: usize = 0;
        while i < self.projects.len()
            invariant
                i <= self.projects@.len(),
                forall|j: int| 0 <= j < i ==> (#[trigger] self.projects@[j]).id != id,
            decreases self.projects@.len() - i,
        {
            if self.projects[i].id == id {
                return Some(i);
            }
            i += 1;
        }
        None
    }

    /// Position of the project holding the given raw API key.
    pub fn find_project_by_api_key(&self, api_key: &String) -> (r: Option<usize>)
        ensures
            r matches Some(i) ==> i < self.projects@.len() && self.projects@[i as int].api_key@
                == api_key@,
            r is None ==> forall|j: int|
                0 <= j < self.projects@.len() ==> (#[trigger] self.projects@[j]).api_key@
                    != api_key@,
    {
        let mut i: usize = 0;
        while i < self.projects.len()
            invariant
                i <= self.projects@.len(),
                forall|j: int| 0 <= j < i ==> (#[trigger] self.projects@[j]).api_key@ != api_key@,
            decreases self.projects@.len() - i,
        {
            if crate::strutil::str_eq(self.projects[i].api_key.as_str(), api_key.as_str()) {
                return Some(i);
            }
            i += 1;
        }
        None
    }

    /// Position of the membership row of a user on a project.
    pub fn find_membership(&self, project_id: u64, user_id: u64) -> (r: Option<usize>)
        ensures
            r matches Some(i) ==> i < self.memberships@.len() && self.memberships@[i as int].project_id
                == project_id && self.memberships@[i as int].user_id == user_id,
            r is None ==> forall|j: int|
                0 <= j < self.memberships@.len() ==> !((#[trigger] self.memberships@[j]).project_id
                    == project_id && self.memberships@[j].user_id == user_id),
    {
        let mut i: usize = 0;
        while i < self.memberships.len()
            invariant
                i <= self.memberships@.len(),
                forall|j: int|
                    0 <= j < i ==> !((#[trigger] self.memberships@[j]).project_id == project_id
                        && self.memberships@[j].user_id == user_id),
            decreases self.memberships@.len() - i,
        {
            if self.memberships[i].project_id == project_id && self.memberships[i].user_id
                == user_id {
                return Some(i);
            }
            i += 1;
        }
        None
    }

    /// The explicit membership role of a user on a project, if any.
    /// Well-formedness makes the row unique, so the role is determined.
    pub fn membership_role(&self, project_id: u64, user_id: u64) -> (r: Option<Role>)
        requires
            self.wf(),
        ensures
            r == self.spec_membership_role(project_id, user_id),
    {
        match self.find_membership(project_id, user_id) {
            Some(i) => {
                proof {
                    let w = choose|k: int|
                        0 <= k < self.memberships@.len() && self.memberships@[k].project_id
                            == project_id && self.memberships@[k].user_id == user_id;
                    assert(w == i as int);
                }
                Some(self.memberships[i].role)
            },
            None => None,
        }
    }

    /// Position of the device with the natural key (project, device id).
    pub fn find_device_by_key(&self, project_id: u64, device_id: &String) -> (r: Option<usize>)
        ensures
            r matches Some(i) ==> i < self.devices@.len() && self.devices@[i as int].project_id
                == project_id && self.devices@[i as int].device_id@ == device_id@ && (forall|j: int|
                0 <= j < i ==> !((#[trigger] self.devices@[j]).project_id == project_id
                    && self.devices@[j].device_id@ == device_id@)),
            r is None ==> !self.spec_has_device_key(project_id, device_id@),
    {
        let mut i: usize = 0;
        while i < self.devices.len()
            invariant
                i <= self.devices@.len(),
                forall|j: int|
                    0 <= j < i ==> !((#[trigger] self.devices@[j]).project_id == project_id
                        && self.devices@[j].device_id@ == device_id@),
            decreases self.devices@.len() - i,
        {
            if self.devices[i].project_id == project_id && crate::strutil::str_eq(
                self.devices[i].device_id.as_str(),
                device_id.as_str(),
            ) {
                return Some(i);
            }
            i += 1;
        }
        None
    }

    /// Position of the event with the given surrogate id.
    pub fn find_event(&self, id: u64) -> (r: Option<usize>)
        ensures
            r matches Some(i) ==> i < self.events@.len() && self.events@[i as int].id == id,
            r is None ==> forall|j: int|
                0 <= j < self.events@.len() ==> (#[trigger] self.events@[j]).id != id,
    {
        let mut i: usize = 0;
        while i < self.events.len()
            invariant
                i <= self.events@.len(),
                forall|j: int| 0 <= j < i ==> (#[trigger] self.events@[j]).id != id,
            decreases self.events@.len() - i,
        {
            if self.events[i].id == id {
                return Some(i);
            }
            i += 1;
        }
        None
    }

    /// Position of the metric record sharing the aggregation key of `key`.
    pub fn find_metric_by_key(&self, key: &MetricRecord) -> (r: Option<usize>)
        ensures
            r matches Some(i) ==> i < self.metrics@.len() && spec_same_metric_key(
                self.metrics@[i as int],
                *key,
            ),
            r is None ==> forall|j: int|
                0 <= j < self.metrics@.len() ==> !spec_same_metric_key(
                    #[trigger] self.metrics@[j],
                    *key,
                ),
    {
        let mut i: usize = 0;
        while i < self.metrics.len()
            invariant
                i <= self.metrics@.len(),
                forall|j: int|
                    0 <= j < i ==> !spec_same_metric_key(#[trigger] self.metrics@[j], *key),
            decreases self.metrics@.len() - i,
        {
            let m = &self.metrics[i];
            let dim_match: bool = match (&m.dimensions, &key.dimensions) {
                (Some(x), Some(y)) => crate::strutil::str_eq(x.as_str(), y.as_str()),
                (None, None) => true,
                _ => false,
            };
            if m.project_id == key.project_id && crate::strutil::str_eq(
                m.metric_type.as_str(),
                key.metric_type.as_str(),
            ) && crate::strutil::str_eq(m.period.as_str(), key.period.as_str()) && m.period_start
                == key.period_start && dim_match {
                return Some(i);
            }
            i += 1;
        }
        None
    }

    /// Take a fresh surrogate id. Fails only when the id space is spent.
    pub fn fresh_id(&mut self) -> (r: Option<u64>)
        ensures
            r matches Some(id) ==> id == old(self).next_id && final(self).next_id == old(
                self,
            ).next_id + 1,
            r is None ==> *final(self) == *old(self),
            old(self).next_id < u64::MAX ==> r is Some,
            final(self).users == old(self).users,
            final(self).projects == old(self).projects,
            final(self).memberships == old(self).memberships,
            final(self).devices == old(self).devices,
            final(self).events == old(self).events,
            final(self).metrics == old(self).metrics,
            final(self).next_id >= old(self).next_id,
    {
        if self.next_id == u64::MAX {
            return None;
        }
        let id = self.next_id;
        self.next_id = self.next_id + 1;
        Some(id)
    }
}

} // verus!
