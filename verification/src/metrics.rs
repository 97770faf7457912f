//! The metric aggregator: idempotent upserts of period-bucketed metric
//! rows, and timeseries reads with bucketing and gap-filling. A metric
//! bucket is identified by its aggregation key (project, type, period,
//! period start, dimensions); recording combines the new delta into the
//! bucket under a per-metric-type policy that the caller supplies: counts
//! sum, gauges replace. Under the summing policy the final value of a
//! bucket does not depend on the order in which the deltas arrive; the
//! commutativity law below states this over delta sequences.

use vstd::prelude::*;

use crate::errors::AppError;
use crate::shim::{format_rfc3339_seconds, spec_rfc3339_of};
use crate::store::{spec_projects_have, spec_same_metric_key, MetricRecord, Store};
use crate::timebucket::{
    bucket_bounds, spec_bucket_next, spec_bucket_start, spec_ts_in_range, Interval,
};

verus! {

/// How a new delta combines into an existing bucket value.
#[derive(Clone, Copy, PartialEq, Eq, Structural, Debug)]
pub enum CombinePolicy {
    Sum,
    Replace,
}

/// A stored metric row as presented to callers.
pub struct Metric {
    pub metric_type: String,
    pub period: String,
    pub period_start: String,
    pub value: i64,
    pub dimensions: Option<String>,
}

/// One gap-filled point of a timeseries.
pub struct MetricTimeseriesPoint {
    pub timestamp: String,
    pub value: i64,
}

/// A rendered timeseries.
pub struct MetricTimeseries {
    pub metric_type: String,
    pub period: String,
    pub data: Vec<MetricTimeseriesPoint>,
}

/// The query string of the metric-definition listing endpoint.
pub struct GetMetricsQuery {
    pub project_id: String,
}

/// The query string of the timeseries endpoint.
pub struct GetMetricDataQuery {
    pub start_date: Option<String>,
    pub end_date: Option<String>,
    pub interval: Option<String>,
}

/// The filters of a metric query, as submitted.
pub struct QueryMetricsRequest {
    pub metric_type: Option<String>,
    pub period: Option<String>,
    pub start_date: Option<String>,
    pub end_date: Option<String>,
    pub dimension: Option<String>,
    pub dimension_value: Option<String>,
}

/// The rows a metric query matched.
pub struct QueryMetricsResponse {
    pub metrics: Vec<Metric>,
}

/// View of an optional text field.
pub open spec fn spec_opt_view(o: Option<String>) -> Option<Seq<char>> {
    match o {
        Option::Some(s) => Option::Some(s@),
        Option::None => Option::None,
    }
}

/// Whether a record carries this aggregation key.
pub open spec fn spec_metric_key_is(
    rec: MetricRecord,
    pid: u64,
    ty: Seq<char>,
    period: Seq<char>,
    period_start: i64,
    dims: Option<Seq<char>>,
) -> bool {
    &&& rec.project_id == pid
    &&& rec.metric_type@ == ty
    &&& rec.period@ == period
    &&& rec.period_start == period_start
    &&& spec_opt_view(rec.dimensions) == dims
}

/// The combined value of an existing bucket and a delta.
pub open spec fn spec_combine(policy: CombinePolicy, old_value: int, delta: int) -> int {
    match policy {
        CombinePolicy::Sum => old_value + delta,
        CombinePolicy::Replace => delta,
    }
}

/// What one `record_metric` does to the metric table: a missing key
/// appends a fresh row holding the delta; a present key rewrites exactly
/// the matching row with the combined value, keeping its key and id.
pub open spec fn spec_record_step(
    before: Seq<MetricRecord>,
    after: Seq<MetricRecord>,
    pid: u64,
    ty: Seq<char>,
    period: Seq<char>,
    period_start: i64,
    dims: Option<Seq<char>>,
    delta: i64,
    policy: CombinePolicy,
    value: i64,
) -> bool {
    if !(exists|i: int|
        0 <= i < before.len() && spec_metric_key_is(
            #[trigger] before[i],
            pid,
            ty,
            period,
            period_start,
            dims,
        )) {
        &&& after.len() == before.len() + 1
        &&& after.subrange(0, before.len() as int) == before
        &&& spec_metric_key_is(after.last(), pid, ty, period, period_start, dims)
        &&& after.last().value == delta
        &&& value == delta
    } else {
        exists|i: int|
            {
                &&& 0 <= i < before.len()
                &&& spec_metric_key_is(#[trigger] before[i], pid, ty, period, period_start, dims)
                &&& after.len() == before.len()
                &&& (forall|j: int| 0 <= j < before.len() && j != i ==> after[j] == before[j])
                &&& spec_metric_key_is(after[i], pid, ty, period, period_start, dims)
                &&& after[i].id == before[i].id
                &&& value as int == spec_combine(policy, before[i].value as int, delta as int)
                &&& after[i].value == value
            }
    }
}

/// Record a delta into a metric bucket: insert the bucket on first sight,
/// else combine into it under the given policy. Safe against races by the
/// store's serialisation; the aggregation key stays unique. Returns the
/// bucket's new value.
pub fn record_metric(
    store: &mut Store,
    project_id: u64,
    metric_type: &String,
    period: &String,
    period_start: i64,
    dimensions: &Option<String>,
    delta: i64,
    policy: CombinePolicy,
) -> (r: Result<i64, AppError>)
    requires
        old(store).wf(),
    ensures
        final(store).wf(),
        final(store).users == old(store).users,
        final(store).projects == old(store).projects,
        final(store).memberships == old(store).memberships,
        final(store).devices == old(store).devices,
        final(store).events == old(store).events,
        r matches Ok(v) ==> spec_record_step(
            old(store).metrics@,
            final(store).metrics@,
            project_id,
            metric_type@,
            period@,
            period_start,
            spec_opt_view(*dimensions),
            delta,
            policy,
            v,
        ),
        r matches Err(e) ==> {
            &&& *final(store) == *old(store)
            &&& (e matches AppError::NotFoundError(_) || e matches AppError::ValidationError(_)
                || e matches AppError::InternalServerError(_))
            &&& (e matches AppError::NotFoundError(_) ==> !old(store).spec_has_project(project_id))
            &&& (e matches AppError::ValidationError(_) ==> policy == CombinePolicy::Sum && exists|
                i: int,
            |
                0 <= i < old(store).metrics@.len() && spec_metric_key_is(
                    #[trigger] old(store).metrics@[i],
                    project_id,
                    metric_type@,
                    period@,
                    period_start,
                    spec_opt_view(*dimensions),
                ) && !(i64::MIN <= old(store).metrics@[i].value + delta <= i64::MAX))
        },
        !old(store).spec_has_project(project_id) ==> (r matches Err(e) && e
            matches AppError::NotFoundError(_)),
        old(store).spec_has_project(project_id) && old(store).next_id < u64::MAX && (forall|i: int|
            0 <= i < old(store).metrics@.len() && spec_metric_key_is(
                #[trigger] old(store).metrics@[i],
                project_id,
                metric_type@,
                period@,
                period_start,
                spec_opt_view(*dimensions),
            ) ==> (policy == CombinePolicy::Replace || (i64::MIN <= old(store).metrics@[i].value
                + delta <= i64::MAX))) ==> r is Ok,
        old(store).spec_has_project(project_id) && policy == CombinePolicy::Sum && (exists|i: int|
            0 <= i < old(store).metrics@.len() && spec_metric_key_is(
                #[trigger] old(store).metrics@[i],
                project_id,
                metric_type@,
                period@,
                period_start,
                spec_opt_view(*dimensions),
            ) && !(i64::MIN <= old(store).metrics@[i].value + delta <= i64::MAX)) ==> (r
            matches Err(e) && e matches AppError::ValidationError(_)),
{
    match store.find_project(project_id) {
        Some(_) => {},
        None => {
            return Err(AppError::NotFoundError(String::from_str("Project not found")));
        },
    }
    proof {
        assert(store.spec_has_project(project_id));
    }
    let probe = MetricRecord {
        id: 0,
        project_id,
        metric_type: metric_type.clone(),
        period: period.clone(),
        period_start,
        value: 0,
        dimensions: clone_opt(dimensions),
    };
    match store.find_metric_by_key(&probe) {
        Some(i) => {
            proof {
                assert(spec_same_metric_key(store.metrics@[i as int], probe));
                assert(spec_metric_key_is(
                    store.metrics@[i as int],
                    project_id,
                    metric_type@,
                    period@,
                    period_start,
                    spec_opt_view(*dimensions),
                ));
            }
            let old_value = store.metrics[i].value;
            let value: i64 = match policy {
                CombinePolicy::Sum => {
                    match old_value.checked_add(delta) {
                        Some(v) => v,
                        None => {
                            return Err(
                                AppError::ValidationError(
                                    String::from_str("metric value out of range"),
                                ),
                            );
                        },
                    }
                },
                CombinePolicy::Replace => delta,
            };
            let ghost before = store.metrics@;
            let updated = MetricRecord {
                id: store.metrics[i].id,
                project_id,
                metric_type: metric_type.clone(),
                period: period.clone(),
                period_start,
                value,
                dimensions: clone_opt(dimensions),
            };
            store.metrics[i] = updated;
            proof {
                assert(spec_same_metric_key(before[i as int], probe));
                assert(spec_metric_key_is(
                    before[i as int],
                    project_id,
                    metric_type@,
                    period@,
                    period_start,
                    spec_opt_view(*dimensions),
                ));
                assert(store.wf()) by {
                    assert(forall|a: int, b: int|
                        0 <= a < b < store.metrics@.len() ==> !spec_same_metric_key(
                            #[trigger] store.metrics@[a],
                            #[trigger] store.metrics@[b],
                        ));
                }
            }
            Ok(value)
        },
        None => {
            let id = match store.fresh_id() {
                Some(id) => id,
                None => {
                    return Err(
                        AppError::InternalServerError(String::from_str("id space exhausted")),
                    );
                },
            };
            let ghost before = store.metrics@;
            let fresh = MetricRecord {
                id,
                project_id,
                metric_type: metric_type.clone(),
                period: period.clone(),
                period_start,
                value: delta,
                dimensions: clone_opt(dimensions),
            };
            store.metrics.push(fresh);
            proof {
                assert(store.metrics@.subrange(0, before.len() as int) =~= before);
                assert(store.metrics@.last() == fresh);
                assert(store.spec_has_project(project_id));
                assert(forall|j: int|
                    0 <= j < before.len() ==> !spec_same_metric_key(#[trigger] before[j], probe));
                assert(store.wf()) by {
                    assert(forall|a: int, b: int|
                        0 <= a < b < store.metrics@.len() ==> !spec_same_metric_key(
                            #[trigger] store.metrics@[a],
                            #[trigger] store.metrics@[b],
                        ));
                }
                if exists|i: int|
                    0 <= i < before.len() && spec_metric_key_is(
                        #[trigger] before[i],
                        project_id,
                        metric_type@,
                        period@,
                        period_start,
                        spec_opt_view(*dimensions),
                    ) {
                    let w = choose|i: int|
                        0 <= i < before.len() && spec_metric_key_is(
                            #[trigger] before[i],
                            project_id,
                            metric_type@,
                            period@,
                            period_start,
                            spec_opt_view(*dimensions),
                        );
                    assert(spec_same_metric_key(before[w], probe));
                }
            }
            Ok(delta)
        },
    }
}

/// The sum of a sequence of deltas.
pub open spec fn spec_sum_deltas(ds: Seq<int>) -> int
    decreases ds.len(),
{
    if ds.len() == 0 {
        0
    } else {
        spec_sum_deltas(ds.drop_last()) + ds.last()
    }
}

/// Removing an element takes exactly its value out of the sum.
proof fn lemma_sum_remove(ds: Seq<int>, i: int)
    requires
        0 <= i < ds.len(),
    ensures
        spec_sum_deltas(ds.remove(i)) == spec_sum_deltas(ds) - ds[i],
    decreases ds.len(),
{
    if i == ds.len() - 1 {
        assert(ds.remove(i) =~= ds.drop_last());
    } else {
        assert(ds.remove(i).drop_last() =~= ds.drop_last().remove(i));
        assert(ds.remove(i).last() == ds.last());
        lemma_sum_remove(ds.drop_last(), i);
    }
}

/// Law of idempotent aggregation under the summing policy: the deltas of a
/// bucket combine commutatively, so any interleaving of the same multiset
/// of `record_metric` calls leaves the same final value. Starting from any
/// base value, two delta sequences that are permutations of one another
/// sum to the same bucket value.
pub proof fn lemma_sum_insensitive_to_order(d1: Seq<int>, d2: Seq<int>)
    requires
        d1.to_multiset() == d2.to_multiset(),
    ensures
        spec_sum_deltas(d1) == spec_sum_deltas(d2),
    decreases d1.len(),
{
    broadcast use vstd::seq_lib::group_to_multiset_ensures;

    if d1.len() == 0 {
        assert(d2.to_multiset().len() == 0);
        assert(d2.len() == 0);
    } else {
        let x = d1.last();
        let rest = d1.drop_last();
        assert(d1 =~= rest.push(x));
        assert(d1.to_multiset() =~= rest.to_multiset().insert(x));
        assert(d2.to_multiset().count(x) > 0);
        assert(d2.contains(x));
        let j = choose|j: int| 0 <= j < d2.len() && d2[j] == x;
        lemma_sum_remove(d2, j);
        assert(d2.remove(j).to_multiset() =~= d2.to_multiset().remove(x));
        assert(rest.to_multiset() =~= d2.remove(j).to_multiset());
        lemma_sum_insensitive_to_order(rest, d2.remove(j));
    }
}

/// The sum of the values of the buckets in the key space
/// (project, type, dimensions) whose period start lies in `[lo, hi)`.
pub open spec fn spec_bucket_value(
    metrics: Seq<MetricRecord>,
    pid: u64,
    ty: Seq<char>,
    dims: Option<Seq<char>>,
    lo: int,
    hi: int,
) -> int
    decreases metrics.len(),
{
    if metrics.len() == 0 {
        0
    } else {
        spec_bucket_value(metrics.drop_last(), pid, ty, dims, lo, hi) + if spec_in_bucket(
            metrics.last(),
            pid,
            ty,
            dims,
            lo,
            hi,
        ) {
            metrics.last().value as int
        } else {
            0int
        }
    }
}

/// Whether a record contributes to a bucket.
pub open spec fn spec_in_bucket(
    rec: MetricRecord,
    pid: u64,
    ty: Seq<char>,
    dims: Option<Seq<char>>,
    lo: int,
    hi: int,
) -> bool {
    &&& rec.project_id == pid
    &&& rec.metric_type@ == ty
    &&& spec_opt_view(rec.dimensions) == dims
    &&& lo <= rec.period_start < hi
}

/// Copy an optional text field.
fn clone_opt(o: &Option<String>) -> (r: Option<String>)
    ensures
        spec_opt_view(r) == spec_opt_view(*o),
{
    match o {
        Some(s) => Some(s.clone()),
        None => None,
    }
}

/// Sum the bucket's contributing records. Fails exactly when the sum falls
/// outside the representable value range.
fn bucket_value(
    store: &Store,
    pid: u64,
    ty: &String,
    dims: &Option<String>,
    lo: i64,
    hi: i64,
) -> (r: Result<i64, AppError>)
    ensures
        r matches Ok(v) ==> v as int == spec_bucket_value(
            store.metrics@,
            pid,
            ty@,
            spec_opt_view(*dims),
            lo as int,
            hi as int,
        ),
        r matches Err(e) ==> e matches AppError::InternalServerError(_),
        -0x8000000000000000int <= spec_bucket_value(
            store.metrics@,
            pid,
            ty@,
            spec_opt_view(*dims),
            lo as int,
            hi as int,
        ) <= 0x7fffffffffffffffint ==> r is Ok,
{
    let mut acc: i128 = 0;
    let mut i: usize = 0;
    proof {
        assert(store.metrics@.take(0) =~= Seq::<MetricRecord>::empty());
    }
    while i < store.metrics.len()
        invariant
            i <= store.metrics@.len(),
            acc as int == spec_bucket_value(
                store.metrics@.take(i as int),
                pid,
                ty@,
                spec_opt_view(*dims),
                lo as int,
                hi as int,
            ),
            acc as int <= i as int * 0x7fffffffffffffffint,
            acc as int >= i as int * (-0x8000000000000000int),
        decreases store.metrics@.len() - i,
    {
        let m = &store.metrics[i];
        let dim_match: bool = match (&m.dimensions, dims) {
            (Some(x), Some(y)) => crate::strutil::str_eq(x.as_str(), y.as_str()),
            (None, None) => true,
            _ => false,
        };
        let ghost oldacc = acc as int;
        if m.project_id == pid && crate::strutil::str_eq(m.metric_type.as_str(), ty.as_str())
            && dim_match && lo <= m.period_start && m.period_start < hi {
            proof {
                assert(i as int <= 0xffffffffffffffffint);
            }
            acc = acc + m.value as i128;
        }
        proof {
            assert(store.metrics@.take(i + 1).drop_last() =~= store.metrics@.take(i as int));
            assert(store.metrics@.take(i + 1).last() == store.metrics@[i as int]);
        }
        i += 1;
    }
    proof {
        assert(store.metrics@.take(store.metrics@.len() as int) =~= store.metrics@);
    }
    if acc < i64::MIN as i128 || acc > i64::MAX as i128 {
        return Err(AppError::InternalServerError(String::from_str("metric sum out of range")));
    }
    Ok(acc as i64)
}

/// What a gap-filled timeseries reports: one point per bucket of the
/// requested interval from the bucket containing `start` through the
/// bucket containing `end`, each carrying the summed value of its bucket,
/// zero where no record falls inside. An empty range yields no points.
pub open spec fn spec_timeseries_ok(
    metrics: Seq<MetricRecord>,
    pid: u64,
    ty: Seq<char>,
    dims: Option<Seq<char>>,
    interval: Interval,
    start: int,
    end: int,
    vals: Seq<(i64, i64)>,
) -> bool {
    &&& (start <= end <==> vals.len() >= 1)
    &&& (vals.len() >= 1 ==> vals[0].0 as int == spec_bucket_start(interval, start))
    &&& (forall|i: int|
        0 <= i < vals.len() - 1 ==> (#[trigger] vals[i + 1]).0 as int == spec_bucket_next(
            interval,
            vals[i].0 as int,
        ))
    &&& (vals.len() >= 1 ==> vals.last().0 <= end && end < spec_bucket_next(
        interval,
        vals.last().0 as int,
    ))
    &&& (forall|i: int|
        0 <= i < vals.len() ==> (#[trigger] vals[i]).1 as int == spec_bucket_value(
            metrics,
            pid,
            ty,
            dims,
            vals[i].0 as int,
            spec_bucket_next(interval, vals[i].0 as int),
        ))
}

/// Compute the gap-filled timeseries of a key space over `[start, end]`,
/// bucketed by the interval: exactly one point per bucket in range, in
/// order, with the documented empty-bucket value of zero.
pub fn query_timeseries(
    store: &Store,
    project_id: u64,
    metric_type: &String,
    dimensions: &Option<String>,
    start: i64,
    end: i64,
    interval: Interval,
) -> (r: Result<Vec<(i64, i64)>, AppError>)
    requires
        store.wf(),
        spec_ts_in_range(start as int),
        spec_ts_in_range(end as int),
    ensures
        r matches Ok(vals) ==> spec_timeseries_ok(
            store.metrics@,
            project_id,
            metric_type@,
            spec_opt_view(*dimensions),
            interval,
            start as int,
            end as int,
            vals@,
        ),
        r matches Err(e) ==> (e matches AppError::NotFoundError(_) ==> !store.spec_has_project(
            project_id,
        )) && (e matches AppError::NotFoundError(_) || e matches AppError::InternalServerError(_)),
        !store.spec_has_project(project_id) ==> (r matches Err(e) && e
            matches AppError::NotFoundError(_)),
        store.spec_has_project(project_id) && (forall|lo: int, hi: int|
            i64::MIN <= #[trigger] spec_bucket_value(
                store.metrics@,
                project_id,
                metric_type@,
                spec_opt_view(*dimensions),
                lo,
                hi,
            ) <= i64::MAX) ==> r is Ok,
{
    match store.find_project(project_id) {
        Some(_) => {},
        None => {
            return Err(AppError::NotFoundError(String::from_str("Project not found")));
        },
    }
    proof {
        assert(store.spec_has_project(project_id));
    }
    let mut vals: Vec<(i64, i64)> = Vec::new();
    if start > end {
        return Ok(vals);
    }
    let first = bucket_bounds(interval, start);
    let mut cur: i64 = first.0;
    let mut nxt: i64 = first.1;
    while cur <= end
        invariant
            store.wf(),
            store.spec_has_project(project_id),
            spec_ts_in_range(end as int),
            nxt as int == spec_bucket_next(interval, cur as int),
            cur < nxt,
            vals@.len() == 0 ==> cur as int == spec_bucket_start(interval, start as int) && cur
                <= start,
            vals@.len() >= 1 ==> vals@[0].0 as int == spec_bucket_start(interval, start as int),
            vals@.len() >= 1 ==> cur as int == spec_bucket_next(
                interval,
                vals@.last().0 as int,
            ) && vals@.last().0 <= end,
            forall|i: int|
                0 <= i < vals@.len() - 1 ==> (#[trigger] vals@[i + 1]).0 as int == spec_bucket_next(
                    interval,
                    vals@[i].0 as int,
                ),
            forall|i: int|
                0 <= i < vals@.len() ==> (#[trigger] vals@[i]).1 as int == spec_bucket_value(
                    store.metrics@,
                    project_id,
                    metric_type@,
                    spec_opt_view(*dimensions),
                    vals@[i].0 as int,
                    spec_bucket_next(interval, vals@[i].0 as int),
                ),
            cur as int >= spec_bucket_start(interval, start as int),
            cur >= -604800,
            interval == Interval::Month ==> cur >= 0,
            cur <= end + 2764800,
            nxt <= cur + 2764800,
        decreases end + 2764800 - cur,
    {
        let v = match bucket_value(store, project_id, metric_type, dimensions, cur, nxt) {
            Ok(v) => v,
            Err(e) => {
                return Err(e);
            },
        };
        let ghost prev = vals@;
        vals.push((cur, v));
        proof {
            assert(vals@.last() == (cur, v));
            assert(forall|i: int| 0 <= i < prev.len() ==> vals@[i] == #[trigger] prev[i]);
        }
        let step = bucket_next(interval, nxt);
        cur = nxt;
        nxt = step;
    }
    Ok(vals)
}

/// Start of the bucket after the one starting at `b`, executable.
fn bucket_next(interval: Interval, b: i64) -> (n: i64)
    requires
        -604800 <= b,
        b as int <= 3200000000000int + 2764800,
        interval == Interval::Month ==> b >= 0,
    ensures
        n as int == spec_bucket_next(interval, b as int),
        n > b,
        n <= b + 2764800,
{
    match interval {
        Interval::Hour => b + 3600,
        Interval::Day => b + 86400,
        Interval::Week => b + 604800,
        Interval::Month => {
            let day = b / 86400;
            proof {
                assert(0 <= day < 40000000);
            }
            let mut y: i64 = 1970;
            let mut rem: i64 = day;
            let mut diy = days_in_year_x(y);
            while rem >= diy
                invariant
                    0 <= rem <= day,
                    0 <= day < 40000000,
                    1970 <= y,
                    y - 1970 <= day - rem,
                    diy as int == crate::timebucket::spec_days_in_year(y as int),
                    365 <= diy <= 366,
                    crate::timebucket::spec_year_seek(1970, day as int)
                        == crate::timebucket::spec_year_seek(y as int, rem as int),
                decreases rem,
            {
                rem = rem - diy;
                y = y + 1;
                diy = days_in_year_x(y);
            }
            proof {
                assert(crate::timebucket::spec_year_seek(y as int, rem as int) == (
                    y as int,
                    rem as int,
                ));
            }
            proof {
                crate::timebucket::lemma_months_of_year(y as int);
            }
            let mut m: i64 = 1;
            let mut mrem: i64 = rem;
            let mut dim = days_in_month_x(y, m);
            while m < 12 && mrem >= dim
                invariant
                    y >= 1970,
                    1 <= m <= 12,
                    0 <= mrem <= rem,
                    0 <= rem < 366,
                    dim as int == crate::timebucket::spec_days_in_month(y as int, m as int),
                    28 <= dim <= 31,
                    crate::timebucket::spec_month_seek(y as int, 1, rem as int)
                        == crate::timebucket::spec_month_seek(y as int, m as int, mrem as int),
                    crate::timebucket::spec_sum_months(y as int, m as int, 13 - m as int)
                        > mrem as int,
                decreases 12 - m,
            {
                proof {
                    assert(crate::timebucket::spec_sum_months(y as int, m as int, 13 - m as int)
                        == crate::timebucket::spec_days_in_month(y as int, m as int)
                        + crate::timebucket::spec_sum_months(y as int, m as int + 1, 12 - m as int));
                }
                mrem = mrem - dim;
                m = m + 1;
                dim = days_in_month_x(y, m);
            }
            proof {
                if mrem >= dim {
                    assert(m == 12);
                    assert(crate::timebucket::spec_sum_months(y as int, 13, 0) == 0);
                    assert(crate::timebucket::spec_sum_months(y as int, 12, 1)
                        == crate::timebucket::spec_days_in_month(y as int, 12)
                        + crate::timebucket::spec_sum_months(y as int, 13, 0));
                }
                assert(mrem < dim);
                assert(crate::timebucket::spec_month_seek(y as int, m as int, mrem as int) == (
                    m as int,
                    mrem as int,
                ));
                assert(crate::timebucket::spec_month_seek(y as int, 1, rem as int) == (
                    m as int,
                    mrem as int,
                ));
            }
            b + dim * 86400
        },
    }
}

/// Days in a civil year, executable.
fn days_in_year_x(y: i64) -> (r: i64)
    requires
        y >= 1970,
    ensures
        r as int == crate::timebucket::spec_days_in_year(y as int),
        365 <= r <= 366,
{
    if y % 4 == 0 && (y % 100 != 0 || y % 400 == 0) {
        366
    } else {
        365
    }
}

/// Days in a civil month, executable.
fn days_in_month_x(y: i64, m: i64) -> (r: i64)
    requires
        y >= 1970,
        1 <= m <= 12,
    ensures
        r as int == crate::timebucket::spec_days_in_month(y as int, m as int),
        28 <= r <= 31,
{
    if m == 2 {
        if y % 4 == 0 && (y % 100 != 0 || y % 400 == 0) {
            29
        } else {
            28
        }
    } else if m == 4 || m == 6 || m == 9 || m == 11 {
        30
    } else {
        31
    }
}

/// Render a computed timeseries into presentation points.
pub fn timeseries_points(vals: &Vec<(i64, i64)>) -> (r: Result<
    Vec<MetricTimeseriesPoint>,
    AppError,
>)
    ensures
        r matches Ok(ps) ==> ps@.len() == vals@.len() && forall|i: int|
            0 <= i < ps@.len() ==> (#[trigger] ps@[i]).timestamp@ == spec_rfc3339_of(
                vals@[i].0 as int,
            ) && ps@[i].value == vals@[i].1,
        r matches Err(e) ==> e matches AppError::InternalServerError(_),
        (forall|i: int|
            0 <= i < vals@.len() ==> crate::timebucket::spec_ts_in_range(
                (#[trigger] vals@[i]).0 as int,
            )) ==> r is Ok,
{
    let mut out: Vec<MetricTimeseriesPoint> = Vec::new();
    let mut i: usize = 0;
    while i < vals.len()
        invariant
            i <= vals@.len(),
            out@.len() == i,
            forall|j: int|
                0 <= j < i ==> (#[trigger] out@[j]).timestamp@ == spec_rfc3339_of(vals@[j].0 as int)
                    && out@[j].value == vals@[j].1,
        decreases vals@.len() - i,
    {
        let ts = match format_rfc3339_seconds(vals[i].0) {
            Some(t) => t,
            None => {
                return Err(
                    AppError::InternalServerError(String::from_str("instant out of range")),
                );
            },
        };
        out.push(MetricTimeseriesPoint { timestamp: ts, value: vals[i].1 });
        i += 1;
    }
    Ok(out)
}

} // verus!
