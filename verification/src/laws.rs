use vstd::prelude::*;
use vstd::arithmetic::div_mod::lemma_fundamental_div_mod;
use vstd::arithmetic::div_mod::lemma_mod_bound;
use vstd::arithmetic::mul::lemma_mul_is_distributive_add;
use crate::analytics::revenue_breakdown_ok;
use crate::analytics::rs_amount_sum;
use crate::analytics::RevenueWindow;
use crate::aggregate::sum_sel;
use crate::entities::DriverPerformance;
use crate::entities::Revenue;
use crate::entities::RevenueSource;
use crate::perf::accrue_effect;
use crate::perf::accrued_record;
use crate::perf::find_perf;
use crate::perf::lemma_find_perf_from_entry;
use crate::perf::lemma_find_perf_none;
use crate::perf::lemma_perf_unique_upsert;
use crate::perf::perf_matches;
use crate::store::FleetStore;
use crate::store::lemma_fresh_key;
use crate::store::perf_unique;
use crate::table::has_key;
use crate::table::lookup;
use crate::table::lemma_lookup_sorted;
use crate::table::sorted_keys;

verus! {

// The crate-level laws: statements that relate several operations, proved
// once and for all from the operations' contracts.

/// An identifier fresh from the allocator keys no record in any store:
/// with the store well formed, `next_id + 1` has never been handed out,
/// so no insert can ever have used it.
pub proof fn lemma_fresh_id_unused(s: FleetStore)
    requires
        s.wf(),
        s.next_id < u64::MAX,
    ensures
        !has_key(s.saccos@, (s.next_id + 1) as u64),
        !has_key(s.matatus@, (s.next_id + 1) as u64),
        !has_key(s.drivers@, (s.next_id + 1) as u64),
        !has_key(s.trips@, (s.next_id + 1) as u64),
        !has_key(s.maintenance_records@, (s.next_id + 1) as u64),
        !has_key(s.performance@, (s.next_id + 1) as u64),
        !has_key(s.expenses@, (s.next_id + 1) as u64),
        !has_key(s.revenues@, (s.next_id + 1) as u64),
        !has_key(s.fuel_records@, (s.next_id + 1) as u64),
        !has_key(s.routes@, (s.next_id + 1) as u64),
        !has_key(s.feedback@, (s.next_id + 1) as u64),
        !has_key(s.schedules@, (s.next_id + 1) as u64),
        !has_key(s.location_updates@, (s.next_id + 1) as u64),
        !has_key(s.reports@, (s.next_id + 1) as u64),
{
    let k = (s.next_id + 1) as u64;
    lemma_fresh_key(s.saccos@, s.next_id, k);
    lemma_fresh_key(s.matatus@, s.next_id, k);
    lemma_fresh_key(s.drivers@, s.next_id, k);
    lemma_fresh_key(s.trips@, s.next_id, k);
    lemma_fresh_key(s.maintenance_records@, s.next_id, k);
    lemma_fresh_key(s.performance@, s.next_id, k);
    lemma_fresh_key(s.expenses@, s.next_id, k);
    lemma_fresh_key(s.revenues@, s.next_id, k);
    lemma_fresh_key(s.fuel_records@, s.next_id, k);
    lemma_fresh_key(s.routes@, s.next_id, k);
    lemma_fresh_key(s.feedback@, s.next_id, k);
    lemma_fresh_key(s.schedules@, s.next_id, k);
    lemma_fresh_key(s.location_updates@, s.next_id, k);
    lemma_fresh_key(s.reports@, s.next_id, k);
}

/// Identifiers are strictly increasing and never repeat across the
/// lifetime of the store, whatever entity types the allocations mix:
/// every allocating operation returns an identifier strictly above the
/// counter it started from and leaves the counter at or above that
/// identifier (as the operations' contracts state), so of any two
/// allocations in sequence the later one strictly exceeds the earlier.
pub proof fn lemma_identifiers_strictly_increase(
    pre: FleetStore,
    mid: FleetStore,
    post: FleetStore,
    id1: u64,
    id2: u64,
)
    requires
        pre.next_id < id1,
        id1 <= mid.next_id,
        mid.next_id < id2,
        id2 <= post.next_id,
    ensures
        id2 > id1,
        post.next_id >= pre.next_id,
{
}

/// Sum of the percentages of a revenue breakdown.
pub open spec fn rs_pct_sum(s: Seq<RevenueSource>) -> int
    decreases s.len(),
{
    if s.len() == 0 {
        0
    } else {
        rs_pct_sum(s.drop_last()) + s.last().percentage as int
    }
}

proof fn lemma_rs_pct_sum_bounds(out: Seq<RevenueSource>, t: int)
    requires
        t >= 1,
        forall|i: int|
            0 <= i < out.len() ==> (#[trigger] out[i]).percentage as int == (out[i].amount as int
                * 100) / t,
    ensures
        t * rs_pct_sum(out) <= 100 * rs_amount_sum(out),
        t * rs_pct_sum(out) >= 100 * rs_amount_sum(out) - out.len() * (t - 1),
    decreases out.len(),
{
    if out.len() > 0 {
        let u = out.drop_last();
        assert(forall|i: int| 0 <= i < u.len() ==> u[i] == out[i]);
        lemma_rs_pct_sum_bounds(u, t);
        let a = out.last().amount as int;
        let p = out.last().percentage as int;
        assert(out[out.len() - 1] == out.last());
        assert(p == (a * 100) / t);
        lemma_fundamental_div_mod(a * 100, t);
        lemma_mod_bound(a * 100, t);
        lemma_mul_is_distributive_add(t, rs_pct_sum(u), p);
        assert(t * rs_pct_sum(out) == t * rs_pct_sum(u) + t * p);
        assert(t * p == a * 100 - (a * 100) % t);
        assert(100 * rs_amount_sum(out) == 100 * rs_amount_sum(u) + 100 * a);
        assert(out.len() * (t - 1) == u.len() * (t - 1) + (t - 1)) by (nonlinear_arith)
            requires
                out.len() == u.len() + 1,
        ;
    }
}

/// Whenever the revenue rows of the window sum to a positive total, the
/// breakdown percentages cover it: their sum lies in the interval
/// `(100 - lines, 100]`, that is, one hundred within the truncation loss
/// of at most one percent per line.
pub proof fn lemma_breakdown_percentages_cover_total(
    rows: Seq<(u64, Revenue)>,
    sacco_id: u64,
    start: u64,
    end: u64,
    out: Seq<RevenueSource>,
)
    requires
        revenue_breakdown_ok(rows, sacco_id, start, end, out),
        sum_sel(rows, (RevenueWindow { sacco_id, start, end })) > 0,
    ensures
        100 - out.len() < rs_pct_sum(out) <= 100,
{
    let t = sum_sel(rows, (RevenueWindow { sacco_id, start, end })) as int;
    if out.len() == 0 {
        assert(rs_amount_sum(out) == 0);
    }
    assert(out.len() >= 1);
    lemma_rs_pct_sum_bounds(out, t);
    assert(rs_amount_sum(out) as int == t);
    let psum = rs_pct_sum(out);
    let len = out.len() as int;
    assert(psum <= 100 && psum > 100 - len) by (nonlinear_arith)
        requires
            t >= 1,
            len >= 1,
            t * psum <= 100 * t,
            t * psum >= 100 * t - len * (t - 1),
    ;
}

/// When the window total is zero, every breakdown percentage is zero.
pub proof fn lemma_breakdown_percentages_zero_total(
    rows: Seq<(u64, Revenue)>,
    sacco_id: u64,
    start: u64,
    end: u64,
    out: Seq<RevenueSource>,
)
    requires
        revenue_breakdown_ok(rows, sacco_id, start, end, out),
        sum_sel(rows, (RevenueWindow { sacco_id, start, end })) == 0,
    ensures
        forall|i: int| 0 <= i < out.len() ==> (#[trigger] out[i]).percentage == 0,
{
}

/// Accruing twice on the same `(driver, month)` bucket, starting with no
/// record for it, yields one single record with two trips completed and
/// the two deltas summed -- never two separate records.
pub proof fn lemma_accrue_twice_same_bucket(
    s0: Seq<(u64, DriverPerformance)>,
    n0: u64,
    s1: Seq<(u64, DriverPerformance)>,
    n1: u64,
    s2: Seq<(u64, DriverPerformance)>,
    n2: u64,
    driver_id: u64,
    m: u64,
    d1: u64,
    d2: u64,
)
    requires
        perf_unique(s0),
        sorted_keys(s1),
        sorted_keys(s2),
        find_perf(s0, driver_id, m) is None,
        accrue_effect(s0, n0, s1, n1, driver_id, m, d1),
        accrue_effect(s1, n1, s2, n2, driver_id, m, d2),
        n0 < u64::MAX,
        d1 + d2 <= u64::MAX,
    ensures
        find_perf(s2, driver_id, m) is Some,
        find_perf(s2, driver_id, m).unwrap().trips_completed == 2,
        find_perf(s2, driver_id, m).unwrap().total_revenue == d1 + d2,
        forall|i: int, j: int|
            0 <= i < s2.len() && 0 <= j < s2.len() && perf_matches(
                (#[trigger] s2[i]).1,
                driver_id,
                m,
            ) && perf_matches((#[trigger] s2[j]).1, driver_id, m) ==> i == j,
{
    let p1 = accrued_record(s0, n0, driver_id, m, d1);
    lemma_find_perf_none(s0, driver_id, m);
    lemma_perf_unique_upsert(s0, s1, p1.id, p1);
    // the first accrual's record is the unique bucket record of `s1`
    lemma_lookup_sorted(s1, p1.id);
    assert(has_key(s1, p1.id));
    let i1 = choose|i: int| 0 <= i < s1.len() && (#[trigger] s1[i]).0 == p1.id;
    assert(lookup(s1, p1.id) == Some(s1[i1].1));
    assert(s1[i1].1 == p1);
    assert forall|j: int| 0 <= j < i1 implies !perf_matches(
        (#[trigger] s1[j]).1,
        driver_id,
        m,
    ) by {
        if perf_matches(s1[j].1, driver_id, m) {
            assert(perf_matches(s1[i1].1, driver_id, m));
            assert(false);
        }
    }
    lemma_find_perf_from_entry(s1, driver_id, m, i1);
    assert(find_perf(s1, driver_id, m) == Some(p1));
    let p2 = accrued_record(s1, n1, driver_id, m, d2);
    assert(p2.trips_completed == 2);
    assert(p2.total_revenue == d1 + d2);
    assert(p2.id == p1.id);
    // all bucket records of `s1` sit under that one key
    assert forall|j: int|
        0 <= j < s1.len() && perf_matches((#[trigger] s1[j]).1, p2.driver_id, p2.month) implies
        s1[j].0 == p1.id by {
        assert(perf_matches(s1[i1].1, driver_id, m));
        assert(j == i1);
    }
    lemma_perf_unique_upsert(s1, s2, p2.id, p2);
    // the second accrual's record is the unique bucket record of `s2`
    lemma_lookup_sorted(s2, p2.id);
    assert(has_key(s2, p2.id));
    let i2 = choose|i: int| 0 <= i < s2.len() && (#[trigger] s2[i]).0 == p2.id;
    assert(lookup(s2, p2.id) == Some(s2[i2].1));
    assert(s2[i2].1 == p2);
    assert forall|j: int| 0 <= j < i2 implies !perf_matches(
        (#[trigger] s2[j]).1,
        driver_id,
        m,
    ) by {
        if perf_matches(s2[j].1, driver_id, m) {
            assert(perf_matches(s2[i2].1, driver_id, m));
            assert(false);
        }
    }
    lemma_find_perf_from_entry(s2, driver_id, m, i2);
    assert forall|i: int, j: int|
        0 <= i < s2.len() && 0 <= j < s2.len() && perf_matches(
            (#[trigger] s2[i]).1,
            driver_id,
            m,
        ) && perf_matches((#[trigger] s2[j]).1, driver_id, m) implies i == j by {
    }
}

} // verus!
