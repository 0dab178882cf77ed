use vstd::prelude::*;
use crate::entities::CustomerFeedback;
use crate::entities::CustomerFeedbackPayload;
use crate::entities::DriverPerformance;
use crate::entities::EndTripPayload;
use crate::entities::StartTripPayload;
use crate::entities::Trip;
use crate::entities::TripStatus;
use crate::errors::EntityKind;
use crate::errors::Message;
use crate::record::MAX_RECORD_BYTES;
use crate::record::Record;
use crate::record::check_fits;
use crate::store::FleetStore;
use crate::store::lemma_fresh_key;
use crate::store::lemma_table_ok_upsert;
use crate::store::perf_unique;
use crate::table::has_key;
use crate::table::lookup;
use crate::table::lemma_lookup_sorted;
use crate::table::sorted_keys;
use crate::table::table_upserted;

verus! {

// The performance tracker keeps one accrual record per (driver, month)
// bucket, found by a full scan and re-inserted under its own identifier.
// Trip completion and feedback submission both run through the same
// accrual path: a completed trip books its revenue, and a feedback event
// books its numeric rating, each on the trip's driver's current bucket.

/// Width of one coarse month bucket: thirty days in nanoseconds.
pub const MONTH_NANOS: u64 = 30 * 24 * 60 * 60 * 1000000000;

/// The month bucket that a timestamp falls in.
pub open spec fn month_of(now: u64) -> u64 {
    now / MONTH_NANOS
}

/// Whether an accrual record belongs to the `(driver_id, m)` bucket.
pub open spec fn perf_matches(p: DriverPerformance, driver_id: u64, m: u64) -> bool {
    p.driver_id == driver_id && p.month == m
}

/// The first accrual record of the `(driver_id, m)` bucket in scan order.
pub open spec fn find_perf(
    s: Seq<(u64, DriverPerformance)>,
    driver_id: u64,
    m: u64,
) -> Option<DriverPerformance>
    decreases s.len(),
{
    if s.len() == 0 {
        None
    } else if perf_matches(s[0].1, driver_id, m) {
        Some(s[0].1)
    } else {
        find_perf(s.drop_first(), driver_id, m)
    }
}

/// A scan that found no bucket record in the first `i` entries may
/// continue from entry `i`.
pub proof fn lemma_find_perf_skip(s: Seq<(u64, DriverPerformance)>, driver_id: u64, m: u64, i: int)
    requires
        0 <= i <= s.len(),
        forall|j: int| 0 <= j < i ==> !perf_matches((#[trigger] s[j]).1, driver_id, m),
    ensures
        find_perf(s, driver_id, m) == find_perf(s.skip(i), driver_id, m),
    decreases i,
{
    if i > 0 {
        let t = s.drop_first();
        assert(!perf_matches(s[0].1, driver_id, m));
        assert(forall|j: int| 0 <= j < i - 1 ==> !perf_matches((#[trigger] t[j]).1, driver_id, m));
        lemma_find_perf_skip(t, driver_id, m, i - 1);
        assert(t.skip(i - 1) =~= s.skip(i));
    } else {
        assert(s.skip(0) =~= s);
    }
}

/// A matching entry whose predecessors all miss decides the scan.
pub proof fn lemma_find_perf_from_entry(
    s: Seq<(u64, DriverPerformance)>,
    driver_id: u64,
    m: u64,
    i: int,
)
    requires
        0 <= i < s.len(),
        perf_matches(s[i].1, driver_id, m),
        forall|j: int| 0 <= j < i ==> !perf_matches((#[trigger] s[j]).1, driver_id, m),
    ensures
        find_perf(s, driver_id, m) == Some(s[i].1),
{
    lemma_find_perf_skip(s, driver_id, m, i);
    assert(s.skip(i)[0] == s[i]);
}

/// A bucket that no entry belongs to has no record.
pub proof fn lemma_find_perf_absent(s: Seq<(u64, DriverPerformance)>, driver_id: u64, m: u64)
    requires
        forall|j: int| 0 <= j < s.len() ==> !perf_matches((#[trigger] s[j]).1, driver_id, m),
    ensures
        find_perf(s, driver_id, m) is None,
{
    lemma_find_perf_skip(s, driver_id, m, s.len() as int);
    assert(s.skip(s.len() as int).len() == 0);
}

/// A found record stands somewhere in the entry list.
pub proof fn lemma_find_perf_entry(s: Seq<(u64, DriverPerformance)>, driver_id: u64, m: u64)
    requires
        find_perf(s, driver_id, m) is Some,
    ensures
        exists|i: int|
            0 <= i < s.len() && (#[trigger] s[i]).1 == find_perf(s, driver_id, m).unwrap()
                && perf_matches(s[i].1, driver_id, m),
    decreases s.len(),
{
    if perf_matches(s[0].1, driver_id, m) {
        assert(s[0].1 == find_perf(s, driver_id, m).unwrap());
    } else {
        let t = s.drop_first();
        lemma_find_perf_entry(t, driver_id, m);
        let i = choose|i: int|
            0 <= i < t.len() && (#[trigger] t[i]).1 == find_perf(t, driver_id, m).unwrap()
                && perf_matches(t[i].1, driver_id, m);
        assert(s[i + 1] == t[i]);
    }
}

/// A scan that comes up empty means no entry belongs to the bucket.
pub proof fn lemma_find_perf_none(s: Seq<(u64, DriverPerformance)>, driver_id: u64, m: u64)
    requires
        find_perf(s, driver_id, m) is None,
    ensures
        forall|j: int| 0 <= j < s.len() ==> !perf_matches((#[trigger] s[j]).1, driver_id, m),
    decreases s.len(),
{
    if s.len() > 0 {
        let t = s.drop_first();
        lemma_find_perf_none(t, driver_id, m);
        assert forall|j: int| 0 <= j < s.len() implies !perf_matches(
            (#[trigger] s[j]).1,
            driver_id,
            m,
        ) by {
            if j > 0 {
                assert(s[j] == t[j - 1]);
            }
        }
    }
}

/// An upsert that keeps every record of the bucket under one key
/// preserves bucket uniqueness.
pub proof fn lemma_perf_unique_upsert(
    s0: Seq<(u64, DriverPerformance)>,
    s1: Seq<(u64, DriverPerformance)>,
    k: u64,
    v: DriverPerformance,
)
    requires
        perf_unique(s0),
        sorted_keys(s1),
        table_upserted(s0, s1, k, v),
        forall|j: int|
            0 <= j < s0.len() && perf_matches((#[trigger] s0[j]).1, v.driver_id, v.month)
                ==> s0[j].0 == k,
    ensures
        perf_unique(s1),
{
    assert forall|i: int, j: int|
        0 <= i < s1.len() && 0 <= j < s1.len() && i != j implies !((#[trigger] s1[i]).1.driver_id
        == (#[trigger] s1[j]).1.driver_id && s1[i].1.month == s1[j].1.month) by {
        if s1[i].1.driver_id == s1[j].1.driver_id && s1[i].1.month == s1[j].1.month {
            assert(s1[i].0 != s1[j].0);
            if s1[i] == (k, v) {
                let j0 = choose|j0: int| 0 <= j0 < s0.len() && s0[j0] == s1[j];
                assert(perf_matches(s0[j0].1, v.driver_id, v.month));
                assert(s0[j0].0 == k);
                assert(false);
            } else if s1[j] == (k, v) {
                let i0 = choose|i0: int| 0 <= i0 < s0.len() && s0[i0] == s1[i];
                assert(perf_matches(s0[i0].1, v.driver_id, v.month));
                assert(s0[i0].0 == k);
                assert(false);
            } else {
                let i0 = choose|i0: int| 0 <= i0 < s0.len() && s0[i0] == s1[i];
                let j0 = choose|j0: int| 0 <= j0 < s0.len() && s0[j0] == s1[j];
                assert(s0[i0].0 != s0[j0].0);
                assert(false);
            }
        }
    }
}

/// Whether an accrual for `(driver_id, m)` can be booked: the bucket's
/// accumulators must not overflow, and a fresh bucket needs one fresh
/// identifier.
pub open spec fn accrue_can(
    s: Seq<(u64, DriverPerformance)>,
    next: u64,
    driver_id: u64,
    m: u64,
    delta: u64,
) -> bool {
    match find_perf(s, driver_id, m) {
        Some(p) => p.trips_completed < u32::MAX && p.total_revenue + delta <= u64::MAX,
        None => next < u64::MAX,
    }
}

/// The bucket record as it stands after one accrual: the existing record
/// with one more trip and the delta added, or a fresh record with one
/// trip, the delta as revenue, no rating yet and a full compliance score.
pub open spec fn accrued_record(
    s: Seq<(u64, DriverPerformance)>,
    next: u64,
    driver_id: u64,
    m: u64,
    delta: u64,
) -> DriverPerformance {
    match find_perf(s, driver_id, m) {
        Some(p) => (DriverPerformance {
            trips_completed: (p.trips_completed + 1) as u32,
            total_revenue: (p.total_revenue + delta) as u64,
            ..p
        }),
        None => (DriverPerformance {
            id: (next + 1) as u64,
            driver_id,
            month: m,
            trips_completed: 1,
            total_revenue: delta,
            customer_rating: 0,
            compliance_score: 100,
        }),
    }
}

/// What one successful accrual does to the performance store and the
/// counter.
pub open spec fn accrue_effect(
    pre_perf: Seq<(u64, DriverPerformance)>,
    pre_next: u64,
    post_perf: Seq<(u64, DriverPerformance)>,
    post_next: u64,
    driver_id: u64,
    m: u64,
    delta: u64,
) -> bool {
    let p1 = accrued_record(pre_perf, pre_next, driver_id, m, delta);
    &&& table_upserted(pre_perf, post_perf, p1.id, p1)
    &&& post_next == (if find_perf(pre_perf, driver_id, m) is Some {
        pre_next
    } else {
        (pre_next + 1) as u64
    })
}

/// What the accrual operation does.
pub open spec fn accrue_post(
    pre: FleetStore,
    post: FleetStore,
    driver_id: u64,
    delta: u64,
    now: u64,
    r: Result<DriverPerformance, Message>,
) -> bool {
    let m = month_of(now);
    let can = accrue_can(pre.performance@, pre.next_id, driver_id, m, delta);
    &&& !can ==> r == Err::<DriverPerformance, Message>(Message::InvariantViolation) && post == pre
    &&& can ==> {
        &&& r == Ok::<DriverPerformance, Message>(
            accrued_record(pre.performance@, pre.next_id, driver_id, m, delta),
        )
        &&& accrue_effect(
            pre.performance@,
            pre.next_id,
            post.performance@,
            post.next_id,
            driver_id,
            m,
            delta,
        )
        &&& post == (FleetStore {
            next_id: post.next_id,
            performance: post.performance,
            ..pre
        })
    }
}

/// What starting a trip does.
pub open spec fn start_trip_post(
    pre: FleetStore,
    post: FleetStore,
    payload: StartTripPayload,
    now: u64,
    r: Result<Trip, Message>,
) -> bool {
    let no_matatu = !has_key(pre.matatus@, payload.matatu_id);
    let no_driver = !has_key(pre.drivers@, payload.driver_id);
    let trip = (Trip {
        id: (pre.next_id + 1) as u64,
        matatu_id: payload.matatu_id,
        driver_id: payload.driver_id,
        start_time: now,
        end_time: None,
        passengers: 0,
        route: payload.route,
        status: TripStatus::Ongoing,
        revenue: 0,
    });
    &&& no_matatu ==> r == Err::<Trip, Message>(Message::NotFound(EntityKind::Matatu)) && post
        == pre
    &&& !no_matatu && no_driver ==> r == Err::<Trip, Message>(Message::NotFound(EntityKind::Driver))
        && post == pre
    &&& !no_matatu && !no_driver && pre.next_id == u64::MAX ==> r == Err::<Trip, Message>(
        Message::InvariantViolation,
    ) && post == pre
    &&& !no_matatu && !no_driver && pre.next_id < u64::MAX && trip.encoded_size()
        > MAX_RECORD_BYTES as nat ==> r == Err::<Trip, Message>(Message::SizeExceeded) && post
        == pre
    &&& !no_matatu && !no_driver && pre.next_id < u64::MAX && trip.encoded_size()
        <= MAX_RECORD_BYTES as nat ==> {
        &&& r == Ok::<Trip, Message>(trip)
        &&& post.next_id == pre.next_id + 1
        &&& table_upserted(pre.trips@, post.trips@, trip.id, trip)
        &&& post.trips@.len() == pre.trips@.len() + 1
        &&& post == (FleetStore { next_id: post.next_id, trips: post.trips, ..pre })
    }
}

/// What ending a trip does.  A trip ends exactly once: any state but
/// `Ongoing` is refused with `Error` and nothing is written, neither the
/// trip's fields nor any accrual.
pub open spec fn end_trip_post(
    pre: FleetStore,
    post: FleetStore,
    payload: EndTripPayload,
    now: u64,
    r: Result<Trip, Message>,
) -> bool {
    let t0 = lookup(pre.trips@, payload.trip_id);
    &&& t0 is None ==> r == Err::<Trip, Message>(Message::NotFound(EntityKind::Trip)) && post
        == pre
    &&& (t0 is Some && !(t0.unwrap().status is Ongoing)) ==> r == Err::<Trip, Message>(
        Message::Error,
    ) && post == pre
    &&& (t0 is Some && t0.unwrap().status is Ongoing) ==> {
        let t = t0.unwrap();
        let m = month_of(now);
        let can = accrue_can(pre.performance@, pre.next_id, t.driver_id, m, payload.revenue);
        let t1 = (Trip {
            end_time: Some(now),
            passengers: payload.passengers,
            revenue: payload.revenue,
            status: TripStatus::Completed,
            ..t
        });
        &&& !can ==> r == Err::<Trip, Message>(Message::InvariantViolation) && post == pre
        &&& can ==> {
            &&& r == Ok::<Trip, Message>(t1)
            &&& accrue_effect(
                pre.performance@,
                pre.next_id,
                post.performance@,
                post.next_id,
                t.driver_id,
                m,
                payload.revenue,
            )
            &&& table_upserted(pre.trips@, post.trips@, payload.trip_id, t1)
            &&& post == (FleetStore {
                next_id: post.next_id,
                performance: post.performance,
                trips: post.trips,
                ..pre
            })
        }
    }
}

/// What submitting feedback does.  The feedback record is always
/// persisted.  When the trip exists, its numeric rating is additionally
/// booked through the accrual path on the trip's driver's current-month
/// bucket; feedback on an unknown trip is stored without any accrual, as
/// submitting feedback has no failure mode for a missing trip.
pub open spec fn submit_feedback_post(
    pre: FleetStore,
    post: FleetStore,
    payload: CustomerFeedbackPayload,
    now: u64,
    r: Result<CustomerFeedback, Message>,
) -> bool {
    let fb = (CustomerFeedback {
        id: (pre.next_id + 1) as u64,
        trip_id: payload.trip_id,
        rating: payload.rating,
        cleanliness: payload.cleanliness,
        punctuality: payload.punctuality,
        safety: payload.safety,
        comment: payload.comment,
        timestamp: now,
    });
    let m = month_of(now);
    let t0 = lookup(pre.trips@, payload.trip_id);
    let can_id = pre.next_id < u64::MAX;
    let can_acc = match t0 {
        Some(t) => accrue_can(
            pre.performance@,
            (pre.next_id + 1) as u64,
            t.driver_id,
            m,
            payload.rating as u64,
        ),
        None => true,
    };
    &&& !can_id ==> r == Err::<CustomerFeedback, Message>(Message::InvariantViolation) && post
        == pre
    &&& can_id && fb.encoded_size() > MAX_RECORD_BYTES as nat ==> r == Err::<
        CustomerFeedback,
        Message,
    >(Message::SizeExceeded) && post == pre
    &&& can_id && fb.encoded_size() <= MAX_RECORD_BYTES as nat && !can_acc ==> r == Err::<
        CustomerFeedback,
        Message,
    >(Message::InvariantViolation) && post == pre
    &&& can_id && fb.encoded_size() <= MAX_RECORD_BYTES as nat && can_acc ==> {
        &&& r == Ok::<CustomerFeedback, Message>(fb)
        &&& table_upserted(pre.feedback@, post.feedback@, fb.id, fb)
        &&& post.feedback@.len() == pre.feedback@.len() + 1
        &&& t0 is Some ==> accrue_effect(
            pre.performance@,
            (pre.next_id + 1) as u64,
            post.performance@,
            post.next_id,
            t0.unwrap().driver_id,
            m,
            payload.rating as u64,
        )
        &&& t0 is None ==> post.performance == pre.performance && post.next_id == pre.next_id + 1
        &&& post == (FleetStore {
            next_id: post.next_id,
            feedback: post.feedback,
            performance: post.performance,
            ..pre
        })
    }
}

impl FleetStore {
    /// Starts a trip for an existing vehicle and driver: the trip is
    /// created `Ongoing`, with no end time, no passengers and no revenue
    /// yet.
    pub fn start_trip(&mut self, payload: StartTripPayload, now: u64) -> (r: Result<Trip, Message>)
        requires
            old(self).wf(),
        ensures
            final(self).wf(),
            start_trip_post(*old(self), *final(self), payload, now, r),
    {
        if !self.matatus.contains(payload.matatu_id) {
            return Err(Message::NotFound(EntityKind::Matatu));
        }
        if !self.drivers.contains(payload.driver_id) {
            return Err(Message::NotFound(EntityKind::Driver));
        }
        if self.next_id == u64::MAX {
            return Err(Message::InvariantViolation);
        }
        let id = self.next_id + 1;
        let trip = Trip {
            id,
            matatu_id: payload.matatu_id,
            driver_id: payload.driver_id,
            start_time: now,
            end_time: None,
            passengers: 0,
            route: payload.route,
            status: TripStatus::Ongoing,
            revenue: 0,
        };
        if !check_fits(&trip) {
            return Err(Message::SizeExceeded);
        }
        let ret = trip.clone();
        proof {
            lemma_fresh_key(self.trips@, self.next_id, id);
        }
        self.next_id = id;
        match self.trips.insert(id, trip) {
            Ok(()) => {},
            Err(e) => {
                return Err(e);
            },
        }
        proof {
            lemma_table_ok_upsert(
                old(self).trips@,
                self.trips@,
                old(self).next_id,
                self.next_id,
                id,
                ret,
            );
        }
        Ok(ret)
    }

    /// Completes an `Ongoing` trip: sets its end time, passenger count
    /// and revenue, and books the revenue on the driver's current month
    /// bucket.  A trip that is already `Completed` or `Cancelled` is
    /// refused with `Error` and nothing changes.
    pub fn end_trip(&mut self, payload: EndTripPayload, now: u64) -> (r: Result<Trip, Message>)
        requires
            old(self).wf(),
        ensures
            final(self).wf(),
            end_trip_post(*old(self), *final(self), payload, now, r),
    {
        let t = match self.trips.get(payload.trip_id) {
            Some(t) => t.clone(),
            None => {
                return Err(Message::NotFound(EntityKind::Trip));
            },
        };
        match t.status {
            TripStatus::Ongoing => {},
            _ => {
                return Err(Message::Error);
            },
        }
        match self.update_driver_performance(t.driver_id, payload.revenue, now) {
            Ok(_) => {},
            Err(e) => {
                return Err(e);
            },
        }
        let t1 = Trip {
            id: t.id,
            matatu_id: t.matatu_id,
            driver_id: t.driver_id,
            start_time: t.start_time,
            end_time: Some(now),
            passengers: payload.passengers,
            route: t.route,
            status: TripStatus::Completed,
            revenue: payload.revenue,
        };
        let ret = t1.clone();
        proof {
            // the stored trip record is bounded, and the completion
            // changes no field that the footprint depends on
            let s = old(self).trips@;
            assert(has_key(s, payload.trip_id));
            lemma_lookup_sorted(s, payload.trip_id);
            let i = choose|i: int| 0 <= i < s.len() && (#[trigger] s[i]).0 == payload.trip_id;
            assert(lookup(s, payload.trip_id) == Some(s[i].1));
            assert(s[i].1.encoded_size() <= MAX_RECORD_BYTES as nat);
            assert(t1.encoded_size() == s[i].1.encoded_size());
            assert(t1.id == s[i].0);
        }
        match self.trips.insert(payload.trip_id, t1) {
            Ok(()) => {},
            Err(e) => {
                return Err(e);
            },
        }
        proof {
            lemma_table_ok_upsert(
                old(self).trips@,
                self.trips@,
                old(self).next_id,
                self.next_id,
                payload.trip_id,
                ret,
            );
        }
        Ok(ret)
    }

    /// Persists a feedback record, and, when the trip exists, books the
    /// numeric rating through the accrual path on the trip's driver's
    /// current-month bucket.  Feedback on an unknown trip is stored
    /// without any accrual.
    pub fn submit_feedback(&mut self, payload: CustomerFeedbackPayload, now: u64) -> (r: Result<
        CustomerFeedback,
        Message,
    >)
        requires
            old(self).wf(),
        ensures
            final(self).wf(),
            submit_feedback_post(*old(self), *final(self), payload, now, r),
    {
        let driver_opt: Option<u64> = match self.trips.get(payload.trip_id) {
            Some(t) => Some(t.driver_id),
            None => None,
        };
        if self.next_id == u64::MAX {
            return Err(Message::InvariantViolation);
        }
        let id = self.next_id + 1;
        let fb = CustomerFeedback {
            id,
            trip_id: payload.trip_id,
            rating: payload.rating,
            cleanliness: payload.cleanliness,
            punctuality: payload.punctuality,
            safety: payload.safety,
            comment: payload.comment,
            timestamp: now,
        };
        if !check_fits(&fb) {
            return Err(Message::SizeExceeded);
        }
        let m = now / MONTH_NANOS;
        let can_acc = match driver_opt {
            Some(d) => match self.find_performance(d, m) {
                Some(p) => p.trips_completed < u32::MAX && payload.rating as u64 <= u64::MAX
                    - p.total_revenue,
                None => id < u64::MAX,
            },
            None => true,
        };
        if !can_acc {
            return Err(Message::InvariantViolation);
        }
        let ret = fb.clone();
        proof {
            lemma_fresh_key(self.feedback@, self.next_id, id);
        }
        self.next_id = id;
        match self.feedback.insert(id, fb) {
            Ok(()) => {},
            Err(e) => {
                return Err(e);
            },
        }
        proof {
            lemma_table_ok_upsert(
                old(self).feedback@,
                self.feedback@,
                old(self).next_id,
                self.next_id,
                id,
                ret,
            );
        }
        match driver_opt {
            Some(d) => {
                match self.update_driver_performance(d, payload.rating as u64, now) {
                    Ok(_) => {},
                    Err(e) => {
                        return Err(e);
                    },
                }
            },
            None => {},
        }
        Ok(ret)
    }

    /// Full scan for the `(driver_id, m)` bucket record.
    pub fn find_performance(&self, driver_id: u64, m: u64) -> (r: Option<DriverPerformance>)
        ensures
            r == find_perf(self.performance@, driver_id, m),
    {
        let n = self.performance.len();
        let mut i: usize = 0;
        while i < n
            invariant
                n == self.performance@.len(),
                0 <= i <= n,
                forall|j: int|
                    0 <= j < i ==> !perf_matches((#[trigger] self.performance@[j]).1, driver_id, m),
            decreases n - i,
        {
            let e = self.performance.entry_at(i);
            if e.1.driver_id == driver_id && e.1.month == m {
                proof {
                    lemma_find_perf_from_entry(self.performance@, driver_id, m, i as int);
                }
                return Some(e.1);
            }
            i = i + 1;
        }
        proof {
            lemma_find_perf_absent(self.performance@, driver_id, m);
        }
        None
    }

    /// The accrual record of `(driver_id, month)`, or `NotFound` if that
    /// bucket has never accrued.
    pub fn get_driver_performance(&self, driver_id: u64, month: u64) -> (r: Result<
        DriverPerformance,
        Message,
    >)
        ensures
            r == match find_perf(self.performance@, driver_id, month) {
                Some(p) => Ok::<DriverPerformance, Message>(p),
                None => Err::<DriverPerformance, Message>(
                    Message::NotFound(EntityKind::Performance),
                ),
            },
    {
        match self.find_performance(driver_id, month) {
            Some(p) => Ok(p),
            None => Err(Message::NotFound(EntityKind::Performance)),
        }
    }

    /// Books one accrual on the `(driver_id, current month)` bucket:
    /// one more completed trip and `trip_revenue` more revenue, creating
    /// the bucket (under a fresh identifier) if absent.  The accumulators
    /// only ever increase; overflow is a fatal `InvariantViolation` and
    /// leaves the store untouched.
    pub fn update_driver_performance(&mut self, driver_id: u64, trip_revenue: u64, now: u64) -> (r:
        Result<DriverPerformance, Message>)
        requires
            old(self).wf(),
        ensures
            final(self).wf(),
            accrue_post(*old(self), *final(self), driver_id, trip_revenue, now, r),
    {
        let m = now / MONTH_NANOS;
        match self.find_performance(driver_id, m) {
            Some(p) => {
                if p.trips_completed == u32::MAX {
                    return Err(Message::InvariantViolation);
                }
                if trip_revenue > u64::MAX - p.total_revenue {
                    return Err(Message::InvariantViolation);
                }
                let p1 = DriverPerformance {
                    trips_completed: p.trips_completed + 1,
                    total_revenue: p.total_revenue + trip_revenue,
                    ..p
                };
                proof {
                    lemma_find_perf_entry(self.performance@, driver_id, m);
                    let i = choose|i: int|
                        0 <= i < self.performance@.len() && (#[trigger] self.performance@[i]).1
                            == p && perf_matches(self.performance@[i].1, driver_id, m);
                    assert(self.performance@[i].0 == p.id);
                    assert(has_key(self.performance@, p.id));
                }
                match self.performance.insert(p.id, p1) {
                    Ok(()) => {},
                    Err(e) => {
                        return Err(e);
                    },
                }
                proof {
                    lemma_table_ok_upsert(
                        old(self).performance@,
                        self.performance@,
                        old(self).next_id,
                        self.next_id,
                        p.id,
                        p1,
                    );
                    assert forall|j: int|
                        0 <= j < old(self).performance@.len() && perf_matches(
                            (#[trigger] old(self).performance@[j]).1,
                            p1.driver_id,
                            p1.month,
                        ) implies old(self).performance@[j].0 == p.id by {
                        let i = choose|i: int|
                            0 <= i < old(self).performance@.len() && (#[trigger] old(
                                self,
                            ).performance@[i]).1 == p && perf_matches(
                                old(self).performance@[i].1,
                                driver_id,
                                m,
                            );
                        assert(j == i);
                    }
                    lemma_perf_unique_upsert(old(self).performance@, self.performance@, p.id, p1);
                }
                Ok(p1)
            },
            None => {
                if self.next_id == u64::MAX {
                    return Err(Message::InvariantViolation);
                }
                let id = self.next_id + 1;
                let p1 = DriverPerformance {
                    id,
                    driver_id,
                    month: m,
                    trips_completed: 1,
                    total_revenue: trip_revenue,
                    customer_rating: 0,
                    compliance_score: 100,
                };
                proof {
                    lemma_fresh_key(self.performance@, self.next_id, id);
                }
                self.next_id = id;
                match self.performance.insert(id, p1) {
                    Ok(()) => {},
                    Err(e) => {
                        return Err(e);
                    },
                }
                proof {
                    lemma_table_ok_upsert(
                        old(self).performance@,
                        self.performance@,
                        old(self).next_id,
                        self.next_id,
                        id,
                        p1,
                    );
                    lemma_find_perf_none(old(self).performance@, driver_id, m);
                    lemma_perf_unique_upsert(old(self).performance@, self.performance@, id, p1);
                }
                Ok(p1)
            },
        }
    }
}

} // verus!
