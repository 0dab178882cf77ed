use vstd::prelude::*;
use vstd::arithmetic::div_mod::lemma_fundamental_div_mod_converse_div;
use vstd::arithmetic::div_mod::lemma_fundamental_div_mod_converse_mod;
use crate::entities::LocationUpdate;
use crate::entities::LocationUpdatePayload;
use crate::entities::Route;
use crate::entities::RouteOptimization;
use crate::entities::Schedule;
use crate::entities::ScheduleStatus;
use crate::entities::TimeWindow;
use crate::entities::TrafficPattern;
use crate::errors::EntityKind;
use crate::errors::Message;
use crate::record::Record;
use crate::store::FleetStore;
use crate::store::active_of;
use crate::store::drivers_of;
use crate::store::lemma_fresh_key;
use crate::store::lemma_table_ok_upsert;
use crate::table::has_key;
use crate::table::lookup;
use crate::table::table_upserted;

verus! {

// Route optimization matches the current time to a route's traffic
// windows; automated scheduling pairs available vehicles and drivers
// positionally and emits one schedule per (pair, route, demand window);
// the location-update path re-estimates the end time of every in-flight
// schedule of the reporting vehicle.

/// Bound on the offset that scheduling arithmetic adds to a date: a full
/// day of seconds plus the longest possible ride, rounded up.
pub const SCHEDULE_HEADROOM: u64 = 258000000000;

/// Hour of day that a timestamp in seconds falls in.
pub open spec fn hour_of(now: u64) -> u64 {
    (now / 3600) % 24
}

/// Day of week that a timestamp in seconds falls in, 0 through 6.
pub open spec fn day_of(now: u64) -> u64 {
    (now / 86400) % 7
}

/// Whether a demand window covers the given day and hour.
pub open spec fn window_covers(w: TimeWindow, day: u64, hour: u64) -> bool {
    w.day_of_week as u64 == day && w.start_hour as u64 <= hour && hour < w.end_hour as u64
}

/// The zero-congestion pattern that route optimization falls back to when
/// no window matches the current time.
pub open spec fn default_pattern() -> TrafficPattern {
    TrafficPattern {
        time_window: (TimeWindow { start_hour: 0, end_hour: 0, day_of_week: 0 }),
        congestion_level: 0,
        average_delay: 0,
    }
}

/// The first traffic pattern whose window covers the given day and hour,
/// ties broken by list order, or the zero-congestion default.
pub open spec fn first_pattern(ps: Seq<TrafficPattern>, day: u64, hour: u64) -> TrafficPattern
    decreases ps.len(),
{
    if ps.len() == 0 {
        default_pattern()
    } else if window_covers(ps[0].time_window, day, hour) {
        ps[0]
    } else {
        first_pattern(ps.drop_first(), day, hour)
    }
}

/// A scan that found no covering window in the first `i` patterns may
/// continue from pattern `i`.
pub proof fn lemma_first_pattern_skip(ps: Seq<TrafficPattern>, day: u64, hour: u64, i: int)
    requires
        0 <= i <= ps.len(),
        forall|j: int| 0 <= j < i ==> !window_covers((#[trigger] ps[j]).time_window, day, hour),
    ensures
        first_pattern(ps, day, hour) == first_pattern(ps.skip(i), day, hour),
    decreases i,
{
    if i > 0 {
        let t = ps.drop_first();
        assert(!window_covers(ps[0].time_window, day, hour));
        assert(forall|j: int|
            0 <= j < i - 1 ==> !window_covers((#[trigger] t[j]).time_window, day, hour));
        lemma_first_pattern_skip(t, day, hour, i - 1);
        assert(t.skip(i - 1) =~= ps.skip(i));
    } else {
        assert(ps.skip(0) =~= ps);
    }
}

/// Congestion-adjusted duration: the base estimate scaled by
/// `1 + congestion / 5`, truncated, and saturated at the field's width.
pub open spec fn duration_of(est: u32, c: u8) -> int {
    let x = (est * (5 + c)) / 5;
    if x > u32::MAX {
        u32::MAX as int
    } else {
        x
    }
}

/// What route optimization computes: the first matching traffic pattern
/// (or the zero-congestion default), the scaled duration, and a start
/// time ten minutes out.
pub open spec fn optimize_post(
    pre: FleetStore,
    route_id: u64,
    now: u64,
    r: Result<RouteOptimization, Message>,
) -> bool {
    let ro = lookup(pre.routes@, route_id);
    &&& ro is None ==> r == Err::<RouteOptimization, Message>(Message::NotFound(EntityKind::Route))
    &&& ro is Some ==> {
        let route = ro.unwrap();
        let p = first_pattern(route.traffic_patterns@, day_of(now), hour_of(now));
        &&& r is Ok
        &&& r.unwrap().route_id == route_id
        &&& r.unwrap().optimal_start_time == now + 600
        &&& r.unwrap().estimated_duration as int == duration_of(
            route.estimated_time,
            p.congestion_level,
        )
        &&& r.unwrap().congestion_level == p.congestion_level
        &&& r.unwrap().alternate_routes@.len() == 0
    }
}

/// The re-estimated arrival time after a telemetry sample: the remaining
/// distance is a placeholder zero in this core, so the estimate collapses
/// to the sample's own timestamp, whatever the speed.
pub open spec fn arrival_of(loc: LocationUpdate) -> u64 {
    loc.timestamp
}

/// A schedule after the re-estimation pass: an in-flight schedule of the
/// reporting vehicle gets the new end time; every other schedule is
/// untouched.
pub open spec fn retimed(s: Schedule, matatu_id: u64, loc: LocationUpdate) -> Schedule {
    if s.matatu_id == matatu_id && s.status is InProgress {
        Schedule { end_time: arrival_of(loc), ..s }
    } else {
        s
    }
}

/// What a location update does: the sample is persisted under a fresh
/// identifier, and every in-flight schedule of the vehicle is re-timed.
pub open spec fn update_location_post(
    pre: FleetStore,
    post: FleetStore,
    payload: LocationUpdatePayload,
    now: u64,
    r: Result<LocationUpdate, Message>,
) -> bool {
    let row = (LocationUpdate {
        id: (pre.next_id + 1) as u64,
        matatu_id: payload.matatu_id,
        latitude: payload.latitude,
        longitude: payload.longitude,
        speed: payload.speed,
        timestamp: now,
    });
    &&& pre.next_id == u64::MAX ==> r == Err::<LocationUpdate, Message>(
        Message::InvariantViolation,
    ) && post == pre
    &&& pre.next_id < u64::MAX ==> {
        &&& r == Ok::<LocationUpdate, Message>(row)
        &&& post.next_id == pre.next_id + 1
        &&& table_upserted(pre.location_updates@, post.location_updates@, row.id, row)
        &&& post.location_updates@.len() == pre.location_updates@.len() + 1
        &&& post.schedules@.len() == pre.schedules@.len()
        &&& forall|i: int|
            0 <= i < pre.schedules@.len() ==> post.schedules@[i] == (((
            #[trigger] pre.schedules@[i]).0, retimed(pre.schedules@[i].1, payload.matatu_id, row)))
        &&& post == (FleetStore {
            next_id: post.next_id,
            location_updates: post.location_updates,
            schedules: post.schedules,
            ..pre
        })
    }
}

/// One demand window of one route, flattened in route order: the route's
/// identifier, the window, and the route's base duration estimate.
pub open spec fn wins_of_route(r: Route) -> Seq<(u64, TimeWindow, u32)> {
    Seq::new(r.peak_hours@.len(), |i: int| (r.id, r.peak_hours@[i], r.estimated_time))
}

/// All demand windows of all routes, flattened in ascending route order.
pub open spec fn route_windows(rs: Seq<(u64, Route)>) -> Seq<(u64, TimeWindow, u32)>
    decreases rs.len(),
{
    if rs.len() == 0 {
        Seq::empty()
    } else {
        route_windows(rs.drop_last()) + wins_of_route(rs.last().1)
    }
}

/// The flattened windows of a route prefix are a prefix of the flattened
/// windows of the whole list.
pub proof fn lemma_route_windows_prefix(rs: Seq<(u64, Route)>, k: int)
    requires
        0 <= k <= rs.len(),
    ensures
        route_windows(rs.take(k)).len() <= route_windows(rs).len(),
        forall|j: int|
            0 <= j < route_windows(rs.take(k)).len() ==> route_windows(rs)[j] == route_windows(
                rs.take(k),
            )[j],
    decreases rs.len() - k,
{
    if k < rs.len() {
        assert(rs.take(k + 1).drop_last() =~= rs.take(k));
        assert(rs.take(k + 1).last() == rs[k]);
        lemma_route_windows_prefix(rs, k + 1);
    } else {
        assert(rs.take(k) =~= rs);
    }
}

/// One generated schedule, for pair `p` and flattened window `s`.
pub open spec fn schedule_entry_ok(
    sch: Schedule,
    pre: FleetStore,
    sacco_id: u64,
    date: u64,
    now: u64,
    p: int,
    s: int,
) -> bool {
    let ms = active_of(pre.matatus@, sacco_id);
    let ds = drivers_of(pre.drivers@, sacco_id);
    let ws = route_windows(pre.routes@);
    &&& sch.id == pre.next_id + 1 + p * ws.len() + s
    &&& sch.matatu_id == ms[p].id
    &&& sch.driver_id == ds[p].id
    &&& sch.route_id == ws[s].0
    &&& sch.start_time == date + ws[s].1.start_hour * 3600
    &&& sch.end_time == date + ws[s].1.start_hour * 3600 + ws[s].2 * 60
    &&& sch.status is Scheduled
    &&& sch.created_at == now
}

/// How many pairs the positional pairing yields: vehicles and drivers
/// beyond the shorter list stay unscheduled.
pub open spec fn pair_count(pre: FleetStore, sacco_id: u64) -> int {
    let m = active_of(pre.matatus@, sacco_id).len() as int;
    let d = drivers_of(pre.drivers@, sacco_id).len() as int;
    if m <= d {
        m
    } else {
        d
    }
}

/// How many schedules one run generates.
pub open spec fn schedule_total(pre: FleetStore, sacco_id: u64) -> int {
    pair_count(pre, sacco_id) * route_windows(pre.routes@).len()
}

/// What automated scheduling does: for every positional (vehicle, driver)
/// pair and every demand window of every route, one `Scheduled` entry is
/// generated, persisted under consecutive fresh identifiers, and
/// returned.
pub open spec fn schedule_post(
    pre: FleetStore,
    post: FleetStore,
    sacco_id: u64,
    date: u64,
    now: u64,
    r: Result<Vec<Schedule>, Message>,
) -> bool {
    let total = schedule_total(pre, sacco_id);
    let w = route_windows(pre.routes@).len() as int;
    let can = pre.next_id + total <= u64::MAX;
    &&& !can ==> r == Err::<Vec<Schedule>, Message>(Message::InvariantViolation) && post == pre
    &&& can ==> {
        &&& r is Ok
        &&& r.unwrap()@.len() == total
        &&& forall|i: int|
            0 <= i < total ==> schedule_entry_ok(
                #[trigger] r.unwrap()@[i],
                pre,
                sacco_id,
                date,
                now,
                i / w,
                i % w,
            )
        &&& post.next_id == pre.next_id + total
        &&& post.schedules@.len() == pre.schedules@.len() + total
        &&& forall|i: int|
            0 <= i < total ==> lookup(post.schedules@, (pre.next_id + 1 + i) as u64) == Some(
                r.unwrap()@[i],
            )
        &&& forall|k: u64|
            (k <= pre.next_id || k > pre.next_id + total) ==> lookup(post.schedules@, k) == lookup(
                pre.schedules@,
                k,
            )
        &&& post == (FleetStore { next_id: post.next_id, schedules: post.schedules, ..pre })
    }
}

/// Invariant of the schedule-generation pass: the batch so far sits under
/// consecutive fresh identifiers, every entry is the right one for its
/// (pair, window) position, and nothing else has changed.
pub open spec fn batch_inv(
    pre: FleetStore,
    cur: FleetStore,
    sacco_id: u64,
    date: u64,
    now: u64,
    out: Seq<Schedule>,
) -> bool {
    let start = pre.next_id;
    let wlen = route_windows(pre.routes@).len() as int;
    let total = schedule_total(pre, sacco_id);
    &&& cur.wf()
    &&& cur == (FleetStore { next_id: cur.next_id, schedules: cur.schedules, ..pre })
    &&& cur.next_id as int == start + out.len()
    &&& out.len() <= total
    &&& start + total <= u64::MAX
    &&& cur.schedules@.len() == pre.schedules@.len() + out.len()
    &&& forall|i: int|
        0 <= i < out.len() ==> schedule_entry_ok(
            #[trigger] out[i],
            pre,
            sacco_id,
            date,
            now,
            i / wlen,
            i % wlen,
        )
    &&& forall|i: int|
        0 <= i < out.len() ==> lookup(cur.schedules@, (start + 1 + i) as u64) == Some(
            #[trigger] out[i],
        )
    &&& forall|k: u64|
        (k <= start || k > start + out.len()) ==> lookup(cur.schedules@, k) == lookup(
            pre.schedules@,
            k,
        )
}

/// Departure and arrival times for every demand window of one route on
/// one date: `start = date + start_hour * 3600`,
/// `end = start + estimated_time * 60`.
pub fn calculate_optimal_times(route: &Route, date: u64) -> (r: Vec<(u64, u64)>)
    requires
        date <= u64::MAX - SCHEDULE_HEADROOM,
    ensures
        r@.len() == route.peak_hours@.len(),
        forall|i: int|
            0 <= i < r@.len() ==> (#[trigger] r@[i]).0 == date
                + route.peak_hours@[i].start_hour * 3600 && r@[i].1 == date
                + route.peak_hours@[i].start_hour * 3600 + route.estimated_time * 60,
{
    let mut r: Vec<(u64, u64)> = Vec::new();
    let mut i: usize = 0;
    let n = route.peak_hours.len();
    while i < n
        invariant
            n == route.peak_hours@.len(),
            0 <= i <= n,
            date <= u64::MAX - SCHEDULE_HEADROOM,
            r@.len() == i,
            forall|j: int|
                0 <= j < i ==> (#[trigger] r@[j]).0 == date
                    + route.peak_hours@[j].start_hour * 3600 && r@[j].1 == date
                    + route.peak_hours@[j].start_hour * 3600 + route.estimated_time * 60,
        decreases n - i,
    {
        let w = route.peak_hours[i];
        let start_time = date + (w.start_hour as u64) * 3600;
        let end_time = start_time + (route.estimated_time as u64) * 60;
        r.push((start_time, end_time));
        i = i + 1;
    }
    r
}

/// The re-estimated arrival time from a telemetry sample; the remaining
/// distance is a placeholder zero in this core, so the schedule's own
/// fields do not yet enter the estimate.
pub fn calculate_new_arrival_time(_schedule: &Schedule, location: &LocationUpdate) -> (r: u64)
    ensures
        r == arrival_of(*location),
{
    let remaining_distance: u64 = 0;
    let estimated_time: u64 = if location.speed > 0 {
        remaining_distance / location.speed
    } else {
        0
    };
    location.timestamp + estimated_time
}

impl FleetStore {
    /// Matches the current time to the route's traffic patterns
    /// (first-match, zero-congestion fallback) and derives the
    /// congestion-adjusted duration and a start time ten minutes out.
    pub fn optimize_route(&self, route_id: u64, current_time: u64) -> (r: Result<
        RouteOptimization,
        Message,
    >)
        requires
            self.wf(),
            current_time <= u64::MAX - 600,
        ensures
            optimize_post(*self, route_id, current_time, r),
    {
        let route = match self.routes.get(route_id) {
            Some(r) => r,
            None => {
                return Err(Message::NotFound(EntityKind::Route));
            },
        };
        let hour = (current_time / 3600) % 24;
        let day = (current_time / 86400) % 7;
        let n = route.traffic_patterns.len();
        let mut i: usize = 0;
        let mut pat = TrafficPattern {
            time_window: TimeWindow { start_hour: 0, end_hour: 0, day_of_week: 0 },
            congestion_level: 0,
            average_delay: 0,
        };
        let mut found = false;
        while i < n && !found
            invariant
                n == route.traffic_patterns@.len(),
                0 <= i <= n,
                day == day_of(current_time),
                hour == hour_of(current_time),
                !found ==> pat == default_pattern(),
                !found ==> forall|j: int|
                    0 <= j < i ==> !window_covers(
                        (#[trigger] route.traffic_patterns@[j]).time_window,
                        day_of(current_time),
                        hour_of(current_time),
                    ),
                found ==> pat == first_pattern(
                    route.traffic_patterns@,
                    day_of(current_time),
                    hour_of(current_time),
                ),
            decreases n - i + (if found {
                0int
            } else {
                1int
            }),
        {
            let w = route.traffic_patterns[i].time_window;
            proof {
                assert(day == day_of(current_time));
                assert(hour == hour_of(current_time));
                assert(route.traffic_patterns@[i as int].time_window == w);
            }
            if w.day_of_week as u64 == day && w.start_hour as u64 <= hour && hour < w.end_hour
                as u64 {
                pat = route.traffic_patterns[i];
                proof {
                    assert(window_covers(w, day_of(current_time), hour_of(current_time)));
                    lemma_first_pattern_skip(
                        route.traffic_patterns@,
                        day_of(current_time),
                        hour_of(current_time),
                        i as int,
                    );
                    assert(route.traffic_patterns@.skip(i as int)[0]
                        == route.traffic_patterns@[i as int]);
                    assert(route.traffic_patterns@.skip(i as int).len() > 0);
                }
                found = true;
            } else {
                proof {
                    assert(!window_covers(w, day_of(current_time), hour_of(current_time)));
                }
                i = i + 1;
            }
        }
        if !found {
            proof {
                lemma_first_pattern_skip(
                    route.traffic_patterns@,
                    day_of(current_time),
                    hour_of(current_time),
                    n as int,
                );
                assert(route.traffic_patterns@.skip(n as int).len() == 0);
            }
        }
        let base = route.estimated_time as u64;
        proof {
            assert(base * (5 + pat.congestion_level as u64) <= 0xffffffffu64 * 260) by (
            nonlinear_arith)
                requires
                    base <= 0xffffffffu64,
                    pat.congestion_level as u64 <= 255,
            ;
        }
        let scaled = (base * (5 + pat.congestion_level as u64)) / 5;
        let estimated_duration: u32 = if scaled > u32::MAX as u64 {
            u32::MAX
        } else {
            scaled as u32
        };
        Ok(
            RouteOptimization {
                route_id,
                optimal_start_time: current_time + 600,
                estimated_duration,
                congestion_level: pat.congestion_level,
                alternate_routes: Vec::new(),
            },
        )
    }

    /// Re-times every in-flight schedule of one vehicle from a telemetry
    /// sample, by re-inserting each under its own key.
    pub fn update_arrival_estimates(&mut self, matatu_id: u64, location: &LocationUpdate)
        requires
            old(self).wf(),
        ensures
            final(self).wf(),
            final(self).schedules@.len() == old(self).schedules@.len(),
            forall|i: int|
                0 <= i < old(self).schedules@.len() ==> final(self).schedules@[i] == (((
                #[trigger] old(self).schedules@[i]).0, retimed(
                    old(self).schedules@[i].1,
                    matatu_id,
                    *location,
                ))),
            *final(self) == (FleetStore { schedules: final(self).schedules, ..*old(self) }),
    {
        let n = self.schedules.len();
        let mut i: usize = 0;
        while i < n
            invariant
                old(self).wf(),
                self.wf(),
                n == old(self).schedules@.len(),
                self.schedules@.len() == n,
                0 <= i <= n,
                forall|j: int|
                    0 <= j < i ==> self.schedules@[j] == (((#[trigger] old(
                        self,
                    ).schedules@[j]).0, retimed(old(self).schedules@[j].1, matatu_id, *location))),
                forall|j: int|
                    i <= j < n ==> (#[trigger] self.schedules@[j]) == old(self).schedules@[j],
                *self == (FleetStore { schedules: self.schedules, ..*old(self) }),
            decreases n - i,
        {
            let e = self.schedules.entry_at(i);
            let key = e.0;
            let sch = e.1;
            let is_in_progress = match sch.status {
                ScheduleStatus::InProgress => true,
                _ => false,
            };
            if sch.matatu_id == matatu_id && is_in_progress {
                let new_end = calculate_new_arrival_time(&sch, location);
                let sch2 = Schedule { end_time: new_end, ..sch };
                let ghost pre_ins = self.schedules@;
                proof {
                    assert(has_key(pre_ins, key));
                    assert(sch2.encoded_size() == 57);
                    assert(sch2.id == key);
                }
                match self.schedules.insert(key, sch2) {
                    Ok(()) => {},
                    Err(_) => {},
                }
                proof {
                    let j0 = choose|j0: int|
                        0 <= j0 < pre_ins.len() && (#[trigger] pre_ins[j0]).0 == key
                            && self.schedules@ == pre_ins.update(j0, (key, sch2));
                    if j0 != i {
                        assert(pre_ins[j0].0 == pre_ins[i as int].0);
                        assert(false);
                    }
                    lemma_table_ok_upsert(
                        pre_ins,
                        self.schedules@,
                        self.next_id,
                        self.next_id,
                        key,
                        sch2,
                    );
                }
            }
            i = i + 1;
        }
    }

    /// Generates the automated schedule batch for one cooperative and
    /// date: `Active` vehicles and drivers are paired positionally (any
    /// surplus on the longer side stays unscheduled), and each pair gets
    /// one `Scheduled` entry per demand window of every route, persisted
    /// under consecutive fresh identifiers and returned in order.
    pub fn create_automated_schedule(&mut self, sacco_id: u64, date: u64, now: u64) -> (r: Result<
        Vec<Schedule>,
        Message,
    >)
        requires
            old(self).wf(),
            date <= u64::MAX - SCHEDULE_HEADROOM,
        ensures
            final(self).wf(),
            schedule_post(*old(self), *final(self), sacco_id, date, now, r),
    {
        let ghost pre = *old(self);
        let ghost wseq = route_windows(pre.routes@);
        let ghost wlen: int = wseq.len() as int;
        let ghost npairs_g: int = pair_count(pre, sacco_id);
        let ghost total: int = schedule_total(pre, sacco_id);
        let ghost start: u64 = pre.next_id;

        let ms = self.get_available_matatus(sacco_id, date);
        let ds = self.get_available_drivers(sacco_id, date);
        let npairs: usize = if ms.len() <= ds.len() {
            ms.len()
        } else {
            ds.len()
        };
        if npairs == 0 {
            proof {
                assert(npairs_g == 0);
                assert(npairs_g * wlen == 0) by (nonlinear_arith)
                    requires
                        npairs_g == 0,
                ;
            }
            return Ok(Vec::new());
        }
        let headroom: u64 = u64::MAX - self.next_id;
        let rn = self.routes.len();
        let mut wtotal: u128 = 0;
        let mut ridx: usize = 0;
        while ridx < rn
            invariant
                *self == pre,
                pre == *old(self),
                pre.wf(),
                total == schedule_total(pre, sacco_id),
                rn == pre.routes@.len(),
                0 <= ridx <= rn,
                wtotal as int == route_windows(pre.routes@.take(ridx as int)).len(),
                wtotal <= headroom as u128,
                headroom == u64::MAX - pre.next_id,
                npairs >= 1,
                npairs as int == npairs_g,
                wlen == route_windows(pre.routes@).len(),
                total == npairs_g * wlen,
            decreases rn - ridx,
        {
            let e = self.routes.entry_at(ridx);
            let l = e.1.peak_hours.len();
            proof {
                assert(pre.routes@.take(ridx + 1).drop_last() =~= pre.routes@.take(ridx as int));
                assert(pre.routes@.take(ridx + 1).last() == pre.routes@[ridx as int]);
            }
            let w2 = wtotal + (l as u128);
            if w2 > headroom as u128 {
                proof {
                    lemma_route_windows_prefix(pre.routes@, ridx + 1);
                    assert(wlen >= w2 as int);
                    assert(npairs_g * wlen >= wlen) by (nonlinear_arith)
                        requires
                            npairs_g >= 1,
                            wlen >= 0,
                    ;
                }
                return Err(Message::InvariantViolation);
            }
            wtotal = w2;
            ridx = ridx + 1;
        }
        proof {
            assert(pre.routes@.take(rn as int) =~= pre.routes@);
            assert(wtotal as int == wlen);
        }
        let npairs64: u64 = npairs as u64;
        proof {
            assert(npairs64 as int * wtotal as int <= (u64::MAX as int) * (u64::MAX as int)) by (
            nonlinear_arith)
                requires
                    0 <= npairs64 as int <= u64::MAX as int,
                    0 <= wtotal as int <= u64::MAX as int,
            ;
        }
        let prod: u128 = (npairs64 as u128) * wtotal;
        if prod > headroom as u128 {
            proof {
                assert(total == prod as int);
            }
            return Err(Message::InvariantViolation);
        }
        proof {
            assert(start + total <= u64::MAX);
        }
        let mut out: Vec<Schedule> = Vec::new();
        let mut p: usize = 0;
        while p < npairs
            invariant
                npairs as int == npairs_g,
                npairs_g == pair_count(pre, sacco_id),
                npairs <= ms@.len(),
                npairs <= ds@.len(),
                ms@ == active_of(pre.matatus@, sacco_id),
                ds@ == drivers_of(pre.drivers@, sacco_id),
                wseq == route_windows(pre.routes@),
                wlen == wseq.len(),
                total == npairs_g * wlen,
                total == schedule_total(pre, sacco_id),
                start == pre.next_id,
                date <= u64::MAX - SCHEDULE_HEADROOM,
                rn == pre.routes@.len(),
                0 <= p <= npairs,
                out@.len() == p * wlen,
                batch_inv(pre, *self, sacco_id, date, now, out@),
            decreases npairs - p,
        {
            let mi = ms[p].id;
            let di = ds[p].id;
            let mut ridx2: usize = 0;
            let mut scount: u64 = 0;
            while ridx2 < rn
                invariant
                    npairs as int == npairs_g,
                    npairs_g == pair_count(pre, sacco_id),
                    npairs <= ms@.len(),
                    npairs <= ds@.len(),
                    ms@ == active_of(pre.matatus@, sacco_id),
                    ds@ == drivers_of(pre.drivers@, sacco_id),
                    wseq == route_windows(pre.routes@),
                    wlen == wseq.len(),
                    total == npairs_g * wlen,
                    total == schedule_total(pre, sacco_id),
                    start == pre.next_id,
                    date <= u64::MAX - SCHEDULE_HEADROOM,
                    rn == pre.routes@.len(),
                    0 <= p < npairs,
                    mi == active_of(pre.matatus@, sacco_id)[p as int].id,
                    di == drivers_of(pre.drivers@, sacco_id)[p as int].id,
                    0 <= ridx2 <= rn,
                    scount as int == route_windows(pre.routes@.take(ridx2 as int)).len(),
                    out@.len() == p * wlen + scount,
                    batch_inv(pre, *self, sacco_id, date, now, out@),
                decreases rn - ridx2,
            {
                let wn = self.routes.entry_at(ridx2).1.peak_hours.len();
                let ghost base: int = route_windows(pre.routes@.take(ridx2 as int)).len() as int;
                proof {
                    assert(pre.routes@.take(ridx2 + 1).drop_last() =~= pre.routes@.take(
                        ridx2 as int,
                    ));
                    assert(pre.routes@.take(ridx2 + 1).last() == pre.routes@[ridx2 as int]);
                    lemma_route_windows_prefix(pre.routes@, ridx2 + 1);
                }
                let mut widx: usize = 0;
                while widx < wn
                    invariant
                        npairs as int == npairs_g,
                        npairs_g == pair_count(pre, sacco_id),
                        npairs <= ms@.len(),
                        npairs <= ds@.len(),
                        ms@ == active_of(pre.matatus@, sacco_id),
                        ds@ == drivers_of(pre.drivers@, sacco_id),
                        wseq == route_windows(pre.routes@),
                        wlen == wseq.len(),
                        total == npairs_g * wlen,
                        total == schedule_total(pre, sacco_id),
                        start == pre.next_id,
                        date <= u64::MAX - SCHEDULE_HEADROOM,
                        rn == pre.routes@.len(),
                        0 <= p < npairs,
                        mi == active_of(pre.matatus@, sacco_id)[p as int].id,
                        di == drivers_of(pre.drivers@, sacco_id)[p as int].id,
                        0 <= ridx2 < rn,
                        0 <= widx <= wn,
                        wn == pre.routes@[ridx2 as int].1.peak_hours@.len(),
                        base == route_windows(pre.routes@.take(ridx2 as int)).len(),
                        route_windows(pre.routes@.take(ridx2 + 1)).len() == base + wn,
                        forall|j: int|
                            0 <= j < base + wn ==> wseq[j] == route_windows(
                                pre.routes@.take(ridx2 + 1),
                            )[j],
                        route_windows(pre.routes@.take(ridx2 + 1)) == route_windows(
                            pre.routes@.take(ridx2 as int),
                        ) + wins_of_route(pre.routes@[ridx2 as int].1),
                        base + wn <= wlen,
                        scount as int == base + widx,
                        out@.len() == p * wlen + scount,
                        batch_inv(pre, *self, sacco_id, date, now, out@),
                    decreases wn - widx,
                {
                    proof {
                        assert(scount < wlen);
                        assert((p as int * wlen + scount as int) < npairs_g * wlen) by (
                        nonlinear_arith)
                            requires
                                0 <= p,
                                (p as int) < npairs_g,
                                0 <= scount,
                                (scount as int) < wlen,
                        ;
                    }
                    let e = self.routes.entry_at(ridx2);
                    let w = e.1.peak_hours[widx];
                    let rid = e.1.id;
                    let est = e.1.estimated_time;
                    let id = self.next_id + 1;
                    let start_t = date + (w.start_hour as u64) * 3600;
                    let end_t = start_t + (est as u64) * 60;
                    let sch = Schedule {
                        id,
                        matatu_id: mi,
                        driver_id: di,
                        route_id: rid,
                        start_time: start_t,
                        end_time: end_t,
                        status: ScheduleStatus::Scheduled,
                        created_at: now,
                    };
                    let ghost pre_ins = self.schedules@;
                    let ghost out0 = out@;
                    proof {
                        lemma_fresh_key(self.schedules@, self.next_id, id);
                        assert(sch.encoded_size() == 57);
                    }
                    self.next_id = id;
                    match self.schedules.insert(id, sch) {
                        Ok(()) => {},
                        Err(_) => {},
                    }
                    out.push(sch);
                    proof {
                        lemma_table_ok_upsert(
                            pre_ins,
                            self.schedules@,
                            (id - 1) as u64,
                            id,
                            id,
                            sch,
                        );
                        let s: int = scount as int;
                        assert(wseq[s] == wins_of_route(pre.routes@[ridx2 as int].1)[s - base]);
                        assert(wins_of_route(pre.routes@[ridx2 as int].1)[widx as int] == (
                        pre.routes@[ridx2 as int].1.id,
                        pre.routes@[ridx2 as int].1.peak_hours@[widx as int],
                        pre.routes@[ridx2 as int].1.estimated_time,
                        ));
                        assert(schedule_entry_ok(sch, pre, sacco_id, date, now, p as int, s));
                        assert forall|i: int| 0 <= i < out@.len() implies lookup(
                            self.schedules@,
                            (start + 1 + i) as u64,
                        ) == Some(#[trigger] out@[i]) by {
                            if i < out0.len() {
                                assert(out@[i] == out0[i]);
                                assert((start + 1 + i) as u64 != id);
                            } else {
                                assert(out@[i] == sch);
                                assert((start + 1 + i) as u64 == id);
                            }
                        }
                        assert forall|k: u64|
                            (k <= start || k > start + out@.len()) implies lookup(
                            self.schedules@,
                            k,
                        ) == lookup(pre.schedules@, k) by {
                            assert(k != id);
                            assert(lookup(self.schedules@, k) == lookup(pre_ins, k));
                            assert(k <= start || k > start + out0.len());
                        }
                        assert forall|i: int| 0 <= i < out@.len() implies schedule_entry_ok(
                            #[trigger] out@[i],
                            pre,
                            sacco_id,
                            date,
                            now,
                            i / wlen,
                            i % wlen,
                        ) by {
                            if i < out0.len() {
                                assert(out@[i] == out0[i]);
                            } else {
                                assert(out@[i] == sch);
                                assert(i == p as int * wlen + s);
                                lemma_fundamental_div_mod_converse_div(i, wlen, p as int, s);
                                lemma_fundamental_div_mod_converse_mod(i, wlen, p as int, s);
                            }
                        }
                    }
                    widx = widx + 1;
                    scount = scount + 1;
                }
                ridx2 = ridx2 + 1;
            }
            proof {
                assert(pre.routes@.take(rn as int) =~= pre.routes@);
                assert(scount as int == wlen);
                assert((p as int) * wlen + wlen == (p as int + 1) * wlen) by (nonlinear_arith);
            }
            p = p + 1;
        }
        proof {
            assert(out@.len() == npairs_g * wlen);
        }
        Ok(out)
    }

    /// Persists a telemetry sample stamped `now` under a fresh identifier
    /// and re-times every in-flight schedule of the vehicle; no schedule
    /// in any other state is touched.
    pub fn update_location(&mut self, payload: LocationUpdatePayload, now: u64) -> (r: Result<
        LocationUpdate,
        Message,
    >)
        requires
            old(self).wf(),
        ensures
            final(self).wf(),
            update_location_post(*old(self), *final(self), payload, now, r),
    {
        if self.next_id == u64::MAX {
            return Err(Message::InvariantViolation);
        }
        let id = self.next_id + 1;
        let row = LocationUpdate {
            id,
            matatu_id: payload.matatu_id,
            latitude: payload.latitude,
            longitude: payload.longitude,
            speed: payload.speed,
            timestamp: now,
        };
        proof {
            lemma_fresh_key(self.location_updates@, self.next_id, id);
            assert(row.encoded_size() == 48);
        }
        self.next_id = id;
        match self.location_updates.insert(id, row) {
            Ok(()) => {},
            Err(e) => {
                return Err(e);
            },
        }
        proof {
            lemma_table_ok_upsert(
                old(self).location_updates@,
                self.location_updates@,
                old(self).next_id,
                self.next_id,
                id,
                row,
            );
        }
        self.update_arrival_estimates(payload.matatu_id, &row);
        Ok(row)
    }
}

} // verus!
