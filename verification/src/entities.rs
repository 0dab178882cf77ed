use vstd::prelude::*;
use crate::record::Keyed;
use crate::record::Record;
use crate::record::size_clamp;
use crate::record::str_size;
use crate::record::str_part;
use crate::record::mul_part;

verus! {

// Monetary amounts are unsigned integers in the smallest currency unit;
// timestamps are unsigned integers in nanoseconds since the epoch, supplied
// by the caller; geographic coordinates are signed microdegrees.

/// Operating state of a vehicle.
#[derive(Clone, Copy, Debug, PartialEq, Eq)]
pub enum MatatuStatus {
    Active,
    Inactive,
    Maintenance,
}

/// Lifecycle state of a trip: created `Ongoing`, moved to `Completed`
/// exactly once by the end-trip operation, never leaving `Completed` or
/// `Cancelled`.
#[derive(Clone, Copy, Debug, PartialEq, Eq)]
pub enum TripStatus {
    Ongoing,
    Completed,
    Cancelled,
}

/// Lifecycle state of a maintenance record.
#[derive(Clone, Copy, Debug, PartialEq, Eq)]
pub enum MaintenanceStatus {
    Scheduled,
    InProgress,
    Completed,
}

/// Lifecycle state of a planned schedule.
#[derive(Clone, Copy, Debug, PartialEq, Eq)]
pub enum ScheduleStatus {
    Scheduled,
    InProgress,
    Completed,
    Cancelled,
}

/// A transit cooperative: the top-level tenant owning vehicles and drivers.
pub struct Sacco {
    pub id: u64,
    pub name: String,
    pub location: String,
    pub contact: String,
    pub email: String,
    pub created_at: u64,
}

/// A minibus vehicle, owned by one cooperative.
pub struct Matatu {
    pub id: u64,
    pub sacco_id: u64,
    pub plate_number: String,
    pub capacity: u32,
    pub route: String,
    pub status: MatatuStatus,
}

/// A driver, employed by one cooperative; a vehicle is assigned only by the
/// explicit assignment operation.
pub struct Driver {
    pub id: u64,
    pub sacco_id: u64,
    pub name: String,
    pub license_number: String,
    pub contact: String,
    pub assigned_matatu: Option<u64>,
}

/// One vehicle run from start to completion or cancellation.
pub struct Trip {
    pub id: u64,
    pub matatu_id: u64,
    pub driver_id: u64,
    pub start_time: u64,
    pub end_time: Option<u64>,
    pub passengers: u32,
    pub route: String,
    pub status: TripStatus,
    pub revenue: u64,
}

/// Vehicle-scoped maintenance cost record; append-only.
pub struct Maintenance {
    pub id: u64,
    pub matatu_id: u64,
    pub date: u64,
    pub description: String,
    pub cost: u64,
    pub status: MaintenanceStatus,
}

/// Per-driver, per-month accrual bucket; at most one record exists per
/// `(driver_id, month)` pair, and its accumulators only ever increase.
#[derive(Clone, Copy, Debug, PartialEq, Eq)]
pub struct DriverPerformance {
    pub id: u64,
    pub driver_id: u64,
    pub month: u64,
    pub trips_completed: u32,
    pub total_revenue: u64,
    pub customer_rating: u32,
    pub compliance_score: u32,
}

/// Cooperative-scoped, time-stamped expense ledger entry; the free-text
/// category is the grouping key of the expense breakdown.
pub struct Expense {
    pub id: u64,
    pub sacco_id: u64,
    pub date: u64,
    pub category: String,
    pub amount: u64,
    pub description: String,
}

/// Cooperative-scoped, time-stamped revenue ledger entry; the free-text
/// description is the grouping key of the revenue breakdown.
pub struct Revenue {
    pub id: u64,
    pub sacco_id: u64,
    pub date: u64,
    pub matatu_id: u64,
    pub amount: u64,
    pub description: String,
}

/// Vehicle-scoped fuel purchase record; append-only.
#[derive(Clone, Copy, Debug, PartialEq, Eq)]
pub struct FuelConsumption {
    pub id: u64,
    pub matatu_id: u64,
    pub date: u64,
    pub liters: u64,
    pub cost: u64,
    pub odometer_reading: u64,
}

/// A day-of-week and hour range during which a route has elevated demand.
/// Days run 0 through 6, Sunday through Saturday.
#[derive(Clone, Copy, Debug, PartialEq, Eq)]
pub struct TimeWindow {
    pub start_hour: u8,
    pub end_hour: u8,
    pub day_of_week: u8,
}

/// A congestion level (1 through 5) and average delay in minutes, bound to
/// one time window of a route.
#[derive(Clone, Copy, Debug, PartialEq, Eq)]
pub struct TrafficPattern {
    pub time_window: TimeWindow,
    pub congestion_level: u8,
    pub average_delay: u32,
}

/// A route with its geometry placeholders, demand windows and traffic
/// patterns; `estimated_time` is in minutes, `distance` in meters.
pub struct Route {
    pub id: u64,
    pub name: String,
    pub start_point: String,
    pub end_point: String,
    pub distance: u64,
    pub estimated_time: u32,
    pub peak_hours: Vec<TimeWindow>,
    pub traffic_patterns: Vec<TrafficPattern>,
    pub average_passengers: u32,
    pub price: u64,
}

/// Congestion-adjusted advice for one route at one moment.
pub struct RouteOptimization {
    pub route_id: u64,
    pub optimal_start_time: u64,
    pub estimated_duration: u32,
    pub congestion_level: u8,
    pub alternate_routes: Vec<Route>,
}

/// Trip-scoped rating record (1 through 5 on four axes); append-only.
pub struct CustomerFeedback {
    pub id: u64,
    pub trip_id: u64,
    pub rating: u8,
    pub cleanliness: u8,
    pub punctuality: u8,
    pub safety: u8,
    pub comment: String,
    pub timestamp: u64,
}

/// A planned (vehicle, driver, route, time-range) assignment.
#[derive(Clone, Copy, Debug, PartialEq, Eq)]
pub struct Schedule {
    pub id: u64,
    pub matatu_id: u64,
    pub driver_id: u64,
    pub route_id: u64,
    pub start_time: u64,
    pub end_time: u64,
    pub status: ScheduleStatus,
    pub created_at: u64,
}

/// Append-only vehicle telemetry sample; coordinates in microdegrees,
/// speed in meters per hour.
#[derive(Clone, Copy, Debug, PartialEq, Eq)]
pub struct LocationUpdate {
    pub id: u64,
    pub matatu_id: u64,
    pub latitude: i64,
    pub longitude: i64,
    pub speed: u64,
    pub timestamp: u64,
}

/// One line of an expense breakdown: a category, the summed amount, and its
/// truncated percentage of the report's expense total.
pub struct ExpenseCategory {
    pub category: String,
    pub amount: u64,
    pub percentage: u64,
}

/// One line of a revenue breakdown: a source, the summed amount, and its
/// truncated percentage of the report's revenue total.
pub struct RevenueSource {
    pub source: String,
    pub amount: u64,
    pub percentage: u64,
}

/// Point-in-time financial snapshot; never mutated after creation.
/// `profit_margin` is the truncated integer percentage
/// `(revenue - expenses) * 100 / revenue`, and `0` when revenue is `0`.
pub struct FinancialReport {
    pub id: u64,
    pub sacco_id: u64,
    pub period_start: u64,
    pub period_end: u64,
    pub total_revenue: u64,
    pub total_expenses: u64,
    pub expense_breakdown: Vec<ExpenseCategory>,
    pub revenue_breakdown: Vec<RevenueSource>,
    pub profit_margin: i128,
    pub created_at: u64,
}

/// Derived per-vehicle figures; `net_profit` is signed because costs may
/// exceed revenue.
#[derive(Clone, Copy, Debug, PartialEq, Eq)]
pub struct MatatuAnalytics {
    pub total_trips: u64,
    pub total_revenue: u64,
    pub maintenance_costs: u64,
    pub fuel_costs: u64,
    pub net_profit: i128,
}

impl Clone for Sacco {
    fn clone(&self) -> (r: Self)
        ensures
            r == *self,
    {
        Sacco {
            id: self.id,
            name: self.name.clone(),
            location: self.location.clone(),
            contact: self.contact.clone(),
            email: self.email.clone(),
            created_at: self.created_at,
        }
    }
}

impl Clone for Matatu {
    fn clone(&self) -> (r: Self)
        ensures
            r == *self,
    {
        Matatu {
            id: self.id,
            sacco_id: self.sacco_id,
            plate_number: self.plate_number.clone(),
            capacity: self.capacity,
            route: self.route.clone(),
            status: self.status,
        }
    }
}

impl Clone for Driver {
    fn clone(&self) -> (r: Self)
        ensures
            r == *self,
    {
        Driver {
            id: self.id,
            sacco_id: self.sacco_id,
            name: self.name.clone(),
            license_number: self.license_number.clone(),
            contact: self.contact.clone(),
            assigned_matatu: self.assigned_matatu,
        }
    }
}

impl Clone for Trip {
    fn clone(&self) -> (r: Self)
        ensures
            r == *self,
    {
        Trip {
            id: self.id,
            matatu_id: self.matatu_id,
            driver_id: self.driver_id,
            start_time: self.start_time,
            end_time: self.end_time,
            passengers: self.passengers,
            route: self.route.clone(),
            status: self.status,
            revenue: self.revenue,
        }
    }
}

impl Clone for Maintenance {
    fn clone(&self) -> (r: Self)
        ensures
            r == *self,
    {
        Maintenance {
            id: self.id,
            matatu_id: self.matatu_id,
            date: self.date,
            description: self.description.clone(),
            cost: self.cost,
            status: self.status,
        }
    }
}

impl Clone for Expense {
    fn clone(&self) -> (r: Self)
        ensures
            r == *self,
    {
        Expense {
            id: self.id,
            sacco_id: self.sacco_id,
            date: self.date,
            category: self.category.clone(),
            amount: self.amount,
            description: self.description.clone(),
        }
    }
}

impl Clone for Revenue {
    fn clone(&self) -> (r: Self)
        ensures
            r == *self,
    {
        Revenue {
            id: self.id,
            sacco_id: self.sacco_id,
            date: self.date,
            matatu_id: self.matatu_id,
            amount: self.amount,
            description: self.description.clone(),
        }
    }
}

impl Clone for CustomerFeedback {
    fn clone(&self) -> (r: Self)
        ensures
            r == *self,
    {
        CustomerFeedback {
            id: self.id,
            trip_id: self.trip_id,
            rating: self.rating,
            cleanliness: self.cleanliness,
            punctuality: self.punctuality,
            safety: self.safety,
            comment: self.comment.clone(),
            timestamp: self.timestamp,
        }
    }
}

impl Clone for ExpenseCategory {
    fn clone(&self) -> (r: Self)
        ensures
            r == *self,
    {
        ExpenseCategory {
            category: self.category.clone(),
            amount: self.amount,
            percentage: self.percentage,
        }
    }
}

impl Clone for RevenueSource {
    fn clone(&self) -> (r: Self)
        ensures
            r == *self,
    {
        RevenueSource {
            source: self.source.clone(),
            amount: self.amount,
            percentage: self.percentage,
        }
    }
}

/// Request payload for registering a cooperative.
pub struct CreateSaccoPayload {
    pub name: String,
    pub location: String,
    pub contact: String,
    pub email: String,
}

/// Request payload for registering a vehicle.
pub struct RegisterMatatuPayload {
    pub sacco_id: u64,
    pub plate_number: String,
    pub capacity: u32,
    pub route: String,
}

/// Request payload for registering a driver.
pub struct RegisterDriverPayload {
    pub sacco_id: u64,
    pub name: String,
    pub license_number: String,
    pub contact: String,
}

/// Request payload for starting a trip.
pub struct StartTripPayload {
    pub matatu_id: u64,
    pub driver_id: u64,
    pub route: String,
}

/// Request payload for completing a trip.
#[derive(Clone, Copy, Debug, PartialEq, Eq)]
pub struct EndTripPayload {
    pub trip_id: u64,
    pub passengers: u32,
    pub revenue: u64,
}

/// Request payload for recording an expense ledger entry.
pub struct RecordExpensePayload {
    pub sacco_id: u64,
    pub category: String,
    pub amount: u64,
    pub description: String,
}

/// Request payload for recording a revenue ledger entry.
pub struct RecordRevenuePayload {
    pub sacco_id: u64,
    pub matatu_id: u64,
    pub amount: u64,
    pub description: String,
}

/// Request payload for recording a maintenance event.
pub struct RecordMaintenancePayload {
    pub matatu_id: u64,
    pub description: String,
    pub cost: u64,
}

/// Request payload for recording a fuel purchase.
#[derive(Clone, Copy, Debug, PartialEq, Eq)]
pub struct RecordFuelPayload {
    pub matatu_id: u64,
    pub liters: u64,
    pub cost: u64,
    pub odometer_reading: u64,
}

/// Request payload for submitting trip feedback.
pub struct CustomerFeedbackPayload {
    pub trip_id: u64,
    pub rating: u8,
    pub cleanliness: u8,
    pub punctuality: u8,
    pub safety: u8,
    pub comment: String,
}

/// Request payload for a vehicle telemetry sample.
#[derive(Clone, Copy, Debug, PartialEq, Eq)]
pub struct LocationUpdatePayload {
    pub matatu_id: u64,
    pub latitude: i64,
    pub longitude: i64,
    pub speed: u64,
}

/// Request payload for adding a route.
pub struct RoutePayload {
    pub name: String,
    pub start_point: String,
    pub end_point: String,
    pub distance: u64,
    pub estimated_time: u32,
    pub peak_hours: Vec<TimeWindow>,
    pub traffic_patterns: Vec<TrafficPattern>,
    pub average_passengers: u32,
    pub price: u64,
}

impl Keyed for Sacco {
    open spec fn key_id(&self) -> u64 {
        self.id
    }
}

impl Keyed for Matatu {
    open spec fn key_id(&self) -> u64 {
        self.id
    }
}

impl Keyed for Driver {
    open spec fn key_id(&self) -> u64 {
        self.id
    }
}

impl Keyed for Trip {
    open spec fn key_id(&self) -> u64 {
        self.id
    }
}

impl Keyed for Maintenance {
    open spec fn key_id(&self) -> u64 {
        self.id
    }
}

impl Keyed for DriverPerformance {
    open spec fn key_id(&self) -> u64 {
        self.id
    }
}

impl Keyed for Expense {
    open spec fn key_id(&self) -> u64 {
        self.id
    }
}

impl Keyed for Revenue {
    open spec fn key_id(&self) -> u64 {
        self.id
    }
}

impl Keyed for FuelConsumption {
    open spec fn key_id(&self) -> u64 {
        self.id
    }
}

impl Keyed for Route {
    open spec fn key_id(&self) -> u64 {
        self.id
    }
}

impl Keyed for CustomerFeedback {
    open spec fn key_id(&self) -> u64 {
        self.id
    }
}

impl Keyed for Schedule {
    open spec fn key_id(&self) -> u64 {
        self.id
    }
}

impl Keyed for LocationUpdate {
    open spec fn key_id(&self) -> u64 {
        self.id
    }
}

impl Keyed for FinancialReport {
    open spec fn key_id(&self) -> u64 {
        self.id
    }
}

impl Record for Sacco {
    open spec fn encoded_size(&self) -> nat {
        16 + str_size(self.name@) + str_size(self.location@) + str_size(self.contact@)
            + str_size(self.email@)
    }

    fn encoded_len(&self) -> (n: usize)
        ensures
            n as nat == size_clamp(self.encoded_size()),
    {
        16usize.saturating_add(str_part(self.name.as_str())).saturating_add(
            str_part(self.location.as_str()),
        ).saturating_add(str_part(self.contact.as_str())).saturating_add(
            str_part(self.email.as_str()),
        )
    }
}

impl Record for Matatu {
    open spec fn encoded_size(&self) -> nat {
        21 + str_size(self.plate_number@) + str_size(self.route@)
    }

    fn encoded_len(&self) -> (n: usize)
        ensures
            n as nat == size_clamp(self.encoded_size()),
    {
        21usize.saturating_add(str_part(self.plate_number.as_str())).saturating_add(
            str_part(self.route.as_str()),
        )
    }
}

impl Record for Driver {
    open spec fn encoded_size(&self) -> nat {
        25 + str_size(self.name@) + str_size(self.license_number@) + str_size(self.contact@)
    }

    fn encoded_len(&self) -> (n: usize)
        ensures
            n as nat == size_clamp(self.encoded_size()),
    {
        25usize.saturating_add(str_part(self.name.as_str())).saturating_add(
            str_part(self.license_number.as_str()),
        ).saturating_add(str_part(self.contact.as_str()))
    }
}

impl Record for Trip {
    open spec fn encoded_size(&self) -> nat {
        54 + str_size(self.route@)
    }

    fn encoded_len(&self) -> (n: usize)
        ensures
            n as nat == size_clamp(self.encoded_size()),
    {
        54usize.saturating_add(str_part(self.route.as_str()))
    }
}

impl Record for Maintenance {
    open spec fn encoded_size(&self) -> nat {
        33 + str_size(self.description@)
    }

    fn encoded_len(&self) -> (n: usize)
        ensures
            n as nat == size_clamp(self.encoded_size()),
    {
        33usize.saturating_add(str_part(self.description.as_str()))
    }
}

impl Record for DriverPerformance {
    open spec fn encoded_size(&self) -> nat {
        44
    }

    fn encoded_len(&self) -> (n: usize)
        ensures
            n as nat == size_clamp(self.encoded_size()),
    {
        44
    }
}

impl Record for Expense {
    open spec fn encoded_size(&self) -> nat {
        32 + str_size(self.category@) + str_size(self.description@)
    }

    fn encoded_len(&self) -> (n: usize)
        ensures
            n as nat == size_clamp(self.encoded_size()),
    {
        32usize.saturating_add(str_part(self.category.as_str())).saturating_add(
            str_part(self.description.as_str()),
        )
    }
}

impl Record for Revenue {
    open spec fn encoded_size(&self) -> nat {
        40 + str_size(self.description@)
    }

    fn encoded_len(&self) -> (n: usize)
        ensures
            n as nat == size_clamp(self.encoded_size()),
    {
        40usize.saturating_add(str_part(self.description.as_str()))
    }
}

impl Record for FuelConsumption {
    open spec fn encoded_size(&self) -> nat {
        48
    }

    fn encoded_len(&self) -> (n: usize)
        ensures
            n as nat == size_clamp(self.encoded_size()),
    {
        48
    }
}

impl Record for Route {
    open spec fn encoded_size(&self) -> nat {
        40 + str_size(self.name@) + str_size(self.start_point@) + str_size(self.end_point@)
            + 3 * self.peak_hours@.len() + 8 * self.traffic_patterns@.len()
    }

    fn encoded_len(&self) -> (n: usize)
        ensures
            n as nat == size_clamp(self.encoded_size()),
    {
        40usize.saturating_add(str_part(self.name.as_str())).saturating_add(
            str_part(self.start_point.as_str()),
        ).saturating_add(str_part(self.end_point.as_str())).saturating_add(
            mul_part(3, self.peak_hours.len()),
        ).saturating_add(mul_part(8, self.traffic_patterns.len()))
    }
}

impl Record for CustomerFeedback {
    open spec fn encoded_size(&self) -> nat {
        28 + str_size(self.comment@)
    }

    fn encoded_len(&self) -> (n: usize)
        ensures
            n as nat == size_clamp(self.encoded_size()),
    {
        28usize.saturating_add(str_part(self.comment.as_str()))
    }
}

impl Record for Schedule {
    open spec fn encoded_size(&self) -> nat {
        57
    }

    fn encoded_len(&self) -> (n: usize)
        ensures
            n as nat == size_clamp(self.encoded_size()),
    {
        57
    }
}

impl Record for LocationUpdate {
    open spec fn encoded_size(&self) -> nat {
        48
    }

    fn encoded_len(&self) -> (n: usize)
        ensures
            n as nat == size_clamp(self.encoded_size()),
    {
        48
    }
}

/// Footprint of one expense-breakdown line.
pub open spec fn ec_size(e: ExpenseCategory) -> nat {
    16 + str_size(e.category@)
}

/// Footprint of a whole expense breakdown.
pub open spec fn ec_list_size(s: Seq<ExpenseCategory>) -> nat
    decreases s.len(),
{
    if s.len() == 0 {
        0
    } else {
        ec_list_size(s.drop_last()) + ec_size(s.last())
    }
}

/// Footprint of one revenue-breakdown line.
pub open spec fn rs_size(e: RevenueSource) -> nat {
    16 + str_size(e.source@)
}

/// Footprint of a whole revenue breakdown.
pub open spec fn rs_list_size(s: Seq<RevenueSource>) -> nat
    decreases s.len(),
{
    if s.len() == 0 {
        0
    } else {
        rs_list_size(s.drop_last()) + rs_size(s.last())
    }
}

fn ec_list_part(v: &Vec<ExpenseCategory>) -> (n: usize)
    ensures
        n as nat == size_clamp(ec_list_size(v@)),
{
    let mut acc: usize = 0;
    let mut i: usize = 0;
    while i < v.len()
        invariant
            0 <= i <= v@.len(),
            acc as nat == size_clamp(ec_list_size(v@.take(i as int))),
        decreases v@.len() - i,
    {
        let e = &v[i];
        let p = str_part(e.category.as_str());
        proof {
            assert(v@.take(i + 1).drop_last() =~= v@.take(i as int));
            assert(v@.take(i + 1).last() == v@[i as int]);
        }
        acc = acc.saturating_add(p).saturating_add(16);
        i = i + 1;
    }
    proof {
        assert(v@.take(v@.len() as int) =~= v@);
    }
    acc
}

fn rs_list_part(v: &Vec<RevenueSource>) -> (n: usize)
    ensures
        n as nat == size_clamp(rs_list_size(v@)),
{
    let mut acc: usize = 0;
    let mut i: usize = 0;
    while i < v.len()
        invariant
            0 <= i <= v@.len(),
            acc as nat == size_clamp(rs_list_size(v@.take(i as int))),
        decreases v@.len() - i,
    {
        let e = &v[i];
        let p = str_part(e.source.as_str());
        proof {
            assert(v@.take(i + 1).drop_last() =~= v@.take(i as int));
            assert(v@.take(i + 1).last() == v@[i as int]);
        }
        acc = acc.saturating_add(p).saturating_add(16);
        i = i + 1;
    }
    proof {
        assert(v@.take(v@.len() as int) =~= v@);
    }
    acc
}

impl Record for FinancialReport {
    open spec fn encoded_size(&self) -> nat {
        80 + ec_list_size(self.expense_breakdown@) + rs_list_size(self.revenue_breakdown@)
    }

    fn encoded_len(&self) -> (n: usize)
        ensures
            n as nat == size_clamp(self.encoded_size()),
    {
        80usize.saturating_add(ec_list_part(&self.expense_breakdown)).saturating_add(
            rs_list_part(&self.revenue_breakdown),
        )
    }
}

} // verus!
