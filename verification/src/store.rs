use vstd::prelude::*;
use crate::entities::CreateSaccoPayload;
use crate::entities::Driver;
use crate::entities::DriverPerformance;
use crate::entities::CustomerFeedback;
use crate::entities::Expense;
use crate::entities::FinancialReport;
use crate::entities::FuelConsumption;
use crate::entities::LocationUpdate;
use crate::entities::Maintenance;
use crate::entities::Matatu;
use crate::entities::MatatuStatus;
use crate::entities::MaintenanceStatus;
use crate::entities::RecordExpensePayload;
use crate::entities::RecordFuelPayload;
use crate::entities::RecordMaintenancePayload;
use crate::entities::RecordRevenuePayload;
use crate::entities::RegisterDriverPayload;
use crate::entities::RegisterMatatuPayload;
use crate::entities::RoutePayload;
use crate::entities::Revenue;
use crate::entities::Route;
use crate::entities::Sacco;
use crate::entities::Schedule;
use crate::entities::Trip;
use crate::errors::EntityKind;
use crate::errors::Message;
use crate::record::Keyed;
use crate::record::Record;
use crate::record::MAX_RECORD_BYTES;
use crate::record::check_fits;
use crate::table::Table;
use crate::table::has_key;
use crate::table::in_entries;
use crate::table::lookup;
use crate::table::lemma_lookup_absent;
use crate::table::table_upserted;

verus! {

// The explicit context object holding all shared state: one keyed store per
// entity type and the single identity counter that feeds them all.  Every
// operation validates before its first write, so a failed operation leaves
// the store exactly as it was.

/// Every entry of a store sits under its record's own identifier, no
/// identifier is above the allocator's counter, and every record fits
/// under the store ceiling.
pub open spec fn table_ok<T: Record + Keyed>(s: Seq<(u64, T)>, bound: u64) -> bool {
    forall|i: int|
        0 <= i < s.len() ==> ((#[trigger] s[i]).0 == s[i].1.key_id() && s[i].0 <= bound
            && s[i].1.encoded_size() <= MAX_RECORD_BYTES as nat)
}

/// An upsert of a well-bounded record under its own identifier keeps a
/// store well-bounded, also under a raised counter.
pub proof fn lemma_table_ok_upsert<T: Record + Keyed>(
    s0: Seq<(u64, T)>,
    s1: Seq<(u64, T)>,
    b0: u64,
    b1: u64,
    k: u64,
    v: T,
)
    requires
        table_ok(s0, b0),
        b0 <= b1,
        k <= b1,
        v.key_id() == k,
        v.encoded_size() <= MAX_RECORD_BYTES as nat,
        forall|i: int| 0 <= i < s1.len() ==> s1[i] == (k, v) || in_entries(s0, s1[i]),
    ensures
        table_ok(s1, b1),
{
    assert forall|i: int|
        0 <= i < s1.len() implies ((#[trigger] s1[i]).0 == s1[i].1.key_id() && s1[i].0 <= b1
        && s1[i].1.encoded_size() <= MAX_RECORD_BYTES as nat) by {
        if s1[i] != (k, v) {
            let j = choose|j: int| 0 <= j < s0.len() && s0[j] == s1[i];
            assert(s0[j].0 == s0[j].1.key_id());
        }
    }
}

/// An identifier above the counter keys no record of a well-bounded store.
pub proof fn lemma_fresh_key<T: Record + Keyed>(s: Seq<(u64, T)>, b: u64, k: u64)
    requires
        table_ok(s, b),
        k > b,
    ensures
        !has_key(s, k),
        lookup(s, k) is None,
{
    assert(forall|j: int| 0 <= j < s.len() ==> (#[trigger] s[j]).0 != k);
    lemma_lookup_absent(s, k);
}

/// At most one accrual record exists per `(driver_id, month)` pair.
pub open spec fn perf_unique(s: Seq<(u64, DriverPerformance)>) -> bool {
    forall|i: int, j: int|
        0 <= i < s.len() && 0 <= j < s.len() && i != j ==> !((#[trigger] s[i]).1.driver_id == (
        #[trigger] s[j]).1.driver_id && s[i].1.month == s[j].1.month)
}

/// The persistent entity store and identity allocator, passed explicitly
/// to every operation.
pub struct FleetStore {
    /// The identity allocator's counter: the last identifier handed out.
    pub next_id: u64,
    pub saccos: Table<Sacco>,
    pub matatus: Table<Matatu>,
    pub drivers: Table<Driver>,
    pub trips: Table<Trip>,
    pub maintenance_records: Table<Maintenance>,
    pub performance: Table<DriverPerformance>,
    pub expenses: Table<Expense>,
    pub revenues: Table<Revenue>,
    pub fuel_records: Table<FuelConsumption>,
    pub routes: Table<Route>,
    pub feedback: Table<CustomerFeedback>,
    pub schedules: Table<Schedule>,
    pub location_updates: Table<LocationUpdate>,
    pub reports: Table<FinancialReport>,
}

impl FleetStore {
    /// Every store keeps ascending key order.
    pub open spec fn tables_sorted(&self) -> bool {
        &&& self.saccos.wf()
        &&& self.matatus.wf()
        &&& self.drivers.wf()
        &&& self.trips.wf()
        &&& self.maintenance_records.wf()
        &&& self.performance.wf()
        &&& self.expenses.wf()
        &&& self.revenues.wf()
        &&& self.fuel_records.wf()
        &&& self.routes.wf()
        &&& self.feedback.wf()
        &&& self.schedules.wf()
        &&& self.location_updates.wf()
        &&& self.reports.wf()
    }

    /// Every store is keyed by its records' identifiers, which the
    /// allocator has all handed out already, and holds bounded records.
    pub open spec fn tables_ok(&self) -> bool {
        &&& table_ok(self.saccos@, self.next_id)
        &&& table_ok(self.matatus@, self.next_id)
        &&& table_ok(self.drivers@, self.next_id)
        &&& table_ok(self.trips@, self.next_id)
        &&& table_ok(self.maintenance_records@, self.next_id)
        &&& table_ok(self.performance@, self.next_id)
        &&& table_ok(self.expenses@, self.next_id)
        &&& table_ok(self.revenues@, self.next_id)
        &&& table_ok(self.fuel_records@, self.next_id)
        &&& table_ok(self.routes@, self.next_id)
        &&& table_ok(self.feedback@, self.next_id)
        &&& table_ok(self.schedules@, self.next_id)
        &&& table_ok(self.location_updates@, self.next_id)
        &&& table_ok(self.reports@, self.next_id)
    }

    /// The store invariant that every operation preserves.
    pub open spec fn wf(&self) -> bool {
        &&& self.tables_sorted()
        &&& self.tables_ok()
        &&& perf_unique(self.performance@)
    }

    /// Fresh store: empty everywhere, with the allocator at zero.
    pub fn new() -> (s: Self)
        ensures
            s.wf(),
            s.next_id == 0,
            s.saccos@.len() == 0,
            s.matatus@.len() == 0,
            s.drivers@.len() == 0,
            s.trips@.len() == 0,
            s.maintenance_records@.len() == 0,
            s.performance@.len() == 0,
            s.expenses@.len() == 0,
            s.revenues@.len() == 0,
            s.fuel_records@.len() == 0,
            s.routes@.len() == 0,
            s.feedback@.len() == 0,
            s.schedules@.len() == 0,
            s.location_updates@.len() == 0,
            s.reports@.len() == 0,
    {
        FleetStore {
            next_id: 0,
            saccos: Table::new(),
            matatus: Table::new(),
            drivers: Table::new(),
            trips: Table::new(),
            maintenance_records: Table::new(),
            performance: Table::new(),
            expenses: Table::new(),
            fuel_records: Table::new(),
            revenues: Table::new(),
            routes: Table::new(),
            feedback: Table::new(),
            schedules: Table::new(),
            location_updates: Table::new(),
            reports: Table::new(),
        }
    }

    /// Issues the next identifier: the counter rises by one and the new
    /// counter value is the identifier, unique across all entity types for
    /// the lifetime of the store.  Counter exhaustion is a fatal
    /// `InvariantViolation`; an issued identifier is never rolled back.
    pub fn generate_id(&mut self) -> (r: Result<u64, Message>)
        ensures
            old(self).next_id < u64::MAX ==> r == Ok::<u64, Message>(
                (old(self).next_id + 1) as u64,
            ) && *final(self) == (FleetStore {
                next_id: (old(self).next_id + 1) as u64,
                ..*old(self)
            }),
            old(self).next_id == u64::MAX ==> r == Err::<u64, Message>(
                Message::InvariantViolation,
            ) && *final(self) == *old(self),
    {
        if self.next_id == u64::MAX {
            return Err(Message::InvariantViolation);
        }
        self.next_id = self.next_id + 1;
        Ok(self.next_id)
    }

    /// Record lookup by identifier.
    pub fn get_sacco(&self, id: u64) -> (r: Option<&Sacco>)
        requires
            self.wf(),
        ensures
            match r {
                Some(v) => lookup(self.saccos@, id) == Some(*v),
                None => lookup(self.saccos@, id) is None,
            },
    {
        self.saccos.get(id)
    }

    /// Record lookup by identifier.
    pub fn get_matatu(&self, id: u64) -> (r: Option<&Matatu>)
        requires
            self.wf(),
        ensures
            match r {
                Some(v) => lookup(self.matatus@, id) == Some(*v),
                None => lookup(self.matatus@, id) is None,
            },
    {
        self.matatus.get(id)
    }

    /// Record lookup by identifier.
    pub fn get_driver(&self, id: u64) -> (r: Option<&Driver>)
        requires
            self.wf(),
        ensures
            match r {
                Some(v) => lookup(self.drivers@, id) == Some(*v),
                None => lookup(self.drivers@, id) is None,
            },
    {
        self.drivers.get(id)
    }

    /// Record lookup by identifier.
    pub fn get_trip(&self, id: u64) -> (r: Option<&Trip>)
        requires
            self.wf(),
        ensures
            match r {
                Some(v) => lookup(self.trips@, id) == Some(*v),
                None => lookup(self.trips@, id) is None,
            },
    {
        self.trips.get(id)
    }

    /// Record lookup by identifier.
    pub fn get_route(&self, id: u64) -> (r: Option<&Route>)
        requires
            self.wf(),
        ensures
            match r {
                Some(v) => lookup(self.routes@, id) == Some(*v),
                None => lookup(self.routes@, id) is None,
            },
    {
        self.routes.get(id)
    }

    /// Record lookup by identifier.
    pub fn get_schedule(&self, id: u64) -> (r: Option<&Schedule>)
        requires
            self.wf(),
        ensures
            match r {
                Some(v) => lookup(self.schedules@, id) == Some(*v),
                None => lookup(self.schedules@, id) is None,
            },
    {
        self.schedules.get(id)
    }
}

/// What registering a cooperative does.
pub open spec fn create_sacco_post(
    pre: FleetStore,
    post: FleetStore,
    payload: CreateSaccoPayload,
    now: u64,
    r: Result<Sacco, Message>,
) -> bool {
    let invalid = payload.name@.len() == 0 || payload.contact@.len() == 0 || payload.email@.len()
        == 0;
    let sacco = (Sacco {
        id: (pre.next_id + 1) as u64,
        name: payload.name,
        location: payload.location,
        contact: payload.contact,
        email: payload.email,
        created_at: now,
    });
    &&& invalid ==> r == Err::<Sacco, Message>(Message::InvalidPayload) && post == pre
    &&& !invalid && pre.next_id == u64::MAX ==> r == Err::<Sacco, Message>(
        Message::InvariantViolation,
    ) && post == pre
    &&& !invalid && pre.next_id < u64::MAX && sacco.encoded_size() > MAX_RECORD_BYTES as nat ==> r
        == Err::<Sacco, Message>(Message::SizeExceeded) && post == pre
    &&& !invalid && pre.next_id < u64::MAX && sacco.encoded_size() <= MAX_RECORD_BYTES as nat ==> {
        &&& r == Ok::<Sacco, Message>(sacco)
        &&& post.next_id == pre.next_id + 1
        &&& table_upserted(pre.saccos@, post.saccos@, sacco.id, sacco)
        &&& post.saccos@.len() == pre.saccos@.len() + 1
        &&& post == (FleetStore { next_id: post.next_id, saccos: post.saccos, ..pre })
    }
}

/// What registering a vehicle does.
pub open spec fn register_matatu_post(
    pre: FleetStore,
    post: FleetStore,
    payload: RegisterMatatuPayload,
    r: Result<Matatu, Message>,
) -> bool {
    let invalid = payload.plate_number@.len() == 0 || payload.route@.len() == 0;
    let missing = !has_key(pre.saccos@, payload.sacco_id);
    let matatu = (Matatu {
        id: (pre.next_id + 1) as u64,
        sacco_id: payload.sacco_id,
        plate_number: payload.plate_number,
        capacity: payload.capacity,
        route: payload.route,
        status: MatatuStatus::Active,
    });
    &&& invalid ==> r == Err::<Matatu, Message>(Message::InvalidPayload) && post == pre
    &&& !invalid && missing ==> r == Err::<Matatu, Message>(Message::NotFound(EntityKind::Sacco))
        && post == pre
    &&& !invalid && !missing && pre.next_id == u64::MAX ==> r == Err::<Matatu, Message>(
        Message::InvariantViolation,
    ) && post == pre
    &&& !invalid && !missing && pre.next_id < u64::MAX && matatu.encoded_size()
        > MAX_RECORD_BYTES as nat ==> r == Err::<Matatu, Message>(Message::SizeExceeded) && post
        == pre
    &&& !invalid && !missing && pre.next_id < u64::MAX && matatu.encoded_size()
        <= MAX_RECORD_BYTES as nat ==> {
        &&& r == Ok::<Matatu, Message>(matatu)
        &&& post.next_id == pre.next_id + 1
        &&& table_upserted(pre.matatus@, post.matatus@, matatu.id, matatu)
        &&& post.matatus@.len() == pre.matatus@.len() + 1
        &&& post == (FleetStore { next_id: post.next_id, matatus: post.matatus, ..pre })
    }
}

/// What registering a driver does.
pub open spec fn register_driver_post(
    pre: FleetStore,
    post: FleetStore,
    payload: RegisterDriverPayload,
    r: Result<Driver, Message>,
) -> bool {
    let invalid = payload.name@.len() == 0 || payload.license_number@.len() == 0;
    let missing = !has_key(pre.saccos@, payload.sacco_id);
    let driver = (Driver {
        id: (pre.next_id + 1) as u64,
        sacco_id: payload.sacco_id,
        name: payload.name,
        license_number: payload.license_number,
        contact: payload.contact,
        assigned_matatu: None,
    });
    &&& invalid ==> r == Err::<Driver, Message>(Message::InvalidPayload) && post == pre
    &&& !invalid && missing ==> r == Err::<Driver, Message>(Message::NotFound(EntityKind::Sacco))
        && post == pre
    &&& !invalid && !missing && pre.next_id == u64::MAX ==> r == Err::<Driver, Message>(
        Message::InvariantViolation,
    ) && post == pre
    &&& !invalid && !missing && pre.next_id < u64::MAX && driver.encoded_size()
        > MAX_RECORD_BYTES as nat ==> r == Err::<Driver, Message>(Message::SizeExceeded) && post
        == pre
    &&& !invalid && !missing && pre.next_id < u64::MAX && driver.encoded_size()
        <= MAX_RECORD_BYTES as nat ==> {
        &&& r == Ok::<Driver, Message>(driver)
        &&& post.next_id == pre.next_id + 1
        &&& table_upserted(pre.drivers@, post.drivers@, driver.id, driver)
        &&& post.drivers@.len() == pre.drivers@.len() + 1
        &&& post == (FleetStore { next_id: post.next_id, drivers: post.drivers, ..pre })
    }
}

/// What assigning a driver to a vehicle does: only the driver's
/// `assigned_matatu` field changes, under the explicit assignment
/// operation and never implicitly.
pub open spec fn assign_driver_post(
    pre: FleetStore,
    post: FleetStore,
    driver_id: u64,
    matatu_id: u64,
    r: Result<Driver, Message>,
) -> bool {
    let no_matatu = !has_key(pre.matatus@, matatu_id);
    let d0 = lookup(pre.drivers@, driver_id);
    &&& no_matatu ==> r == Err::<Driver, Message>(Message::NotFound(EntityKind::Matatu)) && post
        == pre
    &&& !no_matatu && d0 is None ==> r == Err::<Driver, Message>(
        Message::NotFound(EntityKind::Driver),
    ) && post == pre
    &&& (!no_matatu && d0 is Some) ==> {
        let d1 = (Driver { assigned_matatu: Some(matatu_id), ..d0.unwrap() });
        &&& r == Ok::<Driver, Message>(d1)
        &&& table_upserted(pre.drivers@, post.drivers@, driver_id, d1)
        &&& post.drivers@.len() == pre.drivers@.len()
        &&& post == (FleetStore { drivers: post.drivers, ..pre })
    }
}

/// What recording a ledger or event row does: `row` is the record as it
/// will stand under the next identifier, `tbl_pre`/`tbl_post` the touched
/// store's entries, and `frame_ok` that nothing else changed.
pub open spec fn appended_post<T>(
    pre_next: u64,
    post_next: u64,
    tbl_pre: Seq<(u64, T)>,
    tbl_post: Seq<(u64, T)>,
    row: T,
) -> bool {
    &&& post_next == pre_next + 1
    &&& table_upserted(tbl_pre, tbl_post, (pre_next + 1) as u64, row)
    &&& tbl_post.len() == tbl_pre.len() + 1
}

/// What recording an expense ledger entry does.
pub open spec fn record_expense_post(
    pre: FleetStore,
    post: FleetStore,
    payload: RecordExpensePayload,
    now: u64,
    r: Result<u64, Message>,
) -> bool {
    let row = (Expense {
        id: (pre.next_id + 1) as u64,
        sacco_id: payload.sacco_id,
        date: now,
        category: payload.category,
        amount: payload.amount,
        description: payload.description,
    });
    &&& pre.next_id == u64::MAX ==> r == Err::<u64, Message>(Message::InvariantViolation) && post
        == pre
    &&& pre.next_id < u64::MAX && row.encoded_size() > MAX_RECORD_BYTES as nat ==> r == Err::<
        u64,
        Message,
    >(Message::SizeExceeded) && post == pre
    &&& pre.next_id < u64::MAX && row.encoded_size() <= MAX_RECORD_BYTES as nat ==> {
        &&& r == Ok::<u64, Message>(row.id)
        &&& appended_post(pre.next_id, post.next_id, pre.expenses@, post.expenses@, row)
        &&& post == (FleetStore { next_id: post.next_id, expenses: post.expenses, ..pre })
    }
}

/// What recording a revenue ledger entry does.
pub open spec fn record_revenue_post(
    pre: FleetStore,
    post: FleetStore,
    payload: RecordRevenuePayload,
    now: u64,
    r: Result<u64, Message>,
) -> bool {
    let row = (Revenue {
        id: (pre.next_id + 1) as u64,
        sacco_id: payload.sacco_id,
        date: now,
        matatu_id: payload.matatu_id,
        amount: payload.amount,
        description: payload.description,
    });
    &&& pre.next_id == u64::MAX ==> r == Err::<u64, Message>(Message::InvariantViolation) && post
        == pre
    &&& pre.next_id < u64::MAX && row.encoded_size() > MAX_RECORD_BYTES as nat ==> r == Err::<
        u64,
        Message,
    >(Message::SizeExceeded) && post == pre
    &&& pre.next_id < u64::MAX && row.encoded_size() <= MAX_RECORD_BYTES as nat ==> {
        &&& r == Ok::<u64, Message>(row.id)
        &&& appended_post(pre.next_id, post.next_id, pre.revenues@, post.revenues@, row)
        &&& post == (FleetStore { next_id: post.next_id, revenues: post.revenues, ..pre })
    }
}

/// What recording a maintenance event does.
pub open spec fn record_maintenance_post(
    pre: FleetStore,
    post: FleetStore,
    payload: RecordMaintenancePayload,
    now: u64,
    r: Result<u64, Message>,
) -> bool {
    let row = (Maintenance {
        id: (pre.next_id + 1) as u64,
        matatu_id: payload.matatu_id,
        date: now,
        description: payload.description,
        cost: payload.cost,
        status: MaintenanceStatus::Scheduled,
    });
    &&& pre.next_id == u64::MAX ==> r == Err::<u64, Message>(Message::InvariantViolation) && post
        == pre
    &&& pre.next_id < u64::MAX && row.encoded_size() > MAX_RECORD_BYTES as nat ==> r == Err::<
        u64,
        Message,
    >(Message::SizeExceeded) && post == pre
    &&& pre.next_id < u64::MAX && row.encoded_size() <= MAX_RECORD_BYTES as nat ==> {
        &&& r == Ok::<u64, Message>(row.id)
        &&& appended_post(
            pre.next_id,
            post.next_id,
            pre.maintenance_records@,
            post.maintenance_records@,
            row,
        )
        &&& post == (FleetStore {
            next_id: post.next_id,
            maintenance_records: post.maintenance_records,
            ..pre
        })
    }
}

/// What recording a fuel purchase does.
pub open spec fn record_fuel_post(
    pre: FleetStore,
    post: FleetStore,
    payload: RecordFuelPayload,
    now: u64,
    r: Result<u64, Message>,
) -> bool {
    let row = (FuelConsumption {
        id: (pre.next_id + 1) as u64,
        matatu_id: payload.matatu_id,
        date: now,
        liters: payload.liters,
        cost: payload.cost,
        odometer_reading: payload.odometer_reading,
    });
    &&& pre.next_id == u64::MAX ==> r == Err::<u64, Message>(Message::InvariantViolation) && post
        == pre
    &&& pre.next_id < u64::MAX ==> {
        &&& r == Ok::<u64, Message>(row.id)
        &&& appended_post(pre.next_id, post.next_id, pre.fuel_records@, post.fuel_records@, row)
        &&& post == (FleetStore {
            next_id: post.next_id,
            fuel_records: post.fuel_records,
            ..pre
        })
    }
}

/// What adding a route does.
pub open spec fn add_route_post(
    pre: FleetStore,
    post: FleetStore,
    payload: RoutePayload,
    r: Result<u64, Message>,
) -> bool {
    let row = (Route {
        id: (pre.next_id + 1) as u64,
        name: payload.name,
        start_point: payload.start_point,
        end_point: payload.end_point,
        distance: payload.distance,
        estimated_time: payload.estimated_time,
        peak_hours: payload.peak_hours,
        traffic_patterns: payload.traffic_patterns,
        average_passengers: payload.average_passengers,
        price: payload.price,
    });
    &&& pre.next_id == u64::MAX ==> r == Err::<u64, Message>(Message::InvariantViolation) && post
        == pre
    &&& pre.next_id < u64::MAX && row.encoded_size() > MAX_RECORD_BYTES as nat ==> r == Err::<
        u64,
        Message,
    >(Message::SizeExceeded) && post == pre
    &&& pre.next_id < u64::MAX && row.encoded_size() <= MAX_RECORD_BYTES as nat ==> {
        &&& r == Ok::<u64, Message>(row.id)
        &&& appended_post(pre.next_id, post.next_id, pre.routes@, post.routes@, row)
        &&& post == (FleetStore { next_id: post.next_id, routes: post.routes, ..pre })
    }
}

/// The vehicles of one cooperative that are available for scheduling: the
/// `Active` ones, in store order.
pub open spec fn active_of(s: Seq<(u64, Matatu)>, sacco_id: u64) -> Seq<Matatu>
    decreases s.len(),
{
    if s.len() == 0 {
        Seq::empty()
    } else {
        active_of(s.drop_last(), sacco_id) + (if s.last().1.sacco_id == sacco_id
            && s.last().1.status is Active {
            seq![s.last().1]
        } else {
            Seq::empty()
        })
    }
}

/// The drivers of one cooperative, in store order.
pub open spec fn drivers_of(s: Seq<(u64, Driver)>, sacco_id: u64) -> Seq<Driver>
    decreases s.len(),
{
    if s.len() == 0 {
        Seq::empty()
    } else {
        drivers_of(s.drop_last(), sacco_id) + (if s.last().1.sacco_id == sacco_id {
            seq![s.last().1]
        } else {
            Seq::empty()
        })
    }
}

impl FleetStore {
    /// Records an expense ledger entry (append-only) dated `now`.
    pub fn record_expense(&mut self, payload: RecordExpensePayload, now: u64) -> (r: Result<
        u64,
        Message,
    >)
        requires
            old(self).wf(),
        ensures
            final(self).wf(),
            record_expense_post(*old(self), *final(self), payload, now, r),
    {
        if self.next_id == u64::MAX {
            return Err(Message::InvariantViolation);
        }
        let id = self.next_id + 1;
        let row = Expense {
            id,
            sacco_id: payload.sacco_id,
            date: now,
            category: payload.category,
            amount: payload.amount,
            description: payload.description,
        };
        if !check_fits(&row) {
            return Err(Message::SizeExceeded);
        }
        let ghost grow = row;
        proof {
            lemma_fresh_key(self.expenses@, self.next_id, id);
        }
        self.next_id = id;
        match self.expenses.insert(id, row) {
            Ok(()) => {},
            Err(e) => {
                return Err(e);
            },
        }
        proof {
            lemma_table_ok_upsert(
                old(self).expenses@,
                self.expenses@,
                old(self).next_id,
                self.next_id,
                id,
                grow,
            );
        }
        Ok(id)
    }

    /// Records a revenue ledger entry (append-only) dated `now`.
    pub fn record_revenue(&mut self, payload: RecordRevenuePayload, now: u64) -> (r: Result<
        u64,
        Message,
    >)
        requires
            old(self).wf(),
        ensures
            final(self).wf(),
            record_revenue_post(*old(self), *final(self), payload, now, r),
    {
        if self.next_id == u64::MAX {
            return Err(Message::InvariantViolation);
        }
        let id = self.next_id + 1;
        let row = Revenue {
            id,
            sacco_id: payload.sacco_id,
            date: now,
            matatu_id: payload.matatu_id,
            amount: payload.amount,
            description: payload.description,
        };
        if !check_fits(&row) {
            return Err(Message::SizeExceeded);
        }
        let ghost grow = row;
        proof {
            lemma_fresh_key(self.revenues@, self.next_id, id);
        }
        self.next_id = id;
        match self.revenues.insert(id, row) {
            Ok(()) => {},
            Err(e) => {
                return Err(e);
            },
        }
        proof {
            lemma_table_ok_upsert(
                old(self).revenues@,
                self.revenues@,
                old(self).next_id,
                self.next_id,
                id,
                grow,
            );
        }
        Ok(id)
    }

    /// Records a maintenance event (append-only) dated `now`.
    pub fn record_maintenance(&mut self, payload: RecordMaintenancePayload, now: u64) -> (r: Result<
        u64,
        Message,
    >)
        requires
            old(self).wf(),
        ensures
            final(self).wf(),
            record_maintenance_post(*old(self), *final(self), payload, now, r),
    {
        if self.next_id == u64::MAX {
            return Err(Message::InvariantViolation);
        }
        let id = self.next_id + 1;
        let row = Maintenance {
            id,
            matatu_id: payload.matatu_id,
            date: now,
            description: payload.description,
            cost: payload.cost,
            status: MaintenanceStatus::Scheduled,
        };
        if !check_fits(&row) {
            return Err(Message::SizeExceeded);
        }
        let ghost grow = row;
        proof {
            lemma_fresh_key(self.maintenance_records@, self.next_id, id);
        }
        self.next_id = id;
        match self.maintenance_records.insert(id, row) {
            Ok(()) => {},
            Err(e) => {
                return Err(e);
            },
        }
        proof {
            lemma_table_ok_upsert(
                old(self).maintenance_records@,
                self.maintenance_records@,
                old(self).next_id,
                self.next_id,
                id,
                grow,
            );
        }
        Ok(id)
    }

    /// Records a fuel purchase (append-only) dated `now`; the record is of
    /// fixed footprint, so only counter exhaustion can fail it.
    pub fn record_fuel(&mut self, payload: RecordFuelPayload, now: u64) -> (r: Result<u64, Message>)
        requires
            old(self).wf(),
        ensures
            final(self).wf(),
            record_fuel_post(*old(self), *final(self), payload, now, r),
    {
        if self.next_id == u64::MAX {
            return Err(Message::InvariantViolation);
        }
        let id = self.next_id + 1;
        let row = FuelConsumption {
            id,
            matatu_id: payload.matatu_id,
            date: now,
            liters: payload.liters,
            cost: payload.cost,
            odometer_reading: payload.odometer_reading,
        };
        let ghost grow = row;
        proof {
            lemma_fresh_key(self.fuel_records@, self.next_id, id);
        }
        self.next_id = id;
        match self.fuel_records.insert(id, row) {
            Ok(()) => {},
            Err(e) => {
                return Err(e);
            },
        }
        proof {
            lemma_table_ok_upsert(
                old(self).fuel_records@,
                self.fuel_records@,
                old(self).next_id,
                self.next_id,
                id,
                grow,
            );
        }
        Ok(id)
    }

    /// Adds a route with its demand windows and traffic patterns.
    pub fn add_route(&mut self, payload: RoutePayload) -> (r: Result<u64, Message>)
        requires
            old(self).wf(),
        ensures
            final(self).wf(),
            add_route_post(*old(self), *final(self), payload, r),
    {
        if self.next_id == u64::MAX {
            return Err(Message::InvariantViolation);
        }
        let id = self.next_id + 1;
        let row = Route {
            id,
            name: payload.name,
            start_point: payload.start_point,
            end_point: payload.end_point,
            distance: payload.distance,
            estimated_time: payload.estimated_time,
            peak_hours: payload.peak_hours,
            traffic_patterns: payload.traffic_patterns,
            average_passengers: payload.average_passengers,
            price: payload.price,
        };
        if !check_fits(&row) {
            return Err(Message::SizeExceeded);
        }
        let ghost grow = row;
        proof {
            lemma_fresh_key(self.routes@, self.next_id, id);
        }
        self.next_id = id;
        match self.routes.insert(id, row) {
            Ok(()) => {},
            Err(e) => {
                return Err(e);
            },
        }
        proof {
            lemma_table_ok_upsert(
                old(self).routes@,
                self.routes@,
                old(self).next_id,
                self.next_id,
                id,
                grow,
            );
        }
        Ok(id)
    }

    /// The `Active` vehicles of one cooperative, in ascending identifier
    /// order; the date is accepted for interface stability but no
    /// per-date availability is modelled.
    pub fn get_available_matatus(&self, sacco_id: u64, _date: u64) -> (r: Vec<Matatu>)
        ensures
            r@ == active_of(self.matatus@, sacco_id),
    {
        let n = self.matatus.len();
        let mut r: Vec<Matatu> = Vec::new();
        let mut i: usize = 0;
        while i < n
            invariant
                n == self.matatus@.len(),
                0 <= i <= n,
                r@ == active_of(self.matatus@.take(i as int), sacco_id),
            decreases n - i,
        {
            let e = self.matatus.entry_at(i);
            proof {
                assert(self.matatus@.take(i + 1).drop_last() =~= self.matatus@.take(i as int));
                assert(self.matatus@.take(i + 1).last() == self.matatus@[i as int]);
            }
            let keep = match e.1.status {
                MatatuStatus::Active => e.1.sacco_id == sacco_id,
                _ => false,
            };
            if keep {
                r.push(e.1.clone());
                proof {
                    assert(r@ =~= active_of(self.matatus@.take(i + 1), sacco_id));
                }
            }
            i = i + 1;
        }
        proof {
            assert(self.matatus@.take(n as int) =~= self.matatus@);
        }
        r
    }

    /// The drivers of one cooperative, in ascending identifier order; the
    /// date is accepted for interface stability but no per-date
    /// availability is modelled.
    pub fn get_available_drivers(&self, sacco_id: u64, _date: u64) -> (r: Vec<Driver>)
        ensures
            r@ == drivers_of(self.drivers@, sacco_id),
    {
        let n = self.drivers.len();
        let mut r: Vec<Driver> = Vec::new();
        let mut i: usize = 0;
        while i < n
            invariant
                n == self.drivers@.len(),
                0 <= i <= n,
                r@ == drivers_of(self.drivers@.take(i as int), sacco_id),
            decreases n - i,
        {
            let e = self.drivers.entry_at(i);
            proof {
                assert(self.drivers@.take(i + 1).drop_last() =~= self.drivers@.take(i as int));
                assert(self.drivers@.take(i + 1).last() == self.drivers@[i as int]);
            }
            if e.1.sacco_id == sacco_id {
                r.push(e.1.clone());
                proof {
                    assert(r@ =~= drivers_of(self.drivers@.take(i + 1), sacco_id));
                }
            }
            i = i + 1;
        }
        proof {
            assert(self.drivers@.take(n as int) =~= self.drivers@);
        }
        r
    }

    /// Registers a cooperative: requires non-empty name, contact and
    /// email; allocates the next identifier and persists the record.
    pub fn create_sacco(&mut self, payload: CreateSaccoPayload, now: u64) -> (r: Result<
        Sacco,
        Message,
    >)
        requires
            old(self).wf(),
        ensures
            final(self).wf(),
            create_sacco_post(*old(self), *final(self), payload, now, r),
    {
        if payload.name.as_str().is_empty() || payload.contact.as_str().is_empty()
            || payload.email.as_str().is_empty() {
            return Err(Message::InvalidPayload);
        }
        if self.next_id == u64::MAX {
            return Err(Message::InvariantViolation);
        }
        let id = self.next_id + 1;
        let sacco = Sacco {
            id,
            name: payload.name,
            location: payload.location,
            contact: payload.contact,
            email: payload.email,
            created_at: now,
        };
        if !check_fits(&sacco) {
            return Err(Message::SizeExceeded);
        }
        let ret = sacco.clone();
        proof {
            lemma_fresh_key(self.saccos@, self.next_id, id);
        }
        self.next_id = id;
        match self.saccos.insert(id, sacco) {
            Ok(()) => {},
            Err(e) => {
                return Err(e);
            },
        }
        proof {
            lemma_table_ok_upsert(
                old(self).saccos@,
                self.saccos@,
                old(self).next_id,
                self.next_id,
                id,
                ret,
            );
        }
        Ok(ret)
    }

    /// Registers a vehicle under an existing cooperative: requires
    /// non-empty plate number and route, and an existing `sacco_id`;
    /// new vehicles start `Active`.
    pub fn register_matatu(&mut self, payload: RegisterMatatuPayload) -> (r: Result<
        Matatu,
        Message,
    >)
        requires
            old(self).wf(),
        ensures
            final(self).wf(),
            register_matatu_post(*old(self), *final(self), payload, r),
    {
        if payload.plate_number.as_str().is_empty() || payload.route.as_str().is_empty() {
            return Err(Message::InvalidPayload);
        }
        if !self.saccos.contains(payload.sacco_id) {
            return Err(Message::NotFound(EntityKind::Sacco));
        }
        if self.next_id == u64::MAX {
            return Err(Message::InvariantViolation);
        }
        let id = self.next_id + 1;
        let matatu = Matatu {
            id,
            sacco_id: payload.sacco_id,
            plate_number: payload.plate_number,
            capacity: payload.capacity,
            route: payload.route,
            status: MatatuStatus::Active,
        };
        if !check_fits(&matatu) {
            return Err(Message::SizeExceeded);
        }
        let ret = matatu.clone();
        proof {
            lemma_fresh_key(self.matatus@, self.next_id, id);
        }
        self.next_id = id;
        match self.matatus.insert(id, matatu) {
            Ok(()) => {},
            Err(e) => {
                return Err(e);
            },
        }
        proof {
            lemma_table_ok_upsert(
                old(self).matatus@,
                self.matatus@,
                old(self).next_id,
                self.next_id,
                id,
                ret,
            );
        }
        Ok(ret)
    }

    /// Registers a driver under an existing cooperative: requires
    /// non-empty name and license number, and an existing `sacco_id`;
    /// new drivers have no assigned vehicle.
    pub fn register_driver(&mut self, payload: RegisterDriverPayload) -> (r: Result<
        Driver,
        Message,
    >)
        requires
            old(self).wf(),
        ensures
            final(self).wf(),
            register_driver_post(*old(self), *final(self), payload, r),
    {
        if payload.name.as_str().is_empty() || payload.license_number.as_str().is_empty() {
            return Err(Message::InvalidPayload);
        }
        if !self.saccos.contains(payload.sacco_id) {
            return Err(Message::NotFound(EntityKind::Sacco));
        }
        if self.next_id == u64::MAX {
            return Err(Message::InvariantViolation);
        }
        let id = self.next_id + 1;
        let driver = Driver {
            id,
            sacco_id: payload.sacco_id,
            name: payload.name,
            license_number: payload.license_number,
            contact: payload.contact,
            assigned_matatu: None,
        };
        if !check_fits(&driver) {
            return Err(Message::SizeExceeded);
        }
        let ret = driver.clone();
        proof {
            lemma_fresh_key(self.drivers@, self.next_id, id);
        }
        self.next_id = id;
        match self.drivers.insert(id, driver) {
            Ok(()) => {},
            Err(e) => {
                return Err(e);
            },
        }
        proof {
            lemma_table_ok_upsert(
                old(self).drivers@,
                self.drivers@,
                old(self).next_id,
                self.next_id,
                id,
                ret,
            );
        }
        Ok(ret)
    }

    /// Assigns an existing vehicle to an existing driver by re-inserting
    /// the driver record with `assigned_matatu` set.
    pub fn assign_driver_to_matatu(&mut self, driver_id: u64, matatu_id: u64) -> (r: Result<
        Driver,
        Message,
    >)
        requires
            old(self).wf(),
        ensures
            final(self).wf(),
            assign_driver_post(*old(self), *final(self), driver_id, matatu_id, r),
    {
        if !self.matatus.contains(matatu_id) {
            return Err(Message::NotFound(EntityKind::Matatu));
        }
        let d1 = match self.drivers.get(driver_id) {
            Some(d) => {
                let mut c = d.clone();
                c.assigned_matatu = Some(matatu_id);
                c
            },
            None => {
                return Err(Message::NotFound(EntityKind::Driver));
            },
        };
        let ret = d1.clone();
        proof {
            // the stored driver record is bounded, and the assignment
            // leaves the record's footprint unchanged
            let s = self.drivers@;
            assert(has_key(s, driver_id));
            crate::table::lemma_lookup_sorted(s, driver_id);
            let i = choose|i: int| 0 <= i < s.len() && (#[trigger] s[i]).0 == driver_id;
            assert(lookup(s, driver_id) == Some(s[i].1));
            assert(s[i].1.encoded_size() <= MAX_RECORD_BYTES as nat);
            assert(d1.encoded_size() == s[i].1.encoded_size());
        }
        match self.drivers.insert(driver_id, d1) {
            Ok(()) => {},
            Err(e) => {
                return Err(e);
            },
        }
        proof {
            lemma_table_ok_upsert(
                old(self).drivers@,
                self.drivers@,
                old(self).next_id,
                self.next_id,
                driver_id,
                ret,
            );
        }
        Ok(ret)
    }
}

} // verus!
