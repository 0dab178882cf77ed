use matatu_fleet::entities::CreateSaccoPayload;
use matatu_fleet::entities::CustomerFeedbackPayload;
use matatu_fleet::entities::EndTripPayload;
use matatu_fleet::entities::MatatuStatus;
use matatu_fleet::entities::RegisterDriverPayload;
use matatu_fleet::entities::RegisterMatatuPayload;
use matatu_fleet::entities::StartTripPayload;
use matatu_fleet::entities::TripStatus;
use matatu_fleet::errors::EntityKind;
use matatu_fleet::errors::Message;
use matatu_fleet::store::FleetStore;

fn sacco_payload(name: &str) -> CreateSaccoPayload {
    CreateSaccoPayload {
        name: name.to_string(),
        location: "Nairobi".to_string(),
        contact: "0700000000".to_string(),
        email: "info@example.com".to_string(),
    }
}

fn matatu_payload(sacco_id: u64, plate: &str) -> RegisterMatatuPayload {
    RegisterMatatuPayload {
        sacco_id,
        plate_number: plate.to_string(),
        capacity: 14,
        route: "CBD-Rongai".to_string(),
    }
}

fn driver_payload(sacco_id: u64, name: &str) -> RegisterDriverPayload {
    RegisterDriverPayload {
        sacco_id,
        name: name.to_string(),
        license_number: "DL-1234".to_string(),
        contact: "0711111111".to_string(),
    }
}

#[test]
fn identifiers_strictly_increase_across_entity_types() {
    let mut store = FleetStore::new();
    let sacco = store.create_sacco(sacco_payload("Metro"), 10).unwrap();
    let matatu = store.register_matatu(matatu_payload(sacco.id, "KAA 001B")).unwrap();
    let driver = store.register_driver(driver_payload(sacco.id, "Jane")).unwrap();
    let trip = store
        .start_trip(
            StartTripPayload {
                matatu_id: matatu.id,
                driver_id: driver.id,
                route: "CBD-Rongai".to_string(),
            },
            20,
        )
        .unwrap();
    assert_eq!(sacco.id, 1);
    assert_eq!(matatu.id, 2);
    assert_eq!(driver.id, 3);
    assert_eq!(trip.id, 4);
    assert!(sacco.id < matatu.id && matatu.id < driver.id && driver.id < trip.id);
}

#[test]
fn generate_id_is_monotonic() {
    let mut store = FleetStore::new();
    let a = store.generate_id().unwrap();
    let b = store.generate_id().unwrap();
    let c = store.generate_id().unwrap();
    assert_eq!(a, 1);
    assert_eq!(b, 2);
    assert_eq!(c, 3);
}

#[test]
fn create_sacco_rejects_empty_required_fields() {
    let mut store = FleetStore::new();
    let mut p = sacco_payload("Metro");
    p.name = String::new();
    assert!(matches!(store.create_sacco(p, 0), Err(Message::InvalidPayload)));
    // a failed creation allocates nothing
    let sacco = store.create_sacco(sacco_payload("Metro"), 0).unwrap();
    assert_eq!(sacco.id, 1);
}

#[test]
fn register_matatu_unknown_sacco_yields_not_found_and_no_write() {
    let mut store = FleetStore::new();
    let r = store.register_matatu(matatu_payload(77, "KBB 123X"));
    assert!(matches!(r, Err(Message::NotFound(EntityKind::Sacco))));
    // nothing was inserted and no identifier was consumed
    assert!(store.get_matatu(1).is_none());
    let sacco = store.create_sacco(sacco_payload("Metro"), 0).unwrap();
    assert_eq!(sacco.id, 1);
    assert_eq!(store.get_available_matatus(sacco.id, 0).len(), 0);
}

#[test]
fn register_driver_unknown_sacco_yields_not_found_and_no_write() {
    let mut store = FleetStore::new();
    let r = store.register_driver(driver_payload(5, "Jane"));
    assert!(matches!(r, Err(Message::NotFound(EntityKind::Sacco))));
    assert!(store.get_driver(1).is_none());
    assert_eq!(store.get_available_drivers(5, 0).len(), 0);
}

#[test]
fn register_matatu_starts_active() {
    let mut store = FleetStore::new();
    let sacco = store.create_sacco(sacco_payload("Metro"), 0).unwrap();
    let matatu = store.register_matatu(matatu_payload(sacco.id, "KAA 001B")).unwrap();
    assert_eq!(matatu.status, MatatuStatus::Active);
    assert_eq!(matatu.sacco_id, sacco.id);
    let avail = store.get_available_matatus(sacco.id, 0);
    assert_eq!(avail.len(), 1);
    assert_eq!(avail[0].plate_number, "KAA 001B");
}

#[test]
fn assign_driver_to_matatu_sets_assignment() {
    let mut store = FleetStore::new();
    let sacco = store.create_sacco(sacco_payload("Metro"), 0).unwrap();
    let matatu = store.register_matatu(matatu_payload(sacco.id, "KAA 001B")).unwrap();
    let driver = store.register_driver(driver_payload(sacco.id, "Jane")).unwrap();
    assert_eq!(driver.assigned_matatu, None);
    let updated = store.assign_driver_to_matatu(driver.id, matatu.id).unwrap();
    assert_eq!(updated.assigned_matatu, Some(matatu.id));
    assert_eq!(store.get_driver(driver.id).unwrap().assigned_matatu, Some(matatu.id));
}

#[test]
fn assign_driver_missing_parties_yield_typed_not_found() {
    let mut store = FleetStore::new();
    let sacco = store.create_sacco(sacco_payload("Metro"), 0).unwrap();
    let matatu = store.register_matatu(matatu_payload(sacco.id, "KAA 001B")).unwrap();
    assert!(matches!(
        store.assign_driver_to_matatu(9, 999),
        Err(Message::NotFound(EntityKind::Matatu))
    ));
    assert!(matches!(
        store.assign_driver_to_matatu(9, matatu.id),
        Err(Message::NotFound(EntityKind::Driver))
    ));
}

#[test]
fn start_trip_requires_existing_matatu_and_driver() {
    let mut store = FleetStore::new();
    let sacco = store.create_sacco(sacco_payload("Metro"), 0).unwrap();
    let matatu = store.register_matatu(matatu_payload(sacco.id, "KAA 001B")).unwrap();
    let missing_matatu = store.start_trip(
        StartTripPayload { matatu_id: 99, driver_id: 1, route: "r".to_string() },
        0,
    );
    assert!(matches!(missing_matatu, Err(Message::NotFound(EntityKind::Matatu))));
    let missing_driver = store.start_trip(
        StartTripPayload { matatu_id: matatu.id, driver_id: 99, route: "r".to_string() },
        0,
    );
    assert!(matches!(missing_driver, Err(Message::NotFound(EntityKind::Driver))));
}

#[test]
fn end_trip_completes_an_ongoing_trip_once() {
    let mut store = FleetStore::new();
    let sacco = store.create_sacco(sacco_payload("Metro"), 0).unwrap();
    let matatu = store.register_matatu(matatu_payload(sacco.id, "KAA 001B")).unwrap();
    let driver = store.register_driver(driver_payload(sacco.id, "Jane")).unwrap();
    let trip = store
        .start_trip(
            StartTripPayload {
                matatu_id: matatu.id,
                driver_id: driver.id,
                route: "CBD".to_string(),
            },
            100,
        )
        .unwrap();
    assert_eq!(trip.status, TripStatus::Ongoing);
    assert_eq!(trip.end_time, None);
    let done = store
        .end_trip(EndTripPayload { trip_id: trip.id, passengers: 12, revenue: 700 }, 200)
        .unwrap();
    assert_eq!(done.status, TripStatus::Completed);
    assert_eq!(done.end_time, Some(200));
    assert_eq!(done.passengers, 12);
    assert_eq!(done.revenue, 700);
}

#[test]
fn end_trip_on_completed_trip_yields_error_and_mutates_nothing() {
    let mut store = FleetStore::new();
    let sacco = store.create_sacco(sacco_payload("Metro"), 0).unwrap();
    let matatu = store.register_matatu(matatu_payload(sacco.id, "KAA 001B")).unwrap();
    let driver = store.register_driver(driver_payload(sacco.id, "Jane")).unwrap();
    let trip = store
        .start_trip(
            StartTripPayload {
                matatu_id: matatu.id,
                driver_id: driver.id,
                route: "CBD".to_string(),
            },
            100,
        )
        .unwrap();
    store
        .end_trip(EndTripPayload { trip_id: trip.id, passengers: 12, revenue: 700 }, 200)
        .unwrap();
    let month = 200u64 / 2592000000000000;
    let perf_before = store.get_driver_performance(driver.id, month).unwrap();
    // a second completion is refused and changes neither the trip nor the accrual
    let again = store.end_trip(
        EndTripPayload { trip_id: trip.id, passengers: 50, revenue: 9999 },
        300,
    );
    assert!(matches!(again, Err(Message::Error)));
    let stored = store.get_trip(trip.id).unwrap();
    assert_eq!(stored.status, TripStatus::Completed);
    assert_eq!(stored.end_time, Some(200));
    assert_eq!(stored.revenue, 700);
    let perf_after = store.get_driver_performance(driver.id, month).unwrap();
    assert_eq!(perf_before, perf_after);
}

#[test]
fn end_trip_unknown_trip_yields_not_found() {
    let mut store = FleetStore::new();
    let r = store.end_trip(EndTripPayload { trip_id: 5, passengers: 1, revenue: 1 }, 0);
    assert!(matches!(r, Err(Message::NotFound(EntityKind::Trip))));
}

#[test]
fn oversized_feedback_comment_is_rejected() {
    let mut store = FleetStore::new();
    let comment = "x".repeat(600);
    let r = store.submit_feedback(
        CustomerFeedbackPayload {
            trip_id: 1,
            rating: 5,
            cleanliness: 5,
            punctuality: 5,
            safety: 5,
            comment,
        },
        0,
    );
    assert!(matches!(r, Err(Message::SizeExceeded)));
}

#[test]
fn feedback_accrues_on_the_trips_driver() {
    let mut store = FleetStore::new();
    let sacco = store.create_sacco(sacco_payload("Metro"), 0).unwrap();
    let matatu = store.register_matatu(matatu_payload(sacco.id, "KAA 001B")).unwrap();
    let driver = store.register_driver(driver_payload(sacco.id, "Jane")).unwrap();
    let trip = store
        .start_trip(
            StartTripPayload {
                matatu_id: matatu.id,
                driver_id: driver.id,
                route: "CBD".to_string(),
            },
            10,
        )
        .unwrap();
    assert_ne!(trip.id, driver.id);
    let fb = store
        .submit_feedback(
            CustomerFeedbackPayload {
                trip_id: trip.id,
                rating: 4,
                cleanliness: 5,
                punctuality: 3,
                safety: 5,
                comment: "smooth ride".to_string(),
            },
            1000,
        )
        .unwrap();
    assert_eq!(fb.trip_id, trip.id);
    assert_eq!(fb.timestamp, 1000);
    // the rating is booked as a revenue delta on the trip's driver's
    // current-month bucket, not under the trip's own identifier
    let perf = store.get_driver_performance(driver.id, 0).unwrap();
    assert_eq!(perf.trips_completed, 1);
    assert_eq!(perf.total_revenue, 4);
    assert!(store.get_driver_performance(trip.id, 0).is_err());
}

#[test]
fn feedback_on_unknown_trip_is_stored_without_accrual() {
    let mut store = FleetStore::new();
    let fb = store
        .submit_feedback(
            CustomerFeedbackPayload {
                trip_id: 42,
                rating: 4,
                cleanliness: 5,
                punctuality: 3,
                safety: 5,
                comment: "smooth ride".to_string(),
            },
            1000,
        )
        .unwrap();
    assert_eq!(fb.id, 1);
    assert_eq!(fb.trip_id, 42);
    // no trip, no driver: nothing accrues anywhere
    assert!(store.get_driver_performance(42, 0).is_err());
}

#[test]
fn end_to_end_metro_scenario() {
    let mut store = FleetStore::new();
    let sacco = store.create_sacco(sacco_payload("Metro"), 1).unwrap();
    assert_eq!(sacco.name, "Metro");
    let matatu = store.register_matatu(matatu_payload(sacco.id, "KAA 001B")).unwrap();
    let driver = store.register_driver(driver_payload(sacco.id, "Jane")).unwrap();
    let trip = store
        .start_trip(
            StartTripPayload {
                matatu_id: matatu.id,
                driver_id: driver.id,
                route: "CBD-Rongai".to_string(),
            },
            50,
        )
        .unwrap();
    store
        .end_trip(EndTripPayload { trip_id: trip.id, passengers: 20, revenue: 500 }, 90)
        .unwrap();
    let analytics = store.get_matatu_analytics(matatu.id).unwrap();
    assert_eq!(analytics.total_trips, 1);
    assert_eq!(analytics.total_revenue, 500);
    assert_eq!(analytics.maintenance_costs, 0);
    assert_eq!(analytics.fuel_costs, 0);
    assert_eq!(analytics.net_profit, 500);
}
