use matatu_fleet::entities::CreateSaccoPayload;
use matatu_fleet::entities::EndTripPayload;
use matatu_fleet::entities::RegisterDriverPayload;
use matatu_fleet::entities::RegisterMatatuPayload;
use matatu_fleet::entities::StartTripPayload;
use matatu_fleet::errors::EntityKind;
use matatu_fleet::errors::Message;
use matatu_fleet::perf::MONTH_NANOS;
use matatu_fleet::store::FleetStore;

#[test]
fn accrue_twice_in_one_month_yields_one_record() {
    let mut store = FleetStore::new();
    let now = 5 * MONTH_NANOS + 17;
    store.update_driver_performance(8, 100, now).unwrap();
    store.update_driver_performance(8, 250, now + 1000).unwrap();
    let perf = store.get_driver_performance(8, 5).unwrap();
    assert_eq!(perf.trips_completed, 2);
    assert_eq!(perf.total_revenue, 350);
    assert_eq!(perf.month, 5);
    assert_eq!(perf.driver_id, 8);
    // the two accruals share one bucket record, so no other month holds one
    assert!(store.get_driver_performance(8, 4).is_err());
    assert!(store.get_driver_performance(8, 6).is_err());
}

#[test]
fn accruals_in_different_months_use_separate_buckets() {
    let mut store = FleetStore::new();
    store.update_driver_performance(8, 100, 2 * MONTH_NANOS).unwrap();
    store.update_driver_performance(8, 300, 3 * MONTH_NANOS).unwrap();
    let feb = store.get_driver_performance(8, 2).unwrap();
    let mar = store.get_driver_performance(8, 3).unwrap();
    assert_eq!(feb.trips_completed, 1);
    assert_eq!(feb.total_revenue, 100);
    assert_eq!(mar.trips_completed, 1);
    assert_eq!(mar.total_revenue, 300);
}

#[test]
fn fresh_bucket_starts_with_full_compliance() {
    let mut store = FleetStore::new();
    let perf = store.update_driver_performance(3, 40, 0).unwrap();
    assert_eq!(perf.trips_completed, 1);
    assert_eq!(perf.total_revenue, 40);
    assert_eq!(perf.customer_rating, 0);
    assert_eq!(perf.compliance_score, 100);
}

#[test]
fn unknown_bucket_yields_not_found() {
    let store = FleetStore::new();
    let r = store.get_driver_performance(8, 5);
    assert!(matches!(r, Err(Message::NotFound(EntityKind::Performance))));
}

#[test]
fn two_completed_trips_accrue_on_the_drivers_bucket() {
    let mut store = FleetStore::new();
    let sacco = store
        .create_sacco(
            CreateSaccoPayload {
                name: "Metro".to_string(),
                location: "Nairobi".to_string(),
                contact: "0700000000".to_string(),
                email: "info@example.com".to_string(),
            },
            0,
        )
        .unwrap();
    let matatu = store
        .register_matatu(RegisterMatatuPayload {
            sacco_id: sacco.id,
            plate_number: "KAA 001B".to_string(),
            capacity: 14,
            route: "r".to_string(),
        })
        .unwrap();
    let driver = store
        .register_driver(RegisterDriverPayload {
            sacco_id: sacco.id,
            name: "Jane".to_string(),
            license_number: "DL-1".to_string(),
            contact: "07".to_string(),
        })
        .unwrap();
    for revenue in [500u64, 250u64] {
        let trip = store
            .start_trip(
                StartTripPayload {
                    matatu_id: matatu.id,
                    driver_id: driver.id,
                    route: "r".to_string(),
                },
                10,
            )
            .unwrap();
        store
            .end_trip(EndTripPayload { trip_id: trip.id, passengers: 10, revenue }, 20)
            .unwrap();
    }
    let perf = store.get_driver_performance(driver.id, 0).unwrap();
    assert_eq!(perf.trips_completed, 2);
    assert_eq!(perf.total_revenue, 750);
}
