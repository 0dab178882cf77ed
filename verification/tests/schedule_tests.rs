use matatu_fleet::entities::CreateSaccoPayload;
use matatu_fleet::entities::LocationUpdatePayload;
use matatu_fleet::entities::RegisterDriverPayload;
use matatu_fleet::entities::RegisterMatatuPayload;
use matatu_fleet::entities::RoutePayload;
use matatu_fleet::entities::ScheduleStatus;
use matatu_fleet::entities::TimeWindow;
use matatu_fleet::entities::TrafficPattern;
use matatu_fleet::errors::EntityKind;
use matatu_fleet::errors::Message;
use matatu_fleet::schedule::calculate_new_arrival_time;
use matatu_fleet::schedule::calculate_optimal_times;
use matatu_fleet::store::FleetStore;

fn setup_sacco(store: &mut FleetStore) -> u64 {
    store
        .create_sacco(
            CreateSaccoPayload {
                name: "Metro".to_string(),
                location: "Nairobi".to_string(),
                contact: "0700000000".to_string(),
                email: "info@example.com".to_string(),
            },
            0,
        )
        .unwrap()
        .id
}

fn route_payload(windows: Vec<TimeWindow>, patterns: Vec<TrafficPattern>) -> RoutePayload {
    RoutePayload {
        name: "CBD-Rongai".to_string(),
        start_point: "CBD".to_string(),
        end_point: "Rongai".to_string(),
        distance: 25000,
        estimated_time: 100,
        peak_hours: windows,
        traffic_patterns: patterns,
        average_passengers: 12,
        price: 100,
    }
}

#[test]
fn optimize_route_matches_the_covering_window() {
    let mut store = FleetStore::new();
    let pattern = TrafficPattern {
        time_window: TimeWindow { start_hour: 7, end_hour: 9, day_of_week: 2 },
        congestion_level: 4,
        average_delay: 15,
    };
    let route_id = store.add_route(route_payload(Vec::new(), vec![pattern])).unwrap();
    // day 2, hour 8
    let now = 2 * 86400 + 8 * 3600;
    let opt = store.optimize_route(route_id, now).unwrap();
    assert_eq!(opt.route_id, route_id);
    assert_eq!(opt.congestion_level, 4);
    // estimated_time * 1.8, truncated: 100 * 9 / 5
    assert_eq!(opt.estimated_duration, 180);
    assert_eq!(opt.optimal_start_time, now + 600);
    assert_eq!(opt.alternate_routes.len(), 0);
}

#[test]
fn optimize_route_falls_back_to_zero_congestion() {
    let mut store = FleetStore::new();
    let pattern = TrafficPattern {
        time_window: TimeWindow { start_hour: 7, end_hour: 9, day_of_week: 2 },
        congestion_level: 4,
        average_delay: 15,
    };
    let route_id = store.add_route(route_payload(Vec::new(), vec![pattern])).unwrap();
    // day 2, hour 10: outside the window, so the default applies
    let now = 2 * 86400 + 10 * 3600;
    let opt = store.optimize_route(route_id, now).unwrap();
    assert_eq!(opt.congestion_level, 0);
    assert_eq!(opt.estimated_duration, 100);
}

#[test]
fn optimize_route_ignores_windows_of_other_days() {
    let mut store = FleetStore::new();
    let pattern = TrafficPattern {
        time_window: TimeWindow { start_hour: 7, end_hour: 9, day_of_week: 2 },
        congestion_level: 4,
        average_delay: 15,
    };
    let route_id = store.add_route(route_payload(Vec::new(), vec![pattern])).unwrap();
    // the hour is covered but the day is not
    let now = 3 * 86400 + 8 * 3600;
    let opt = store.optimize_route(route_id, now).unwrap();
    assert_eq!(opt.congestion_level, 0);
    assert_eq!(opt.estimated_duration, 100);
}

#[test]
fn optimize_route_first_match_wins() {
    let mut store = FleetStore::new();
    let first = TrafficPattern {
        time_window: TimeWindow { start_hour: 6, end_hour: 10, day_of_week: 2 },
        congestion_level: 2,
        average_delay: 5,
    };
    let second = TrafficPattern {
        time_window: TimeWindow { start_hour: 7, end_hour: 9, day_of_week: 2 },
        congestion_level: 5,
        average_delay: 30,
    };
    let route_id = store.add_route(route_payload(Vec::new(), vec![first, second])).unwrap();
    let now = 2 * 86400 + 8 * 3600;
    let opt = store.optimize_route(route_id, now).unwrap();
    assert_eq!(opt.congestion_level, 2);
    assert_eq!(opt.estimated_duration, 140);
}

#[test]
fn optimize_route_unknown_route_yields_not_found() {
    let store = FleetStore::new();
    assert!(matches!(
        store.optimize_route(12, 0),
        Err(Message::NotFound(EntityKind::Route))
    ));
}

#[test]
fn optimal_times_follow_the_demand_windows() {
    let mut store = FleetStore::new();
    let w1 = TimeWindow { start_hour: 7, end_hour: 9, day_of_week: 1 };
    let w2 = TimeWindow { start_hour: 17, end_hour: 19, day_of_week: 1 };
    let route_id = store.add_route(route_payload(vec![w1, w2], Vec::new())).unwrap();
    let date = 1000000;
    let route = store.get_route(route_id).unwrap();
    let times = calculate_optimal_times(route, date);
    assert_eq!(times.len(), 2);
    assert_eq!(times[0], (date + 7 * 3600, date + 7 * 3600 + 100 * 60));
    assert_eq!(times[1], (date + 17 * 3600, date + 17 * 3600 + 100 * 60));
}

#[test]
fn automated_schedule_pairs_positionally_and_covers_all_windows() {
    let mut store = FleetStore::new();
    let sacco = setup_sacco(&mut store);
    let m1 = store
        .register_matatu(RegisterMatatuPayload {
            sacco_id: sacco,
            plate_number: "KAA 001B".to_string(),
            capacity: 14,
            route: "r".to_string(),
        })
        .unwrap();
    // a second vehicle has no driver to pair with and stays unscheduled
    store
        .register_matatu(RegisterMatatuPayload {
            sacco_id: sacco,
            plate_number: "KBB 002C".to_string(),
            capacity: 14,
            route: "r".to_string(),
        })
        .unwrap();
    let d1 = store
        .register_driver(RegisterDriverPayload {
            sacco_id: sacco,
            name: "Jane".to_string(),
            license_number: "DL-1".to_string(),
            contact: "07".to_string(),
        })
        .unwrap();
    let w1 = TimeWindow { start_hour: 7, end_hour: 9, day_of_week: 1 };
    let w2 = TimeWindow { start_hour: 17, end_hour: 19, day_of_week: 1 };
    let route_id = store.add_route(route_payload(vec![w1, w2], Vec::new())).unwrap();
    let date = 500000;
    let batch = store.create_automated_schedule(sacco, date, 42).unwrap();
    assert_eq!(batch.len(), 2);
    for (k, sch) in batch.iter().enumerate() {
        assert_eq!(sch.matatu_id, m1.id);
        assert_eq!(sch.driver_id, d1.id);
        assert_eq!(sch.route_id, route_id);
        assert_eq!(sch.status, ScheduleStatus::Scheduled);
        assert_eq!(sch.created_at, 42);
        // persisted under its own fresh identifier
        assert_eq!(store.get_schedule(sch.id).unwrap(), sch);
        let _ = k;
    }
    assert_eq!(batch[0].start_time, date + 7 * 3600);
    assert_eq!(batch[0].end_time, date + 7 * 3600 + 100 * 60);
    assert_eq!(batch[1].start_time, date + 17 * 3600);
    assert_eq!(batch[1].end_time, date + 17 * 3600 + 100 * 60);
    assert!(batch[0].id < batch[1].id);
}

#[test]
fn automated_schedule_without_pairs_is_empty() {
    let mut store = FleetStore::new();
    let sacco = setup_sacco(&mut store);
    let w1 = TimeWindow { start_hour: 7, end_hour: 9, day_of_week: 1 };
    store.add_route(route_payload(vec![w1], Vec::new())).unwrap();
    // drivers exist but no active vehicle: nothing to pair
    store
        .register_driver(RegisterDriverPayload {
            sacco_id: sacco,
            name: "Jane".to_string(),
            license_number: "DL-1".to_string(),
            contact: "07".to_string(),
        })
        .unwrap();
    let batch = store.create_automated_schedule(sacco, 1000, 0).unwrap();
    assert_eq!(batch.len(), 0);
}

#[test]
fn update_location_persists_the_sample() {
    let mut store = FleetStore::new();
    let row = store
        .update_location(
            LocationUpdatePayload {
                matatu_id: 9,
                latitude: -1286389,
                longitude: 36817223,
                speed: 40000,
            },
            777,
        )
        .unwrap();
    assert_eq!(row.id, 1);
    assert_eq!(row.matatu_id, 9);
    assert_eq!(row.timestamp, 777);
}

#[test]
fn update_location_leaves_scheduled_entries_alone() {
    let mut store = FleetStore::new();
    let sacco = setup_sacco(&mut store);
    let m1 = store
        .register_matatu(RegisterMatatuPayload {
            sacco_id: sacco,
            plate_number: "KAA 001B".to_string(),
            capacity: 14,
            route: "r".to_string(),
        })
        .unwrap();
    store
        .register_driver(RegisterDriverPayload {
            sacco_id: sacco,
            name: "Jane".to_string(),
            license_number: "DL-1".to_string(),
            contact: "07".to_string(),
        })
        .unwrap();
    let w1 = TimeWindow { start_hour: 7, end_hour: 9, day_of_week: 1 };
    store.add_route(route_payload(vec![w1], Vec::new())).unwrap();
    let batch = store.create_automated_schedule(sacco, 1000, 0).unwrap();
    assert_eq!(batch.len(), 1);
    let before = *store.get_schedule(batch[0].id).unwrap();
    // the sample only re-times in-flight schedules; a `Scheduled` one keeps
    // its end time
    store
        .update_location(
            LocationUpdatePayload { matatu_id: m1.id, latitude: 0, longitude: 0, speed: 10 },
            999999,
        )
        .unwrap();
    let after = *store.get_schedule(batch[0].id).unwrap();
    assert_eq!(before, after);
}

#[test]
fn new_arrival_time_collapses_to_the_sample_time() {
    let mut store = FleetStore::new();
    let row = store
        .update_location(
            LocationUpdatePayload { matatu_id: 1, latitude: 0, longitude: 0, speed: 50000 },
            4242,
        )
        .unwrap();
    let sch = matatu_fleet::entities::Schedule {
        id: 1,
        matatu_id: 1,
        driver_id: 2,
        route_id: 3,
        start_time: 0,
        end_time: 100,
        status: ScheduleStatus::InProgress,
        created_at: 0,
    };
    assert_eq!(calculate_new_arrival_time(&sch, &row), 4242);
    // a zero speed cannot fault the estimate either
    let stopped = matatu_fleet::entities::LocationUpdate {
        id: 9,
        matatu_id: 1,
        latitude: 0,
        longitude: 0,
        speed: 0,
        timestamp: 5555,
    };
    assert_eq!(calculate_new_arrival_time(&sch, &stopped), 5555);
}
