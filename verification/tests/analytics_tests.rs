use matatu_fleet::entities::CreateSaccoPayload;
use matatu_fleet::entities::RecordExpensePayload;
use matatu_fleet::entities::RecordFuelPayload;
use matatu_fleet::entities::RecordMaintenancePayload;
use matatu_fleet::entities::RecordRevenuePayload;
use matatu_fleet::store::FleetStore;

fn setup_sacco(store: &mut FleetStore) -> u64 {
    store
        .create_sacco(
            CreateSaccoPayload {
                name: "Metro".to_string(),
                location: "Nairobi".to_string(),
                contact: "0700000000".to_string(),
                email: "info@example.com".to_string(),
            },
            0,
        )
        .unwrap()
        .id
}

fn record_revenue(store: &mut FleetStore, sacco_id: u64, matatu_id: u64, amount: u64, desc: &str, now: u64) {
    store
        .record_revenue(
            RecordRevenuePayload {
                sacco_id,
                matatu_id,
                amount,
                description: desc.to_string(),
            },
            now,
        )
        .unwrap();
}

fn record_expense(store: &mut FleetStore, sacco_id: u64, amount: u64, category: &str, now: u64) {
    store
        .record_expense(
            RecordExpensePayload {
                sacco_id,
                category: category.to_string(),
                amount,
                description: "entry".to_string(),
            },
            now,
        )
        .unwrap();
}

#[test]
fn revenue_totals_respect_owner_and_window() {
    let mut store = FleetStore::new();
    let sacco = setup_sacco(&mut store);
    record_revenue(&mut store, sacco, 0, 300, "fares", 10);
    record_revenue(&mut store, sacco, 0, 200, "fares", 20);
    record_revenue(&mut store, sacco, 0, 500, "parcels", 30);
    record_revenue(&mut store, sacco, 0, 999, "fares", 99);  // outside the window
    record_revenue(&mut store, sacco + 1000, 0, 777, "fares", 15);  // other owner
    assert_eq!(store.calculate_total_revenues(sacco, 0, 50).unwrap(), 1000);
    assert_eq!(store.calculate_total_revenues(sacco, 0, 100).unwrap(), 1999);
    assert_eq!(store.calculate_total_revenues(sacco, 60, 70).unwrap(), 0);
}

#[test]
fn revenue_breakdown_percentages_sum_to_one_hundred() {
    let mut store = FleetStore::new();
    let sacco = setup_sacco(&mut store);
    record_revenue(&mut store, sacco, 0, 300, "fares", 10);
    record_revenue(&mut store, sacco, 0, 200, "fares", 20);
    record_revenue(&mut store, sacco, 0, 500, "parcels", 30);
    let breakdown = store.analyze_revenue_sources(sacco, 0, 50).unwrap();
    assert_eq!(breakdown.len(), 2);
    let mut total_amount = 0u64;
    let mut total_pct = 0u64;
    for line in &breakdown {
        total_amount += line.amount;
        total_pct += line.percentage;
        match line.source.as_str() {
            "fares" => {
                assert_eq!(line.amount, 500);
                assert_eq!(line.percentage, 50);
            }
            "parcels" => {
                assert_eq!(line.amount, 500);
                assert_eq!(line.percentage, 50);
            }
            other => panic!("unexpected source {other}"),
        }
    }
    assert_eq!(total_amount, 1000);
    assert_eq!(total_pct, 100);
}

#[test]
fn revenue_breakdown_with_truncation_stays_within_tolerance() {
    let mut store = FleetStore::new();
    let sacco = setup_sacco(&mut store);
    // three equal groups: 100 / 3 truncates to 33 each
    record_revenue(&mut store, sacco, 0, 1, "a", 1);
    record_revenue(&mut store, sacco, 0, 1, "b", 2);
    record_revenue(&mut store, sacco, 0, 1, "c", 3);
    let breakdown = store.analyze_revenue_sources(sacco, 0, 10).unwrap();
    assert_eq!(breakdown.len(), 3);
    let sum: u64 = breakdown.iter().map(|l| l.percentage).sum();
    // within rounding tolerance: above 100 - lines, at most 100
    assert_eq!(sum, 99);
    assert!(sum <= 100 && sum > 100 - breakdown.len() as u64);
}

#[test]
fn zero_total_yields_zero_percentages() {
    let mut store = FleetStore::new();
    let sacco = setup_sacco(&mut store);
    record_revenue(&mut store, sacco, 0, 0, "fares", 10);
    record_revenue(&mut store, sacco, 0, 0, "parcels", 20);
    let breakdown = store.analyze_revenue_sources(sacco, 0, 50).unwrap();
    assert_eq!(breakdown.len(), 2);
    for line in &breakdown {
        assert_eq!(line.amount, 0);
        assert_eq!(line.percentage, 0);
    }
}

#[test]
fn expense_categories_group_by_free_text_key() {
    let mut store = FleetStore::new();
    let sacco = setup_sacco(&mut store);
    record_expense(&mut store, sacco, 600, "fuel", 10);
    record_expense(&mut store, sacco, 150, "fuel", 20);
    record_expense(&mut store, sacco, 250, "insurance", 30);
    assert_eq!(store.calculate_total_expenses(sacco, 0, 50).unwrap(), 1000);
    let breakdown = store.analyze_expense_categories(sacco, 0, 50).unwrap();
    assert_eq!(breakdown.len(), 2);
    for line in &breakdown {
        match line.category.as_str() {
            "fuel" => {
                assert_eq!(line.amount, 750);
                assert_eq!(line.percentage, 75);
            }
            "insurance" => {
                assert_eq!(line.amount, 250);
                assert_eq!(line.percentage, 25);
            }
            other => panic!("unexpected category {other}"),
        }
    }
}

#[test]
fn matatu_analytics_net_profit_identity() {
    let mut store = FleetStore::new();
    let sacco = setup_sacco(&mut store);
    // zero-record case: every figure is zero
    let empty = store.get_matatu_analytics(7).unwrap();
    assert_eq!(empty.total_trips, 0);
    assert_eq!(empty.total_revenue, 0);
    assert_eq!(empty.maintenance_costs, 0);
    assert_eq!(empty.fuel_costs, 0);
    assert_eq!(empty.net_profit, 0);
    // costs can exceed revenue: the net profit goes negative
    let matatu_id = 7;
    store
        .record_maintenance(
            RecordMaintenancePayload {
                matatu_id,
                description: "brakes".to_string(),
                cost: 800,
            },
            5,
        )
        .unwrap();
    store
        .record_fuel(
            RecordFuelPayload { matatu_id, liters: 40, cost: 300, odometer_reading: 123456 },
            6,
        )
        .unwrap();
    let a = store.get_matatu_analytics(matatu_id).unwrap();
    assert_eq!(a.total_revenue, 0);
    assert_eq!(a.maintenance_costs, 800);
    assert_eq!(a.fuel_costs, 300);
    assert_eq!(a.net_profit, -1100);
    assert_eq!(
        a.net_profit,
        a.total_revenue as i128 - a.maintenance_costs as i128 - a.fuel_costs as i128
    );
    let _ = sacco;
}

#[test]
fn financial_report_totals_margin_and_persistence() {
    let mut store = FleetStore::new();
    let sacco = setup_sacco(&mut store);
    record_revenue(&mut store, sacco, 0, 600, "fares", 10);
    record_revenue(&mut store, sacco, 0, 400, "parcels", 20);
    record_expense(&mut store, sacco, 250, "fuel", 15);
    let report = store.generate_financial_report(sacco, 0, 50, 60).unwrap();
    assert_eq!(report.sacco_id, sacco);
    assert_eq!(report.period_start, 0);
    assert_eq!(report.period_end, 50);
    assert_eq!(report.total_revenue, 1000);
    assert_eq!(report.total_expenses, 250);
    // (1000 - 250) * 100 / 1000 truncates to 75
    assert_eq!(report.profit_margin, 75);
    assert_eq!(report.created_at, 60);
    assert_eq!(report.revenue_breakdown.len(), 2);
    assert_eq!(report.expense_breakdown.len(), 1);
    assert_eq!(report.expense_breakdown[0].category, "fuel");
    assert_eq!(report.expense_breakdown[0].amount, 250);
    assert_eq!(report.expense_breakdown[0].percentage, 100);
}

#[test]
fn financial_report_zero_revenue_margin_is_zero() {
    let mut store = FleetStore::new();
    let sacco = setup_sacco(&mut store);
    record_expense(&mut store, sacco, 250, "fuel", 15);
    let report = store.generate_financial_report(sacco, 0, 50, 60).unwrap();
    assert_eq!(report.total_revenue, 0);
    assert_eq!(report.total_expenses, 250);
    assert_eq!(report.profit_margin, 0);
}

#[test]
fn financial_report_negative_margin_truncates_toward_zero() {
    let mut store = FleetStore::new();
    let sacco = setup_sacco(&mut store);
    record_revenue(&mut store, sacco, 0, 100, "fares", 10);
    record_expense(&mut store, sacco, 300, "fuel", 15);
    let report = store.generate_financial_report(sacco, 0, 50, 60).unwrap();
    // (100 - 300) * 100 / 100 is exactly -200
    assert_eq!(report.profit_margin, -200);
}
