use vstd::prelude::*;
use vstd::arithmetic::div_mod::lemma_div_is_ordered;
use vstd::arithmetic::div_mod::lemma_div_multiples_vanish;
use crate::aggregate::GroupSelector;
use crate::aggregate::Selector;
use crate::aggregate::filter_sum;
use crate::aggregate::group_sum;
use crate::aggregate::grouped_ok;
use crate::aggregate::lemma_sum_sel_key_le;
use crate::aggregate::lemma_sum_sel_le_len;
use crate::aggregate::sum_sel;
use crate::aggregate::sum_sel_key;
use crate::aggregate::sum_u64;
use crate::entities::Expense;
use crate::entities::ExpenseCategory;
use crate::entities::FinancialReport;
use crate::entities::FuelConsumption;
use crate::entities::Maintenance;
use crate::entities::MatatuAnalytics;
use crate::entities::Revenue;
use crate::entities::RevenueSource;
use crate::entities::Trip;
use crate::errors::Message;
use crate::record::MAX_RECORD_BYTES;
use crate::record::Record;
use crate::record::check_fits;
use crate::store::FleetStore;
use crate::store::lemma_fresh_key;
use crate::store::lemma_table_ok_upsert;
use crate::table::has_key;
use crate::table::lookup;
use crate::table::table_upserted;

verus! {

// The reporting functions: every figure is a filter-sum or group-sum over
// one store, restricted to one owner and (for the ledgers) an inclusive
// time window.

/// Revenue ledger rows of one cooperative inside an inclusive window,
/// weighed by amount and grouped by description.
#[derive(Clone, Copy)]
pub struct RevenueWindow {
    pub sacco_id: u64,
    pub start: u64,
    pub end: u64,
}

impl Selector<Revenue> for RevenueWindow {
    open spec fn sel(&self, t: Revenue) -> bool {
        t.sacco_id == self.sacco_id && self.start <= t.date <= self.end
    }

    open spec fn weight(&self, t: Revenue) -> nat {
        t.amount as nat
    }

    fn matches(&self, t: &Revenue) -> (b: bool)
        ensures
            b == self.sel(*t),
    {
        t.sacco_id == self.sacco_id && self.start <= t.date && t.date <= self.end
    }

    fn weight_of(&self, t: &Revenue) -> (w: u64)
        ensures
            w as nat == self.weight(*t),
    {
        t.amount
    }
}

impl GroupSelector<Revenue> for RevenueWindow {
    open spec fn key_view(&self, t: Revenue) -> Seq<char> {
        t.description@
    }

    fn key_clone(&self, t: &Revenue) -> (k: String)
        ensures
            k@ == self.key_view(*t),
    {
        t.description.clone()
    }
}

/// Expense ledger rows of one cooperative inside an inclusive window,
/// weighed by amount and grouped by category.
#[derive(Clone, Copy)]
pub struct ExpenseWindow {
    pub sacco_id: u64,
    pub start: u64,
    pub end: u64,
}

impl Selector<Expense> for ExpenseWindow {
    open spec fn sel(&self, t: Expense) -> bool {
        t.sacco_id == self.sacco_id && self.start <= t.date <= self.end
    }

    open spec fn weight(&self, t: Expense) -> nat {
        t.amount as nat
    }

    fn matches(&self, t: &Expense) -> (b: bool)
        ensures
            b == self.sel(*t),
    {
        t.sacco_id == self.sacco_id && self.start <= t.date && t.date <= self.end
    }

    fn weight_of(&self, t: &Expense) -> (w: u64)
        ensures
            w as nat == self.weight(*t),
    {
        t.amount
    }
}

impl GroupSelector<Expense> for ExpenseWindow {
    open spec fn key_view(&self, t: Expense) -> Seq<char> {
        t.category@
    }

    fn key_clone(&self, t: &Expense) -> (k: String)
        ensures
            k@ == self.key_view(*t),
    {
        t.category.clone()
    }
}

/// Counts the trips of one vehicle, whatever their state.
#[derive(Clone, Copy)]
pub struct TripCount {
    pub matatu_id: u64,
}

impl Selector<Trip> for TripCount {
    open spec fn sel(&self, t: Trip) -> bool {
        t.matatu_id == self.matatu_id
    }

    open spec fn weight(&self, t: Trip) -> nat {
        1
    }

    fn matches(&self, t: &Trip) -> (b: bool)
        ensures
            b == self.sel(*t),
    {
        t.matatu_id == self.matatu_id
    }

    fn weight_of(&self, t: &Trip) -> (w: u64)
        ensures
            w as nat == self.weight(*t),
    {
        1
    }
}

/// Sums the revenue booked on the trips of one vehicle.
#[derive(Clone, Copy)]
pub struct TripRevenue {
    pub matatu_id: u64,
}

impl Selector<Trip> for TripRevenue {
    open spec fn sel(&self, t: Trip) -> bool {
        t.matatu_id == self.matatu_id
    }

    open spec fn weight(&self, t: Trip) -> nat {
        t.revenue as nat
    }

    fn matches(&self, t: &Trip) -> (b: bool)
        ensures
            b == self.sel(*t),
    {
        t.matatu_id == self.matatu_id
    }

    fn weight_of(&self, t: &Trip) -> (w: u64)
        ensures
            w as nat == self.weight(*t),
    {
        t.revenue
    }
}

/// Sums the maintenance costs of one vehicle.
#[derive(Clone, Copy)]
pub struct MaintenanceCost {
    pub matatu_id: u64,
}

impl Selector<Maintenance> for MaintenanceCost {
    open spec fn sel(&self, t: Maintenance) -> bool {
        t.matatu_id == self.matatu_id
    }

    open spec fn weight(&self, t: Maintenance) -> nat {
        t.cost as nat
    }

    fn matches(&self, t: &Maintenance) -> (b: bool)
        ensures
            b == self.sel(*t),
    {
        t.matatu_id == self.matatu_id
    }

    fn weight_of(&self, t: &Maintenance) -> (w: u64)
        ensures
            w as nat == self.weight(*t),
    {
        t.cost
    }
}

/// Sums the fuel costs of one vehicle.
#[derive(Clone, Copy)]
pub struct FuelCost {
    pub matatu_id: u64,
}

impl Selector<FuelConsumption> for FuelCost {
    open spec fn sel(&self, t: FuelConsumption) -> bool {
        t.matatu_id == self.matatu_id
    }

    open spec fn weight(&self, t: FuelConsumption) -> nat {
        t.cost as nat
    }

    fn matches(&self, t: &FuelConsumption) -> (b: bool)
        ensures
            b == self.sel(*t),
    {
        t.matatu_id == self.matatu_id
    }

    fn weight_of(&self, t: &FuelConsumption) -> (w: u64)
        ensures
            w as nat == self.weight(*t),
    {
        t.cost
    }
}

/// Truncated integer percentage of `amount` against `total`; zero when
/// the total is zero, never a division fault.
pub open spec fn pct_of(amount: nat, total: nat) -> nat {
    if total > 0 {
        amount * 100 / total
    } else {
        0
    }
}

/// Sum of the amounts of a revenue breakdown.
pub open spec fn rs_amount_sum(s: Seq<RevenueSource>) -> nat
    decreases s.len(),
{
    if s.len() == 0 {
        0
    } else {
        rs_amount_sum(s.drop_last()) + s.last().amount as nat
    }
}

/// Sum of the amounts of an expense breakdown.
pub open spec fn ec_amount_sum(s: Seq<ExpenseCategory>) -> nat
    decreases s.len(),
{
    if s.len() == 0 {
        0
    } else {
        ec_amount_sum(s.drop_last()) + s.last().amount as nat
    }
}

/// What a revenue breakdown is: one line per distinct description among
/// the kept rows, the line's amount that group's sum, the amounts summing
/// to the window total, and every percentage the truncated share of that
/// total (zero when the total is zero).  Line order is unspecified.
pub open spec fn revenue_breakdown_ok(
    rows: Seq<(u64, Revenue)>,
    sacco_id: u64,
    start: u64,
    end: u64,
    out: Seq<RevenueSource>,
) -> bool {
    let sel = (RevenueWindow { sacco_id, start, end });
    let total = sum_sel(rows, sel);
    &&& forall|i: int, j: int|
        0 <= i < j < out.len() ==> (#[trigger] out[i]).source@ != (#[trigger] out[j]).source@
    &&& forall|i: int|
        0 <= i < out.len() ==> (#[trigger] out[i]).amount as nat == sum_sel_key(
            rows,
            sel,
            out[i].source@,
        )
    &&& forall|j: int|
        0 <= j < rows.len() && sel.sel((#[trigger] rows[j]).1) ==> exists|i: int|
            0 <= i < out.len() && (#[trigger] out[i]).source@ == rows[j].1.description@
    &&& rs_amount_sum(out) == total
    &&& forall|i: int|
        0 <= i < out.len() ==> (#[trigger] out[i]).percentage as nat == pct_of(
            out[i].amount as nat,
            total,
        )
}

/// What an expense breakdown is, grouped by category; otherwise as the
/// revenue breakdown.
pub open spec fn expense_breakdown_ok(
    rows: Seq<(u64, Expense)>,
    sacco_id: u64,
    start: u64,
    end: u64,
    out: Seq<ExpenseCategory>,
) -> bool {
    let sel = (ExpenseWindow { sacco_id, start, end });
    let total = sum_sel(rows, sel);
    &&& forall|i: int, j: int|
        0 <= i < j < out.len() ==> (#[trigger] out[i]).category@ != (#[trigger] out[j]).category@
    &&& forall|i: int|
        0 <= i < out.len() ==> (#[trigger] out[i]).amount as nat == sum_sel_key(
            rows,
            sel,
            out[i].category@,
        )
    &&& forall|j: int|
        0 <= j < rows.len() && sel.sel((#[trigger] rows[j]).1) ==> exists|i: int|
            0 <= i < out.len() && (#[trigger] out[i]).category@ == rows[j].1.category@
    &&& ec_amount_sum(out) == total
    &&& forall|i: int|
        0 <= i < out.len() ==> (#[trigger] out[i]).percentage as nat == pct_of(
            out[i].amount as nat,
            total,
        )
}

/// The truncated share of one group amount in a positive total is exact
/// and at most one hundred.
pub proof fn lemma_pct_bound(amount: nat, total: nat)
    requires
        amount <= total,
        total > 0,
    ensures
        pct_of(amount, total) <= 100,
{
    lemma_div_is_ordered(amount as int * 100, total as int * 100, total as int);
    lemma_div_multiples_vanish(100, total as int);
    assert(total as int * 100 == total as int * 100);
    assert((total as int * 100) / total as int == 100);
}

/// Truncated integer profit margin `(revenue - expenses) * 100 / revenue`,
/// toward zero, and zero when revenue is zero.
pub open spec fn margin_of(rtot: nat, etot: nat) -> int {
    if rtot == 0 {
        0
    } else if rtot >= etot {
        ((rtot - etot) * 100) / (rtot as int)
    } else {
        -(((etot - rtot) * 100) / (rtot as int))
    }
}

/// The fields of a financial snapshot for one cooperative and window, as
/// derived from the ledgers at generation time.
pub open spec fn report_matches(
    rep: FinancialReport,
    pre: FleetStore,
    sacco_id: u64,
    start: u64,
    end: u64,
    now: u64,
) -> bool {
    let rtot = sum_sel(pre.revenues@, (RevenueWindow { sacco_id, start, end }));
    let etot = sum_sel(pre.expenses@, (ExpenseWindow { sacco_id, start, end }));
    &&& rep.id == pre.next_id + 1
    &&& rep.sacco_id == sacco_id
    &&& rep.period_start == start
    &&& rep.period_end == end
    &&& rep.total_revenue as nat == rtot
    &&& rep.total_expenses as nat == etot
    &&& rep.profit_margin as int == margin_of(rtot, etot)
    &&& rep.created_at == now
    &&& revenue_breakdown_ok(pre.revenues@, sacco_id, start, end, rep.revenue_breakdown@)
    &&& expense_breakdown_ok(pre.expenses@, sacco_id, start, end, rep.expense_breakdown@)
}

/// Two snapshots carry the same content: every scalar field is equal and
/// the breakdown lists hold the same lines in the same order.  (The lists
/// are compared by their views: a stored snapshot and a returned one are
/// distinct list values with provably identical contents.)
pub open spec fn report_same(a: FinancialReport, b: FinancialReport) -> bool {
    &&& a.id == b.id
    &&& a.sacco_id == b.sacco_id
    &&& a.period_start == b.period_start
    &&& a.period_end == b.period_end
    &&& a.total_revenue == b.total_revenue
    &&& a.total_expenses == b.total_expenses
    &&& a.expense_breakdown@ == b.expense_breakdown@
    &&& a.revenue_breakdown@ == b.revenue_breakdown@
    &&& a.profit_margin == b.profit_margin
    &&& a.created_at == b.created_at
}

/// What generating a financial report does: the derived snapshot is both
/// returned and persisted under a fresh identifier, and never recomputed
/// in place.  The persisted snapshot carries exactly the returned
/// content, line order included.
pub open spec fn report_post(
    pre: FleetStore,
    post: FleetStore,
    sacco_id: u64,
    start: u64,
    end: u64,
    now: u64,
    r: Result<FinancialReport, Message>,
) -> bool {
    let rtot = sum_sel(pre.revenues@, (RevenueWindow { sacco_id, start, end }));
    let etot = sum_sel(pre.expenses@, (ExpenseWindow { sacco_id, start, end }));
    let can_sum = rtot <= u64::MAX && etot <= u64::MAX;
    &&& !can_sum ==> r == Err::<FinancialReport, Message>(Message::InvariantViolation) && post
        == pre
    &&& can_sum && pre.next_id == u64::MAX ==> r == Err::<FinancialReport, Message>(
        Message::InvariantViolation,
    ) && post == pre
    &&& can_sum && pre.next_id < u64::MAX ==> ((r matches Ok(rep) && {
        &&& report_matches(rep, pre, sacco_id, start, end, now)
        &&& rep.encoded_size() <= MAX_RECORD_BYTES as nat
        &&& post.next_id == pre.next_id + 1
        &&& post.reports@.len() == pre.reports@.len() + 1
        &&& lookup(post.reports@, rep.id) is Some
        &&& report_same(lookup(post.reports@, rep.id).unwrap(), rep)
        &&& forall|k: u64| k != rep.id ==> lookup(post.reports@, k) == lookup(pre.reports@, k)
        &&& forall|k: u64| has_key(post.reports@, k) <==> (k == rep.id || has_key(pre.reports@, k))
        &&& post == (FleetStore { next_id: post.next_id, reports: post.reports, ..pre })
    }) || (r == Err::<FinancialReport, Message>(Message::SizeExceeded) && post == pre && (exists|
        v: FinancialReport,
    |
        #[trigger] report_matches(v, pre, sacco_id, start, end, now) && v.encoded_size()
            > MAX_RECORD_BYTES as nat)))
}

/// Copies a revenue breakdown, line by line.
fn clone_rs_vec(v: &Vec<RevenueSource>) -> (r: Vec<RevenueSource>)
    ensures
        r@ == v@,
{
    let mut r: Vec<RevenueSource> = Vec::new();
    let mut i: usize = 0;
    while i < v.len()
        invariant
            0 <= i <= v@.len(),
            r@ == v@.take(i as int),
        decreases v@.len() - i,
    {
        let e = &v[i];
        r.push(e.clone());
        proof {
            assert(v@.take(i + 1) =~= v@.take(i as int).push(v@[i as int]));
        }
        i = i + 1;
    }
    proof {
        assert(v@.take(v@.len() as int) =~= v@);
    }
    r
}

/// Copies an expense breakdown, line by line.
fn clone_ec_vec(v: &Vec<ExpenseCategory>) -> (r: Vec<ExpenseCategory>)
    ensures
        r@ == v@,
{
    let mut r: Vec<ExpenseCategory> = Vec::new();
    let mut i: usize = 0;
    while i < v.len()
        invariant
            0 <= i <= v@.len(),
            r@ == v@.take(i as int),
        decreases v@.len() - i,
    {
        let e = &v[i];
        r.push(e.clone());
        proof {
            assert(v@.take(i + 1) =~= v@.take(i as int).push(v@[i as int]));
        }
        i = i + 1;
    }
    proof {
        assert(v@.take(v@.len() as int) =~= v@);
    }
    r
}

impl FleetStore {
    /// Assembles the point-in-time financial snapshot for one cooperative
    /// and inclusive window, persists it under a fresh identifier and
    /// returns it.
    pub fn generate_financial_report(
        &mut self,
        sacco_id: u64,
        start_time: u64,
        end_time: u64,
        now: u64,
    ) -> (r: Result<FinancialReport, Message>)
        requires
            old(self).wf(),
        ensures
            final(self).wf(),
            report_post(*old(self), *final(self), sacco_id, start_time, end_time, now, r),
    {
        let revenues = match self.calculate_total_revenues(sacco_id, start_time, end_time) {
            Ok(v) => v,
            Err(e) => {
                return Err(e);
            },
        };
        let expenses = match self.calculate_total_expenses(sacco_id, start_time, end_time) {
            Ok(v) => v,
            Err(e) => {
                return Err(e);
            },
        };
        let revenue_breakdown = match self.analyze_revenue_sources(
            sacco_id,
            start_time,
            end_time,
        ) {
            Ok(v) => v,
            Err(e) => {
                return Err(e);
            },
        };
        let expense_breakdown = match self.analyze_expense_categories(
            sacco_id,
            start_time,
            end_time,
        ) {
            Ok(v) => v,
            Err(e) => {
                return Err(e);
            },
        };
        if self.next_id == u64::MAX {
            return Err(Message::InvariantViolation);
        }
        let id = self.next_id + 1;
        let profit_margin: i128 = if revenues == 0 {
            0
        } else if revenues >= expenses {
            ((((revenues - expenses) as u128) * 100) / (revenues as u128)) as i128
        } else {
            -(((((expenses - revenues) as u128) * 100) / (revenues as u128)) as i128)
        };
        let ret = FinancialReport {
            id,
            sacco_id,
            period_start: start_time,
            period_end: end_time,
            total_revenue: revenues,
            total_expenses: expenses,
            expense_breakdown: clone_ec_vec(&expense_breakdown),
            revenue_breakdown: clone_rs_vec(&revenue_breakdown),
            profit_margin,
            created_at: now,
        };
        let report = FinancialReport {
            id,
            sacco_id,
            period_start: start_time,
            period_end: end_time,
            total_revenue: revenues,
            total_expenses: expenses,
            expense_breakdown,
            revenue_breakdown,
            profit_margin,
            created_at: now,
        };
        let ghost grep = report;
        if !check_fits(&report) {
            proof {
                assert(report_matches(grep, *old(self), sacco_id, start_time, end_time, now));
            }
            return Err(Message::SizeExceeded);
        }
        proof {
            lemma_fresh_key(self.reports@, self.next_id, id);
        }
        self.next_id = id;
        match self.reports.insert(id, report) {
            Ok(()) => {},
            Err(e) => {
                return Err(e);
            },
        }
        proof {
            lemma_table_ok_upsert(
                old(self).reports@,
                self.reports@,
                old(self).next_id,
                self.next_id,
                id,
                grep,
            );
            assert(table_upserted(old(self).reports@, self.reports@, id, grep));
            assert(ret.id == id);
            assert(lookup(self.reports@, id) == Some(grep));
            assert(report_same(grep, ret));
        }
        Ok(ret)
    }

    /// Total revenue of one cooperative inside the inclusive window.
    pub fn calculate_total_revenues(&self, sacco_id: u64, start_time: u64, end_time: u64) -> (r:
        Result<u64, Message>)
        ensures
            r is Ok <==> sum_sel(
                self.revenues@,
                (RevenueWindow { sacco_id, start: start_time, end: end_time }),
            ) <= u64::MAX,
            r matches Ok(v) ==> v as nat == sum_sel(
                self.revenues@,
                (RevenueWindow { sacco_id, start: start_time, end: end_time }),
            ),
            r is Err ==> r == Err::<u64, Message>(Message::InvariantViolation),
    {
        let sel = RevenueWindow { sacco_id, start: start_time, end: end_time };
        filter_sum(&self.revenues, &sel)
    }

    /// Total expenses of one cooperative inside the inclusive window.
    pub fn calculate_total_expenses(&self, sacco_id: u64, start_time: u64, end_time: u64) -> (r:
        Result<u64, Message>)
        ensures
            r is Ok <==> sum_sel(
                self.expenses@,
                (ExpenseWindow { sacco_id, start: start_time, end: end_time }),
            ) <= u64::MAX,
            r matches Ok(v) ==> v as nat == sum_sel(
                self.expenses@,
                (ExpenseWindow { sacco_id, start: start_time, end: end_time }),
            ),
            r is Err ==> r == Err::<u64, Message>(Message::InvariantViolation),
    {
        let sel = ExpenseWindow { sacco_id, start: start_time, end: end_time };
        filter_sum(&self.expenses, &sel)
    }

    /// Revenue breakdown of one cooperative inside the inclusive window.
    pub fn analyze_revenue_sources(&self, sacco_id: u64, start_time: u64, end_time: u64) -> (r:
        Result<Vec<RevenueSource>, Message>)
        ensures
            r is Ok <==> sum_sel(
                self.revenues@,
                (RevenueWindow { sacco_id, start: start_time, end: end_time }),
            ) <= u64::MAX,
            r matches Ok(out) ==> revenue_breakdown_ok(
                self.revenues@,
                sacco_id,
                start_time,
                end_time,
                out@,
            ),
            r is Err ==> r == Err::<Vec<RevenueSource>, Message>(Message::InvariantViolation),
    {
        let sel = RevenueWindow { sacco_id, start: start_time, end: end_time };
        let total = match filter_sum(&self.revenues, &sel) {
            Ok(t) => t,
            Err(e) => {
                return Err(e);
            },
        };
        let groups = match group_sum(&self.revenues, &sel) {
            Ok(g) => g,
            Err(e) => {
                return Err(e);
            },
        };
        let (ks, vs) = groups;
        let n = ks.len();
        let mut out: Vec<RevenueSource> = Vec::new();
        let mut i: usize = 0;
        while i < n
            invariant
                n == ks@.len(),
                vs@.len() == n,
                0 <= i <= n,
                grouped_ok(self.revenues@, sel, ks@, vs@),
                total as nat == sum_sel(self.revenues@, sel),
                out@.len() == i,
                forall|j: int|
                    0 <= j < i ==> (#[trigger] out@[j]).source@ == ks@[j]@ && out@[j].amount
                        == vs@[j] && out@[j].percentage as nat == pct_of(
                        vs@[j] as nat,
                        sum_sel(self.revenues@, sel),
                    ),
                rs_amount_sum(out@) == sum_u64(vs@.take(i as int)),
            decreases n - i,
        {
            let amount = vs[i];
            proof {
                lemma_sum_sel_key_le(self.revenues@, sel, ks@[i as int]@);
                if total > 0 {
                    lemma_pct_bound(amount as nat, total as nat);
                }
            }
            let pct: u64 = if total > 0 {
                ((amount as u128) * 100 / (total as u128)) as u64
            } else {
                0
            };
            let ghost out0 = out@;
            out.push(RevenueSource { source: ks[i].clone(), amount, percentage: pct });
            proof {
                assert(out@.drop_last() =~= out0);
                assert(vs@.take(i + 1).drop_last() =~= vs@.take(i as int));
                assert(vs@.take(i + 1).last() == vs@[i as int]);
            }
            i = i + 1;
        }
        proof {
            assert(vs@.take(n as int) =~= vs@);
            assert forall|j: int|
                0 <= j < self.revenues@.len() && sel.sel((#[trigger] self.revenues@[j]).1) implies
                exists|i2: int|
                0 <= i2 < out@.len() && (#[trigger] out@[i2]).source@
                    == self.revenues@[j].1.description@ by {
                let i0 = choose|i0: int|
                    0 <= i0 < ks@.len() && (#[trigger] ks@[i0])@ == sel.key_view(
                        self.revenues@[j].1,
                    );
                assert(out@[i0].source@ == self.revenues@[j].1.description@);
            }
        }
        Ok(out)
    }

    /// Expense breakdown of one cooperative inside the inclusive window.
    pub fn analyze_expense_categories(&self, sacco_id: u64, start_time: u64, end_time: u64) -> (r:
        Result<Vec<ExpenseCategory>, Message>)
        ensures
            r is Ok <==> sum_sel(
                self.expenses@,
                (ExpenseWindow { sacco_id, start: start_time, end: end_time }),
            ) <= u64::MAX,
            r matches Ok(out) ==> expense_breakdown_ok(
                self.expenses@,
                sacco_id,
                start_time,
                end_time,
                out@,
            ),
            r is Err ==> r == Err::<Vec<ExpenseCategory>, Message>(Message::InvariantViolation),
    {
        let sel = ExpenseWindow { sacco_id, start: start_time, end: end_time };
        let total = match filter_sum(&self.expenses, &sel) {
            Ok(t) => t,
            Err(e) => {
                return Err(e);
            },
        };
        let groups = match group_sum(&self.expenses, &sel) {
            Ok(g) => g,
            Err(e) => {
                return Err(e);
            },
        };
        let (ks, vs) = groups;
        let n = ks.len();
        let mut out: Vec<ExpenseCategory> = Vec::new();
        let mut i: usize = 0;
        while i < n
            invariant
                n == ks@.len(),
                vs@.len() == n,
                0 <= i <= n,
                grouped_ok(self.expenses@, sel, ks@, vs@),
                total as nat == sum_sel(self.expenses@, sel),
                out@.len() == i,
                forall|j: int|
                    0 <= j < i ==> (#[trigger] out@[j]).category@ == ks@[j]@ && out@[j].amount
                        == vs@[j] && out@[j].percentage as nat == pct_of(
                        vs@[j] as nat,
                        sum_sel(self.expenses@, sel),
                    ),
                ec_amount_sum(out@) == sum_u64(vs@.take(i as int)),
            decreases n - i,
        {
            let amount = vs[i];
            proof {
                lemma_sum_sel_key_le(self.expenses@, sel, ks@[i as int]@);
                if total > 0 {
                    lemma_pct_bound(amount as nat, total as nat);
                }
            }
            let pct: u64 = if total > 0 {
                ((amount as u128) * 100 / (total as u128)) as u64
            } else {
                0
            };
            let ghost out0 = out@;
            out.push(ExpenseCategory { category: ks[i].clone(), amount, percentage: pct });
            proof {
                assert(out@.drop_last() =~= out0);
                assert(vs@.take(i + 1).drop_last() =~= vs@.take(i as int));
                assert(vs@.take(i + 1).last() == vs@[i as int]);
            }
            i = i + 1;
        }
        proof {
            assert(vs@.take(n as int) =~= vs@);
            assert forall|j: int|
                0 <= j < self.expenses@.len() && sel.sel((#[trigger] self.expenses@[j]).1) implies
                exists|i2: int|
                0 <= i2 < out@.len() && (#[trigger] out@[i2]).category@
                    == self.expenses@[j].1.category@ by {
                let i0 = choose|i0: int|
                    0 <= i0 < ks@.len() && (#[trigger] ks@[i0])@ == sel.key_view(
                        self.expenses@[j].1,
                    );
                assert(out@[i0].category@ == self.expenses@[j].1.category@);
            }
        }
        Ok(out)
    }

    /// Per-vehicle figures: trip count and revenue over the vehicle's
    /// trips, maintenance and fuel costs over its cost records, and the
    /// net profit identity `revenue - maintenance - fuel`, signed.
    pub fn get_matatu_analytics(&self, matatu_id: u64) -> (r: Result<MatatuAnalytics, Message>)
        ensures
            r is Ok <==> (sum_sel(self.trips@, (TripRevenue { matatu_id })) <= u64::MAX && sum_sel(
                self.maintenance_records@,
                (MaintenanceCost { matatu_id }),
            ) <= u64::MAX && sum_sel(self.fuel_records@, (FuelCost { matatu_id })) <= u64::MAX),
            r matches Ok(a) ==> {
                &&& a.total_trips as nat == sum_sel(self.trips@, (TripCount { matatu_id }))
                &&& a.total_revenue as nat == sum_sel(self.trips@, (TripRevenue { matatu_id }))
                &&& a.maintenance_costs as nat == sum_sel(
                    self.maintenance_records@,
                    (MaintenanceCost { matatu_id }),
                )
                &&& a.fuel_costs as nat == sum_sel(self.fuel_records@, (FuelCost { matatu_id }))
                &&& a.net_profit == a.total_revenue as i128 - a.maintenance_costs as i128
                    - a.fuel_costs as i128
            },
            r is Err ==> r == Err::<MatatuAnalytics, Message>(Message::InvariantViolation),
    {
        let csel = TripCount { matatu_id };
        let n_trips = self.trips.len();
        proof {
            assert(forall|t: Trip| #[trigger] csel.weight(t) <= 1);
            lemma_sum_sel_le_len(self.trips@, csel);
            assert(sum_sel(self.trips@, csel) <= n_trips as nat);
        }
        let total_trips = match filter_sum(&self.trips, &csel) {
            Ok(v) => v,
            Err(e) => {
                return Err(e);
            },
        };
        let total_revenue = match filter_sum(&self.trips, &TripRevenue { matatu_id }) {
            Ok(v) => v,
            Err(e) => {
                return Err(e);
            },
        };
        let maintenance_costs = match filter_sum(
            &self.maintenance_records,
            &MaintenanceCost { matatu_id },
        ) {
            Ok(v) => v,
            Err(e) => {
                return Err(e);
            },
        };
        let fuel_costs = match filter_sum(&self.fuel_records, &FuelCost { matatu_id }) {
            Ok(v) => v,
            Err(e) => {
                return Err(e);
            },
        };
        let net_profit: i128 = total_revenue as i128 - maintenance_costs as i128
            - fuel_costs as i128;
        Ok(
            MatatuAnalytics {
                total_trips,
                total_revenue,
                maintenance_costs,
                fuel_costs,
                net_profit,
            },
        )
    }
}

} // verus!
