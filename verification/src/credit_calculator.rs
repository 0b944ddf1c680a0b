//! The amortization engine: an annuity loan and its month-by-month pay-off
//! plan.
//!
//! Representation. Monetary amounts are cents (`u64`); annual rates are
//! hundredths of a percent, so `400` means 4%. The monthly interest rate is
//! the annual rate divided by twelve; it is kept exactly as the pair
//! "annual rate numerator over 1,200,000" rather than as a stored field,
//! because one twelfth of a rate in hundredths of a percent is not an
//! integer. A monthly share of an amount is therefore
//! `amount * rate / 1,200,000 * 100` cents, that is
//! `(amount * rate) / 120,000`, rounded half-up to the cent.
//!
//! Unscheduled amortization policy: the annual unscheduled amortization rate
//! is turned into one fixed amount per period,
//! `principal * rate / 12` rounded to the cent, and that same amount is
//! applied every period (clamped in the final one), which keeps the schedule
//! deterministic.

use vstd::prelude::*;
use vstd::string::*;
use vstd::arithmetic::div_mod::*;
use vstd::arithmetic::mul::*;
use crate::calendar::Date;
use crate::calendar::YEAR_CAP;
use crate::calendar::lemma_next_month_wf;
use crate::text::push_date;
use crate::text::push_decimal;
use crate::text::push_two_decimals;
use crate::text::separate_with_spaces;
use crate::text::spec_date;
use crate::text::spec_decimal;
use crate::text::spec_grouped;
use crate::text::spec_two_decimals;

verus! {

/// Largest principal the engine accepts, in cents.
pub const MAX_LOAN_CENTS: u64 = 10_000_000_000_000;

/// Largest annual rate the engine accepts, in hundredths of a percent.
pub const MAX_RATE_BP: u64 = 100_000;

/// Largest monthly annuity the engine accepts, in cents.
pub const MAX_ANNUITY_CENTS: u64 = 100_000_000_000_000;

/// Why a loan could not be built.
#[derive(Clone, Copy, PartialEq, Eq, Structural, Debug)]
pub enum LoanError {
    /// The principal was not positive, a rate was negative, a quantity was
    /// beyond the supported range, or the monthly annuity did not exceed the
    /// first month's interest (such a loan would never amortize).
    InvalidInput,
}

/// One month of the pay-off plan. All amounts are cents.
#[derive(Clone, Copy, PartialEq, Eq, Structural, Debug)]
pub struct Rate {
    /// Day the payment is due; exactly one calendar month after the previous
    /// record's date.
    pub payment_date: Date,
    /// Total paid this period: interest plus scheduled amortization. Equal to
    /// the monthly annuity except on the final record.
    pub annuity: u64,
    /// Interest accrued this period on the previous residual debt.
    pub interest: u64,
    /// Scheduled reduction of the principal this period.
    pub amortization: u64,
    /// Extra reduction of the principal this period, on top of the annuity.
    pub unscheduled_amortization: u64,
    /// Principal still owed after this payment.
    pub residual_dept: u64,
}

/// An annuity-style loan: the immutable parameters the plan is computed from.
#[derive(Clone, Copy, PartialEq, Eq, Structural, Debug)]
pub struct AnnuityLoan {
    /// Principal in cents.
    pub loan: u64,
    /// Annual amortization rate in hundredths of a percent; zero when the
    /// loan was built from a monthly annuity directly.
    pub annual_pay_off_rate: u64,
    /// Annual interest rate in hundredths of a percent.
    pub annual_interest_rate: u64,
    /// Fixed monthly payment in cents, covering interest and amortization.
    pub monthly_annuity: u64,
    /// Annual unscheduled amortization rate in hundredths of a percent.
    pub annual_unscheduled_amortization: u64,
    /// Date of the first payment.
    pub begin_pay_off: Date,
}

/// The monthly share of an amount under an annual rate in hundredths of a
/// percent: `n` is the product of the amount in cents and the rate, and the
/// result is `n / 1,200,000 * 100` cents, rounded half-up to the cent.
pub open spec fn spec_monthly_share(n: int) -> int {
    (n + 60000) / 120000
}

/// Interest for one month on a residual debt of `d` cents under an annual
/// rate of `ir` hundredths of a percent.
pub open spec fn spec_interest(d: int, ir: int) -> int {
    spec_monthly_share(d * ir)
}

/// The engine's arithmetic preconditions: a positive principal within range,
/// rates and annuity within range, and a monthly annuity that exceeds the
/// first month's interest.
pub open spec fn engine_ok(loan: nat, ir: nat, annuity: nat, unsched: nat) -> bool {
    &&& 1 <= loan <= MAX_LOAN_CENTS
    &&& ir <= MAX_RATE_BP
    &&& annuity <= MAX_ANNUITY_CENTS
    &&& unsched <= MAX_LOAN_CENTS
    &&& annuity > spec_interest(loan as int, ir as int)
}

/// The record for one period: interest on the residual `d`, the annuity's
/// remainder as scheduled amortization, the fixed unscheduled amount — with
/// the final period clamped so the loan closes at exactly zero and the last
/// payment is exactly enough, never more.
pub open spec fn spec_rate(d: nat, ir: nat, annuity: nat, unsched: nat, date: Date) -> Rate {
    let i = spec_interest(d as int, ir as int);
    let a0 = annuity - i;
    if a0 + unsched >= d {
        let u = if unsched >= d {
            d as int
        } else {
            unsched as int
        };
        let a = d - u;
        Rate {
            payment_date: date,
            annuity: (a + i) as u64,
            interest: i as u64,
            amortization: a as u64,
            unscheduled_amortization: u as u64,
            residual_dept: 0,
        }
    } else {
        Rate {
            payment_date: date,
            annuity: annuity as u64,
            interest: i as u64,
            amortization: a0 as u64,
            unscheduled_amortization: unsched as u64,
            residual_dept: (d - a0 - unsched) as u64,
        }
    }
}

/// The residual debt after one period on a residual of `d`.
pub open spec fn spec_next_residual(d: nat, ir: nat, annuity: nat, unsched: nat) -> int {
    let i = spec_interest(d as int, ir as int);
    let a0 = annuity - i;
    if a0 + unsched >= d {
        0
    } else {
        d - a0 - unsched
    }
}

/// The pay-off plan from a residual debt of `d` cents onward: one record per
/// month until the debt reaches zero. (The cut in the second branch only
/// keeps the recursion well-founded; under `engine_ok` the residual strictly
/// decreases every period, so that branch is never the one taken.)
pub open spec fn spec_plan(d: nat, ir: nat, annuity: nat, unsched: nat, date: Date) -> Seq<Rate>
    decreases d,
{
    if d == 0 {
        Seq::<Rate>::empty()
    } else {
        let rec = spec_rate(d, ir, annuity, unsched, date);
        let d2 = spec_next_residual(d, ir, annuity, unsched);
        if 0 <= d2 < d {
            seq![rec] + spec_plan(d2 as nat, ir, annuity, unsched, date.spec_next_month())
        } else {
            seq![rec]
        }
    }
}

/// The residual debt a record was computed from: the initial debt for the
/// first record, the previous record's residual otherwise.
pub open spec fn resid_before(s: Seq<Rate>, d0: int, i: int) -> int {
    if i == 0 {
        d0
    } else {
        s[i - 1].residual_dept as int
    }
}

impl AnnuityLoan {
    /// The fixed unscheduled amortization applied each period:
    /// `principal * annual rate / 12`, rounded to the cent.
    pub open spec fn spec_monthly_unscheduled(self) -> int {
        spec_monthly_share(self.loan * self.annual_unscheduled_amortization)
    }

    /// A loan the engine can run on: every quantity within range, a
    /// well-formed begin date with room for the longest possible schedule,
    /// and a monthly annuity that exceeds the first month's interest.
    pub open spec fn valid(self) -> bool {
        &&& 1 <= self.loan <= MAX_LOAN_CENTS
        &&& self.annual_interest_rate <= MAX_RATE_BP
        &&& self.annual_pay_off_rate <= MAX_RATE_BP
        &&& self.annual_unscheduled_amortization <= MAX_RATE_BP
        &&& self.monthly_annuity <= MAX_ANNUITY_CENTS
        &&& self.monthly_annuity > spec_interest(self.loan as int, self.annual_interest_rate as int)
        &&& self.begin_pay_off.wf()
        &&& self.begin_pay_off.year + self.loan <= YEAR_CAP
    }

    /// The full pay-off plan of this loan, as a mathematical value.
    pub open spec fn plan_spec(self) -> Seq<Rate> {
        spec_plan(
            self.loan as nat,
            self.annual_interest_rate as nat,
            self.monthly_annuity as nat,
            self.spec_monthly_unscheduled() as nat,
            self.begin_pay_off,
        )
    }
}

/// Rounded division by the rate denominator, half-up.
fn monthly_share(n: u64) -> (r: u64)
    requires
        n <= u64::MAX - 60000,
    ensures
        r as int == spec_monthly_share(n as int),
{
    (n + 60000) / 120000
}

/// A monthly share never exceeds the amount-times-rate product it is taken
/// from, and is never negative.
pub proof fn lemma_monthly_share_bounds(n: int)
    requires
        0 <= n,
    ensures
        0 <= spec_monthly_share(n) <= n,
{
    lemma_div_pos_is_pos(n + 60000, 120000);
    if n == 0 {
        assert(spec_monthly_share(0) == 0);
    } else {
        lemma_div_is_ordered(n + 60000, 120000 * n, 120000);
        lemma_div_multiples_vanish(n, 120000);
    }
}

/// Monthly shares are monotone in the underlying product.
pub proof fn lemma_monthly_share_monotone(a: int, b: int)
    requires
        a <= b,
    ensures
        spec_monthly_share(a) <= spec_monthly_share(b),
{
    lemma_div_is_ordered(a + 60000, b + 60000, 120000);
}

/// Interest is monotone in the residual debt it accrues on.
pub proof fn lemma_interest_monotone(d1: int, d2: int, ir: int)
    requires
        0 <= d1 <= d2,
        0 <= ir,
    ensures
        spec_interest(d1, ir) <= spec_interest(d2, ir),
{
    lemma_mul_inequality(d1, d2, ir);
    lemma_monthly_share_monotone(d1 * ir, d2 * ir);
}

/// Interest on an in-range residual under an in-range rate is non-negative
/// and fits comfortably in cents.
pub proof fn lemma_interest_bounds(d: int, ir: int)
    requires
        0 <= d <= MAX_LOAN_CENTS,
        0 <= ir <= MAX_RATE_BP,
    ensures
        0 <= d * ir <= 1_000_000_000_000_000_000,
        0 <= spec_interest(d, ir) <= 1_000_000_000_000_000_000,
{
    lemma_mul_nonnegative(d, ir);
    lemma_mul_upper_bound(d, MAX_LOAN_CENTS as int, ir, MAX_RATE_BP as int);
    lemma_monthly_share_bounds(d * ir);
}

/// A valid loan satisfies the engine's arithmetic preconditions, with the
/// per-period unscheduled amount in range.
pub proof fn lemma_valid_engine_ok(m: AnnuityLoan)
    requires
        m.valid(),
    ensures
        engine_ok(
            m.loan as nat,
            m.annual_interest_rate as nat,
            m.monthly_annuity as nat,
            m.spec_monthly_unscheduled() as nat,
        ),
        0 <= m.loan * m.annual_unscheduled_amortization <= 1_000_000_000_000_000_000,
        0 <= m.spec_monthly_unscheduled() <= MAX_LOAN_CENTS,
{
    lemma_mul_nonnegative(m.loan as int, m.annual_unscheduled_amortization as int);
    lemma_mul_upper_bound(
        m.loan as int,
        MAX_LOAN_CENTS as int,
        m.annual_unscheduled_amortization as int,
        MAX_RATE_BP as int,
    );
    let n = m.loan * m.annual_unscheduled_amortization;
    lemma_monthly_share_bounds(n as int);
    lemma_div_is_ordered(n + 60000, 120000 * (MAX_LOAN_CENTS as int), 120000);
    lemma_div_multiples_vanish(MAX_LOAN_CENTS as int, 120000);
}

/// The inputs on which the rate-based constructor succeeds: principal and
/// rates in range, and a derived monthly annuity that exceeds the first
/// month's interest.
pub open spec fn rate_inputs_ok(loan: int, air: int, apr: int, aur: int) -> bool {
    &&& 1 <= loan <= MAX_LOAN_CENTS
    &&& 0 <= air <= MAX_RATE_BP
    &&& 0 <= apr <= MAX_RATE_BP
    &&& 0 <= aur <= MAX_RATE_BP
    &&& spec_monthly_share(loan * (air + apr)) > spec_interest(loan, air)
}

/// The loan the rate-based constructor builds: the monthly annuity is
/// `principal / 12 * (amortization rate + interest rate)`, rounded to the
/// cent, and the first payment is due 2024-01-01.
pub open spec fn spec_from_loan_rate(loan: int, air: int, apr: int, aur: int) -> AnnuityLoan {
    AnnuityLoan {
        loan: loan as u64,
        annual_pay_off_rate: apr as u64,
        annual_interest_rate: air as u64,
        monthly_annuity: spec_monthly_share(loan * (air + apr)) as u64,
        annual_unscheduled_amortization: aur as u64,
        begin_pay_off: Date { year: 2024, month: 1, day: 1 },
    }
}

/// The inputs on which the annuity-based constructor succeeds: principal,
/// rates and annuity in range, and a supplied monthly annuity that exceeds
/// the first month's interest.
pub open spec fn annuity_inputs_ok(loan: int, air: int, annuity: int, aur: int) -> bool {
    &&& 1 <= loan <= MAX_LOAN_CENTS
    &&& 0 <= air <= MAX_RATE_BP
    &&& 0 <= annuity <= MAX_ANNUITY_CENTS
    &&& 0 <= aur <= MAX_RATE_BP
    &&& annuity > spec_interest(loan, air)
}

/// The loan the annuity-based constructor builds. The implied annual
/// amortization rate is not re-derived; the field is left at zero and only
/// feeds the overview text, never the schedule.
pub open spec fn spec_from_loan_annuity(loan: int, air: int, annuity: int, aur: int) -> AnnuityLoan {
    AnnuityLoan {
        loan: loan as u64,
        annual_pay_off_rate: 0,
        annual_interest_rate: air as u64,
        monthly_annuity: annuity as u64,
        annual_unscheduled_amortization: aur as u64,
        begin_pay_off: Date { year: 2024, month: 1, day: 1 },
    }
}

impl AnnuityLoan {
    /// Build a loan from its principal (cents), annual interest rate, annual
    /// amortization rate and annual unscheduled amortization rate (each in
    /// hundredths of a percent). The monthly annuity is derived as
    /// `principal / 12 * (amortization rate + interest rate)`. Rejects a
    /// non-positive principal, a negative or out-of-range quantity, and a
    /// derived annuity that does not exceed the first month's interest.
    pub fn from_loan_rate(
        loan: i64,
        annual_interest_rate: i64,
        annual_pay_off_rate: i64,
        annual_unscheduled_amortization: i64,
    ) -> (r: Result<AnnuityLoan, LoanError>)
        ensures
            r is Ok <==> rate_inputs_ok(
                loan as int,
                annual_interest_rate as int,
                annual_pay_off_rate as int,
                annual_unscheduled_amortization as int,
            ),
            r is Ok ==> r->Ok_0 == spec_from_loan_rate(
                loan as int,
                annual_interest_rate as int,
                annual_pay_off_rate as int,
                annual_unscheduled_amortization as int,
            ) && r->Ok_0.valid(),
            r is Err ==> r->Err_0 == LoanError::InvalidInput,
    {
        if loan < 1 || loan > MAX_LOAN_CENTS as i64 || annual_interest_rate < 0
            || annual_interest_rate > MAX_RATE_BP as i64 || annual_pay_off_rate < 0
            || annual_pay_off_rate > MAX_RATE_BP as i64 || annual_unscheduled_amortization < 0
            || annual_unscheduled_amortization > MAX_RATE_BP as i64 {
            return Err(LoanError::InvalidInput);
        }
        let loan_c = loan as u64;
        let air = annual_interest_rate as u64;
        let apr = annual_pay_off_rate as u64;
        let aur = annual_unscheduled_amortization as u64;
        proof {
            lemma_mul_nonnegative(loan_c as int, (air + apr) as int);
            lemma_mul_upper_bound(
                loan_c as int,
                MAX_LOAN_CENTS as int,
                (air + apr) as int,
                2 * MAX_RATE_BP as int,
            );
            lemma_interest_bounds(loan_c as int, air as int);
        }
        let annuity = monthly_share(loan_c * (air + apr));
        let first_interest = monthly_share(loan_c * air);
        if annuity <= first_interest {
            return Err(LoanError::InvalidInput);
        }
        proof {
            let n = loan_c * (air + apr);
            lemma_monthly_share_bounds(n as int);
            lemma_div_is_ordered(n + 60000, 120000 * (MAX_ANNUITY_CENTS as int), 120000);
            lemma_div_multiples_vanish(MAX_ANNUITY_CENTS as int, 120000);
        }
        Ok(
            AnnuityLoan {
                loan: loan_c,
                annual_pay_off_rate: apr,
                annual_interest_rate: air,
                monthly_annuity: annuity,
                annual_unscheduled_amortization: aur,
                begin_pay_off: Date { year: 2024, month: 1, day: 1 },
            },
        )
    }

    /// Build a loan from its principal (cents), annual interest rate and
    /// annual unscheduled amortization rate (hundredths of a percent), and
    /// the monthly annuity given directly in cents. Rejects a non-positive
    /// principal, a negative or out-of-range quantity, and an annuity that
    /// does not exceed the first month's interest.
    pub fn from_loan_annuity(
        loan: i64,
        annual_interest_rate: i64,
        monthly_annuity: i64,
        annual_unscheduled_amortization: i64,
    ) -> (r: Result<AnnuityLoan, LoanError>)
        ensures
            r is Ok <==> annuity_inputs_ok(
                loan as int,
                annual_interest_rate as int,
                monthly_annuity as int,
                annual_unscheduled_amortization as int,
            ),
            r is Ok ==> r->Ok_0 == spec_from_loan_annuity(
                loan as int,
                annual_interest_rate as int,
                monthly_annuity as int,
                annual_unscheduled_amortization as int,
            ) && r->Ok_0.valid(),
            r is Err ==> r->Err_0 == LoanError::InvalidInput,
    {
        if loan < 1 || loan > MAX_LOAN_CENTS as i64 || annual_interest_rate < 0
            || annual_interest_rate > MAX_RATE_BP as i64 || monthly_annuity < 0
            || monthly_annuity > MAX_ANNUITY_CENTS as i64 || annual_unscheduled_amortization < 0
            || annual_unscheduled_amortization > MAX_RATE_BP as i64 {
            return Err(LoanError::InvalidInput);
        }
        let loan_c = loan as u64;
        let air = annual_interest_rate as u64;
        let annuity = monthly_annuity as u64;
        let aur = annual_unscheduled_amortization as u64;
        proof {
            lemma_interest_bounds(loan_c as int, air as int);
        }
        let first_interest = monthly_share(loan_c * air);
        if annuity <= first_interest {
            return Err(LoanError::InvalidInput);
        }
        Ok(
            AnnuityLoan {
                loan: loan_c,
                annual_pay_off_rate: 0,
                annual_interest_rate: air,
                monthly_annuity: annuity,
                annual_unscheduled_amortization: aur,
                begin_pay_off: Date { year: 2024, month: 1, day: 1 },
            },
        )
    }

    /// The month-by-month pay-off plan: one record per month, from the first
    /// payment date until the residual debt reaches exactly zero. The result
    /// is a pure function of the loan — computing it twice yields identical
    /// sequences — and is never empty.
    pub fn calculate_pay_off_plan(&self) -> (rates: Vec<Rate>)
        requires
            self.valid(),
        ensures
            rates@ == self.plan_spec(),
            rates@.len() >= 1,
            rates@[rates@.len() - 1].residual_dept == 0,
    {
        let ir = self.annual_interest_rate;
        let annuity = self.monthly_annuity;
        proof {
            lemma_valid_engine_ok(*self);
        }
        let unscheduled = monthly_share(self.loan * self.annual_unscheduled_amortization);
        let mut rates: Vec<Rate> = Vec::new();
        let mut d: u64 = self.loan;
        let mut date: Date = self.begin_pay_off;
        proof {
            assert(self.plan_spec() == rates@ + spec_plan(
                d as nat,
                ir as nat,
                annuity as nat,
                unscheduled as nat,
                date,
            )) by {
                assert(rates@ + spec_plan(
                    d as nat,
                    ir as nat,
                    annuity as nat,
                    unscheduled as nat,
                    date,
                ) =~= spec_plan(d as nat, ir as nat, annuity as nat, unscheduled as nat, date));
            }
        }
        while d > 0
            invariant
                self.valid(),
                ir == self.annual_interest_rate,
                annuity == self.monthly_annuity,
                unscheduled as int == self.spec_monthly_unscheduled(),
                d <= self.loan,
                date.wf(),
                date.year + d <= self.begin_pay_off.year + self.loan,
                self.plan_spec() == rates@ + spec_plan(
                    d as nat,
                    ir as nat,
                    annuity as nat,
                    unscheduled as nat,
                    date,
                ),
                rates@.len() == 0 ==> d == self.loan,
                rates@.len() > 0 ==> rates@[rates@.len() - 1].residual_dept == d,
            decreases d,
        {
            proof {
                lemma_valid_engine_ok(*self);
                lemma_interest_bounds(d as int, ir as int);
                lemma_interest_monotone(d as int, self.loan as int, ir as int);
            }
            let interest = monthly_share(d * ir);
            let a0 = annuity - interest;
            let rec: Rate;
            let d2: u64;
            if a0 + unscheduled >= d {
                let u = if unscheduled >= d {
                    d
                } else {
                    unscheduled
                };
                let a = d - u;
                rec = Rate {
                    payment_date: date,
                    annuity: a + interest,
                    interest: interest,
                    amortization: a,
                    unscheduled_amortization: u,
                    residual_dept: 0,
                };
                d2 = 0;
            } else {
                rec = Rate {
                    payment_date: date,
                    annuity: annuity,
                    interest: interest,
                    amortization: a0,
                    unscheduled_amortization: unscheduled,
                    residual_dept: d - a0 - unscheduled,
                };
                d2 = d - a0 - unscheduled;
            }
            proof {
                assert(rec == spec_rate(
                    d as nat,
                    ir as nat,
                    annuity as nat,
                    unscheduled as nat,
                    date,
                ));
                assert(d2 as int == spec_next_residual(
                    d as nat,
                    ir as nat,
                    annuity as nat,
                    unscheduled as nat,
                ));
                assert(spec_plan(d as nat, ir as nat, annuity as nat, unscheduled as nat, date)
                    == seq![rec] + spec_plan(
                    d2 as nat,
                    ir as nat,
                    annuity as nat,
                    unscheduled as nat,
                    date.spec_next_month(),
                ));
                assert((rates@ + seq![rec]) + spec_plan(
                    d2 as nat,
                    ir as nat,
                    annuity as nat,
                    unscheduled as nat,
                    date.spec_next_month(),
                ) =~= rates@ + (seq![rec] + spec_plan(
                    d2 as nat,
                    ir as nat,
                    annuity as nat,
                    unscheduled as nat,
                    date.spec_next_month(),
                )));
            }
            rates.push(rec);
            d = d2;
            date = date.next_month();
        }
        proof {
            assert(spec_plan(0, ir as nat, annuity as nat, unscheduled as nat, date)
                =~= Seq::<Rate>::empty());
            assert(rates@ =~= self.plan_spec());
        }
        rates
    }
}

/// Everything the recurrence guarantees, proved by induction over the
/// schedule: the plan is non-empty, starts at the given date, ends at a
/// residual of exactly zero, and every record's residual debt is exactly the
/// previous residual minus its amortization and unscheduled amortization;
/// every record's interest accrues on the previous residual; dates step by
/// exactly one calendar month and stay well-formed.
proof fn lemma_plan_props(loan: nat, ir: nat, annuity: nat, unsched: nat, d: nat, date: Date)
    requires
        engine_ok(loan, ir, annuity, unsched),
        0 < d <= loan,
        date.wf(),
        date.year + d <= YEAR_CAP,
    ensures
        ({
            let s = spec_plan(d, ir, annuity, unsched, date);
            &&& s.len() >= 1
            &&& s[0].payment_date == date
            &&& s[s.len() - 1].residual_dept == 0
            &&& forall|i: int|
                0 <= i < s.len() ==> (#[trigger] s[i]).residual_dept as int == resid_before(
                    s,
                    d as int,
                    i,
                ) - s[i].amortization - s[i].unscheduled_amortization
            &&& forall|i: int|
                0 <= i < s.len() ==> (#[trigger] s[i]).interest as int == spec_interest(
                    resid_before(s, d as int, i),
                    ir as int,
                )
            &&& forall|i: int|
                0 <= i < s.len() ==> resid_before(s, d as int, i) <= d
            &&& forall|i: int|
                1 <= i < s.len() ==> (#[trigger] s[i]).payment_date == s[i
                    - 1].payment_date.spec_next_month()
            &&& forall|i: int| 0 <= i < s.len() ==> (#[trigger] s[i]).payment_date.wf()
        }),
    decreases d,
{
    let i = spec_interest(d as int, ir as int);
    lemma_interest_bounds(d as int, ir as int);
    lemma_interest_monotone(d as int, loan as int, ir as int);
    assert(i < annuity);
    let a0 = annuity - i;
    assert(a0 >= 1);
    let rec = spec_rate(d, ir, annuity, unsched, date);
    let d2 = spec_next_residual(d, ir, annuity, unsched);
    let s = spec_plan(d, ir, annuity, unsched, date);
    assert(0 <= d2 < d);
    assert(rec.residual_dept == d2);
    assert(rec.payment_date == date);
    assert(rec.residual_dept as int == d - rec.amortization - rec.unscheduled_amortization);
    assert(rec.interest as int == i);
    let date2 = date.spec_next_month();
    lemma_next_month_wf(date);
    if d2 == 0 {
        assert(spec_plan(0, ir, annuity, unsched, date2) =~= Seq::<Rate>::empty());
        assert(s == seq![rec] + spec_plan(0, ir, annuity, unsched, date2));
        assert(s =~= seq![rec]);
    } else {
        lemma_plan_props(loan, ir, annuity, unsched, d2 as nat, date2);
        let s2 = spec_plan(d2 as nat, ir, annuity, unsched, date2);
        assert(s == seq![rec] + s2);
        assert(s.len() == 1 + s2.len());
        assert forall|j: int| 0 <= j < s.len() implies (#[trigger] s[j]) == (if j == 0 {
            rec
        } else {
            s2[j - 1]
        }) by {}
        assert forall|j: int| 1 <= j < s.len() implies resid_before(s, d as int, j) == resid_before(
            s2,
            d2,
            j - 1,
        ) by {
            if j == 1 {
                assert(resid_before(s, d as int, 1) == rec.residual_dept as int);
            } else {
                assert(s[j - 1] == s2[j - 2]);
            }
        }
        assert(s[s.len() - 1] == s2[s2.len() - 1]);
        assert forall|j: int|
            0 <= j < s.len() implies (#[trigger] s[j]).residual_dept as int == resid_before(
            s,
            d as int,
            j,
        ) - s[j].amortization - s[j].unscheduled_amortization by {
            if j >= 1 {
                assert(s[j] == s2[j - 1]);
                assert(s2[j - 1].residual_dept as int == resid_before(s2, d2, j - 1) - s2[j
                    - 1].amortization - s2[j - 1].unscheduled_amortization);
            }
        }
        assert forall|j: int|
            0 <= j < s.len() implies (#[trigger] s[j]).interest as int == spec_interest(
            resid_before(s, d as int, j),
            ir as int,
        ) by {
            if j >= 1 {
                assert(s[j] == s2[j - 1]);
            }
        }
        assert forall|j: int| 0 <= j < s.len() implies resid_before(s, d as int, j) <= d by {
            if j >= 1 {
                assert(resid_before(s, d as int, j) == resid_before(s2, d2, j - 1));
                assert(resid_before(s2, d2, j - 1) <= d2);
            }
        }
        assert forall|j: int|
            1 <= j < s.len() implies (#[trigger] s[j]).payment_date == s[j
            - 1].payment_date.spec_next_month() by {
            if j == 1 {
                assert(s[1] == s2[0]);
                assert(s2[0].payment_date == date2);
            } else {
                assert(s[j] == s2[j - 1]);
                assert(s[j - 1] == s2[j - 2]);
            }
        }
        assert forall|j: int| 0 <= j < s.len() implies (#[trigger] s[j]).payment_date.wf() by {
            if j >= 1 {
                assert(s[j] == s2[j - 1]);
            }
        }
    }
}

/// Termination and exactness: the plan of a valid loan is never empty, its
/// last record's residual debt equals exactly zero, and no record follows it.
pub proof fn lemma_pays_off_exactly(m: AnnuityLoan)
    requires
        m.valid(),
    ensures
        m.plan_spec().len() >= 1,
        m.plan_spec()[m.plan_spec().len() - 1].residual_dept == 0,
{
    lemma_valid_engine_ok(m);
    lemma_plan_props(
        m.loan as nat,
        m.annual_interest_rate as nat,
        m.monthly_annuity as nat,
        m.spec_monthly_unscheduled() as nat,
        m.loan as nat,
        m.begin_pay_off,
    );
}

/// The recurrence itself: every record's residual debt is exactly the
/// residual it was computed from (the principal for the first record, the
/// previous record's residual otherwise) minus its amortization and its
/// unscheduled amortization, and its interest accrues on exactly that
/// residual.
pub proof fn lemma_residual_recurrence(m: AnnuityLoan)
    requires
        m.valid(),
    ensures
        forall|i: int|
            0 <= i < m.plan_spec().len() ==> (#[trigger] m.plan_spec()[i]).residual_dept as int
                == resid_before(m.plan_spec(), m.loan as int, i) - m.plan_spec()[i].amortization
                - m.plan_spec()[i].unscheduled_amortization,
        forall|i: int|
            0 <= i < m.plan_spec().len() ==> (#[trigger] m.plan_spec()[i]).interest as int
                == spec_interest(
                resid_before(m.plan_spec(), m.loan as int, i),
                m.annual_interest_rate as int,
            ),
{
    lemma_valid_engine_ok(m);
    lemma_plan_props(
        m.loan as nat,
        m.annual_interest_rate as nat,
        m.monthly_annuity as nat,
        m.spec_monthly_unscheduled() as nat,
        m.loan as nat,
        m.begin_pay_off,
    );
}

/// No overpayment: no record's amortization plus unscheduled amortization
/// exceeds the residual debt it was computed from.
pub proof fn lemma_no_overpayment(m: AnnuityLoan)
    requires
        m.valid(),
    ensures
        forall|i: int|
            0 <= i < m.plan_spec().len() ==> (#[trigger] m.plan_spec()[i]).amortization
                + m.plan_spec()[i].unscheduled_amortization <= resid_before(
                m.plan_spec(),
                m.loan as int,
                i,
            ),
{
    lemma_residual_recurrence(m);
}

/// Monotonicity: the residual debt never increases from one record to the
/// next, and strictly decreases whenever a record pays anything off.
pub proof fn lemma_residual_monotone(m: AnnuityLoan)
    requires
        m.valid(),
    ensures
        forall|i: int|
            0 <= i < m.plan_spec().len() ==> (#[trigger] m.plan_spec()[i]).residual_dept
                <= resid_before(m.plan_spec(), m.loan as int, i),
        forall|i: int|
            0 <= i < m.plan_spec().len() && m.plan_spec()[i].amortization + m.plan_spec()[
                i
            ].unscheduled_amortization > 0 ==> (#[trigger] m.plan_spec()[i]).residual_dept
                < resid_before(m.plan_spec(), m.loan as int, i),
{
    lemma_residual_recurrence(m);
}

/// Date monotonicity: the first record is due on the loan's begin date, every
/// later record exactly one calendar month after its predecessor, and every
/// payment date is well-formed.
pub proof fn lemma_payment_dates(m: AnnuityLoan)
    requires
        m.valid(),
    ensures
        m.plan_spec().len() >= 1,
        m.plan_spec()[0].payment_date == m.begin_pay_off,
        forall|i: int|
            1 <= i < m.plan_spec().len() ==> (#[trigger] m.plan_spec()[i]).payment_date
                == m.plan_spec()[i - 1].payment_date.spec_next_month(),
        forall|i: int|
            0 <= i < m.plan_spec().len() ==> (#[trigger] m.plan_spec()[i]).payment_date.wf(),
{
    lemma_valid_engine_ok(m);
    lemma_plan_props(
        m.loan as nat,
        m.annual_interest_rate as nat,
        m.monthly_annuity as nat,
        m.spec_monthly_unscheduled() as nat,
        m.loan as nat,
        m.begin_pay_off,
    );
}

/// Determinism: the plan is a function of the loan's parameters alone, so
/// equal loans have equal plans (and `calculate_pay_off_plan` promises its
/// result equals that plan on every call).
pub proof fn lemma_plan_deterministic(m1: AnnuityLoan, m2: AnnuityLoan)
    requires
        m1 == m2,
    ensures
        m1.plan_spec() == m2.plan_spec(),
{
}

/// Construction equivalence: two loans that agree on principal, interest
/// rate, monthly annuity, unscheduled amortization rate and begin date have
/// identical plans, whatever their stated annual amortization rates. In
/// particular, feeding the annuity derived by the rate-based constructor to
/// the annuity-based constructor yields the same schedule.
pub proof fn lemma_construction_equivalence(m1: AnnuityLoan, m2: AnnuityLoan)
    requires
        m1.loan == m2.loan,
        m1.annual_interest_rate == m2.annual_interest_rate,
        m1.monthly_annuity == m2.monthly_annuity,
        m1.annual_unscheduled_amortization == m2.annual_unscheduled_amortization,
        m1.begin_pay_off == m2.begin_pay_off,
    ensures
        m1.plan_spec() == m2.plan_spec(),
{
}

/// One plan record as a line of text: the date in ISO form and each amount
/// with two decimals and a euro sign.
pub open spec fn spec_rate_text(r: Rate) -> Seq<char> {
    "Date: "@ + spec_date(r.payment_date) + " Annuity: "@ + spec_two_decimals(r.annuity as nat)
        + "€ Interest: "@ + spec_two_decimals(r.interest as nat) + "€ Amortization: "@
        + spec_two_decimals(r.amortization as nat) + "€ Residual Dept: "@ + spec_two_decimals(
        r.residual_dept as nat,
    ) + "€"@
}

impl Rate {
    /// This record as a line of text: date, annuity, interest, amortization
    /// and residual debt, each amount with two decimals and a euro sign.
    pub fn to_string(&self) -> (r: String)
        requires
            self.payment_date.wf(),
        ensures
            r@ == spec_rate_text(*self),
    {
        let mut s = String::new();
        s.append("Date: ");
        push_date(&mut s, self.payment_date);
        s.append(" Annuity: ");
        push_two_decimals(&mut s, self.annuity);
        s.append("€ Interest: ");
        push_two_decimals(&mut s, self.interest);
        s.append("€ Amortization: ");
        push_two_decimals(&mut s, self.amortization);
        s.append("€ Residual Dept: ");
        push_two_decimals(&mut s, self.residual_dept);
        s.append("€");
        proof {
            assert(s@ =~= spec_rate_text(*self));
        }
        s
    }
}

/// The loan overview: principal rounded to whole currency units and grouped
/// by thousands, the two annual rates as percentages, the monthly annuity,
/// and the pay-off duration as whole years plus remaining months (a
/// twelve-record plan reads "1 year(s) and 0 month(s)").
pub open spec fn spec_summary_text(m: AnnuityLoan) -> Seq<char> {
    let n = m.plan_spec().len();
    "Loan: "@ + spec_grouped(spec_decimal(((m.loan + 50) / 100) as nat), ' ')
        + "\nInterestRate: "@ + spec_two_decimals(m.annual_interest_rate as nat)
        + "%\nFirstPayOffRate: "@ + spec_two_decimals(m.annual_pay_off_rate as nat)
        + "%\nMonthly annuity: "@ + spec_two_decimals(m.monthly_annuity as nat)
        + "€\nPayed off in "@ + spec_decimal((n / 12) as nat) + " year(s) and "@ + spec_decimal(
        (n % 12) as nat,
    ) + " month(s)"@
}

impl AnnuityLoan {
    /// The textual overview of this loan: principal, rates, monthly annuity
    /// and how long the pay-off plan runs.
    pub fn to_string(&self) -> (r: String)
        requires
            self.valid(),
        ensures
            r@ == spec_summary_text(*self),
    {
        let rates = self.calculate_pay_off_plan();
        let years: u64 = (rates.len() / 12) as u64;
        let months: u64 = (rates.len() % 12) as u64;
        let mut s = String::new();
        s.append("Loan: ");
        let grouped = separate_with_spaces((self.loan + 50) / 100);
        s.append(grouped.as_str());
        s.append("\nInterestRate: ");
        push_two_decimals(&mut s, self.annual_interest_rate);
        s.append("%\nFirstPayOffRate: ");
        push_two_decimals(&mut s, self.annual_pay_off_rate);
        s.append("%\nMonthly annuity: ");
        push_two_decimals(&mut s, self.monthly_annuity);
        s.append("€\nPayed off in ");
        push_decimal(&mut s, years);
        s.append(" year(s) and ");
        push_decimal(&mut s, months);
        s.append(" month(s)");
        proof {
            assert(s@ =~= spec_summary_text(*self));
        }
        s
    }
}

} // verus!
