use credit_calculator::calendar::Date;
use credit_calculator::credit_calculator::AnnuityLoan;
use credit_calculator::credit_calculator::LoanError;
use credit_calculator::credit_calculator::Rate;

fn date(year: u64, month: u8, day: u8) -> Date {
    Date { year, month, day }
}

#[test]
fn rate_based_first_record() {
    // 200,000.00 principal, 4% interest, 2% amortization, no unscheduled
    // amortization: monthly annuity 1,000.00; first month's interest 666.67,
    // amortization 333.33, residual 199,666.67.
    let loan = AnnuityLoan::from_loan_rate(20_000_000, 400, 200, 0).unwrap();
    assert_eq!(loan.monthly_annuity, 100_000);
    let rates = loan.calculate_pay_off_plan();
    let first = rates[0];
    assert_eq!(first.payment_date, date(2024, 1, 1));
    assert_eq!(first.annuity, 100_000);
    assert_eq!(first.interest, 66_667);
    assert_eq!(first.amortization, 33_333);
    assert_eq!(first.unscheduled_amortization, 0);
    assert_eq!(first.residual_dept, 19_966_667);
}

#[test]
fn one_period_loan_clamps_final_payment() {
    // 1,000.00 principal at 4%: one month's interest is 3.33; an annuity of
    // 1,003.33 pays the loan off in a single period, with the amortization
    // clamped to exactly the principal and the reported annuity exactly
    // interest plus amortization.
    let loan = AnnuityLoan::from_loan_annuity(100_000, 400, 100_333, 0).unwrap();
    let rates = loan.calculate_pay_off_plan();
    assert_eq!(rates.len(), 1);
    let only = rates[0];
    assert_eq!(only.interest, 333);
    assert_eq!(only.amortization, 100_000);
    assert_eq!(only.annuity, 100_333);
    assert_eq!(only.unscheduled_amortization, 0);
    assert_eq!(only.residual_dept, 0);
}

#[test]
fn negative_principal_is_invalid() {
    assert_eq!(
        AnnuityLoan::from_loan_rate(-500, 400, 200, 0).unwrap_err(),
        LoanError::InvalidInput
    );
    assert_eq!(
        AnnuityLoan::from_loan_annuity(-500, 400, 100_000, 0).unwrap_err(),
        LoanError::InvalidInput
    );
}

#[test]
fn zero_principal_is_invalid() {
    assert_eq!(
        AnnuityLoan::from_loan_rate(0, 400, 200, 0).unwrap_err(),
        LoanError::InvalidInput
    );
}

#[test]
fn negative_rate_is_invalid() {
    assert_eq!(
        AnnuityLoan::from_loan_rate(100_000, -1, 200, 0).unwrap_err(),
        LoanError::InvalidInput
    );
    assert_eq!(
        AnnuityLoan::from_loan_rate(100_000, 400, -1, 0).unwrap_err(),
        LoanError::InvalidInput
    );
    assert_eq!(
        AnnuityLoan::from_loan_rate(100_000, 400, 200, -1).unwrap_err(),
        LoanError::InvalidInput
    );
}

#[test]
fn annuity_not_above_interest_is_invalid() {
    // One month's interest on 1,000.00 at 4% is 3.33; an annuity equal to it
    // or below it would never amortize.
    assert_eq!(
        AnnuityLoan::from_loan_annuity(100_000, 400, 333, 0).unwrap_err(),
        LoanError::InvalidInput
    );
    assert_eq!(
        AnnuityLoan::from_loan_annuity(100_000, 400, 100, 0).unwrap_err(),
        LoanError::InvalidInput
    );
    // Just above the interest it is accepted.
    assert!(AnnuityLoan::from_loan_annuity(100_000, 400, 334, 0).is_ok());
    // A zero amortization rate derives an annuity equal to the interest.
    assert_eq!(
        AnnuityLoan::from_loan_rate(100_000, 400, 0, 0).unwrap_err(),
        LoanError::InvalidInput
    );
}

#[test]
fn generate_is_deterministic() {
    let loan = AnnuityLoan::from_loan_rate(20_000_000, 400, 200, 100).unwrap();
    let first = loan.calculate_pay_off_plan();
    let second = loan.calculate_pay_off_plan();
    assert_eq!(first, second);
}

#[test]
fn rate_and_annuity_construction_agree() {
    // Feeding the annuity derived by the rate-based constructor into the
    // annuity-based constructor yields the identical schedule.
    let by_rate = AnnuityLoan::from_loan_rate(20_000_000, 400, 200, 50).unwrap();
    let by_annuity =
        AnnuityLoan::from_loan_annuity(20_000_000, 400, by_rate.monthly_annuity as i64, 50)
            .unwrap();
    assert_eq!(
        by_rate.calculate_pay_off_plan(),
        by_annuity.calculate_pay_off_plan()
    );
}

fn check_schedule_laws(loan_cents: u64, rates: &[Rate]) {
    assert!(!rates.is_empty());
    let mut previous = loan_cents;
    for rate in rates {
        // No overpayment, and the exact residual recurrence.
        assert!(rate.amortization + rate.unscheduled_amortization <= previous);
        assert_eq!(
            rate.residual_dept,
            previous - rate.amortization - rate.unscheduled_amortization
        );
        assert!(rate.residual_dept <= previous);
        previous = rate.residual_dept;
    }
    assert_eq!(rates.last().unwrap().residual_dept, 0);
    for pair in rates.windows(2) {
        // Every date is exactly one calendar month after its predecessor.
        assert!(pair[1].residual_dept < pair[0].residual_dept);
        let expected = if pair[0].payment_date.month == 12 {
            date(pair[0].payment_date.year + 1, 1, pair[0].payment_date.day)
        } else {
            date(
                pair[0].payment_date.year,
                pair[0].payment_date.month + 1,
                pair[0].payment_date.day,
            )
        };
        assert_eq!(pair[1].payment_date, expected);
    }
}

#[test]
fn long_schedule_obeys_the_laws() {
    let loan = AnnuityLoan::from_loan_rate(20_000_000, 400, 200, 0).unwrap();
    let rates = loan.calculate_pay_off_plan();
    assert!(rates.len() > 12);
    check_schedule_laws(20_000_000, &rates);
}

#[test]
fn unscheduled_schedule_obeys_the_laws() {
    let loan = AnnuityLoan::from_loan_rate(20_000_000, 400, 200, 100).unwrap();
    let rates = loan.calculate_pay_off_plan();
    check_schedule_laws(20_000_000, &rates);
    assert!(rates[0].unscheduled_amortization > 0);
    // The extra amortization shortens the schedule.
    let plain = AnnuityLoan::from_loan_rate(20_000_000, 400, 200, 0).unwrap();
    assert!(rates.len() < plain.calculate_pay_off_plan().len());
}

#[test]
fn unscheduled_amortization_closing_the_first_period() {
    // 10.00 principal, no interest, 1,000% unscheduled amortization: the
    // fixed monthly unscheduled amount is 8.33, the annuity's share is
    // clamped to the remaining 1.67 and the loan closes in one period.
    let loan = AnnuityLoan::from_loan_annuity(1_000, 0, 500, 100_000).unwrap();
    let rates = loan.calculate_pay_off_plan();
    assert_eq!(rates.len(), 1);
    let only = rates[0];
    assert_eq!(only.interest, 0);
    assert_eq!(only.unscheduled_amortization, 833);
    assert_eq!(only.amortization, 167);
    assert_eq!(only.annuity, 167);
    assert_eq!(only.residual_dept, 0);
}

#[test]
fn unscheduled_amortization_above_residual_is_clamped() {
    // A tiny annuity with a large unscheduled amount: the second period's
    // residual is below the fixed unscheduled amount, which is clamped to the
    // residual while the scheduled amortization drops to zero.
    let loan = AnnuityLoan::from_loan_annuity(1_000, 0, 1, 100_000).unwrap();
    let rates = loan.calculate_pay_off_plan();
    assert_eq!(rates.len(), 2);
    assert_eq!(rates[0].amortization, 1);
    assert_eq!(rates[0].unscheduled_amortization, 833);
    assert_eq!(rates[0].residual_dept, 166);
    assert_eq!(rates[1].amortization, 0);
    assert_eq!(rates[1].unscheduled_amortization, 166);
    assert_eq!(rates[1].annuity, 0);
    assert_eq!(rates[1].residual_dept, 0);
    check_schedule_laws(1_000, &rates);
}
