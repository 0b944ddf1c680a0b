use credit_calculator::calendar::Date;
use credit_calculator::credit_calculator::AnnuityLoan;

fn date(year: u64, month: u8, day: u8) -> Date {
    Date { year, month, day }
}

#[test]
fn rate_line_of_the_first_record() {
    let loan = AnnuityLoan::from_loan_rate(20_000_000, 400, 200, 0).unwrap();
    let rates = loan.calculate_pay_off_plan();
    assert_eq!(
        rates[0].to_string(),
        "Date: 2024-01-01 Annuity: 1000.00€ Interest: 666.67€ \
         Amortization: 333.33€ Residual Dept: 199666.67€"
    );
}

#[test]
fn overview_of_a_twelve_month_loan() {
    // 12.00 at 0% with a 1.00 annuity: twelve records, reported as one year
    // and zero months.
    let loan = AnnuityLoan::from_loan_annuity(1_200, 0, 100, 0).unwrap();
    assert_eq!(loan.calculate_pay_off_plan().len(), 12);
    assert_eq!(
        loan.to_string(),
        "Loan: 12\nInterestRate: 0.00%\nFirstPayOffRate: 0.00%\n\
         Monthly annuity: 1.00€\nPayed off in 1 year(s) and 0 month(s)"
    );
}

#[test]
fn overview_groups_the_loan_by_thousands() {
    // 1,000.00 at 0% with a 10.00 annuity: one hundred records, and the
    // rounded principal is printed with a space between the digit groups.
    let loan = AnnuityLoan::from_loan_annuity(100_000, 0, 1_000, 0).unwrap();
    assert_eq!(
        loan.to_string(),
        "Loan: 1 000\nInterestRate: 0.00%\nFirstPayOffRate: 0.00%\n\
         Monthly annuity: 10.00€\nPayed off in 8 year(s) and 4 month(s)"
    );
}

#[test]
fn overview_reports_the_stated_rates() {
    let loan = AnnuityLoan::from_loan_rate(20_000_000, 400, 200, 0).unwrap();
    let text = loan.to_string();
    assert!(text.starts_with("Loan: 200 000\nInterestRate: 4.00%\nFirstPayOffRate: 2.00%\n"));
    assert!(text.contains("Monthly annuity: 1000.00€\n"));
}

#[test]
fn next_month_rolls_the_year() {
    assert_eq!(date(2024, 12, 1).next_month(), date(2025, 1, 1));
    assert_eq!(date(2024, 6, 15).next_month(), date(2024, 7, 15));
}

#[test]
fn next_month_clamps_the_day() {
    // January 31st steps to the last day of February: the 29th in a leap
    // year, the 28th otherwise.
    assert_eq!(date(2024, 1, 31).next_month(), date(2024, 2, 29));
    assert_eq!(date(2023, 1, 31).next_month(), date(2023, 2, 28));
    assert_eq!(date(2100, 1, 31).next_month(), date(2100, 2, 28));
    assert_eq!(date(2000, 1, 31).next_month(), date(2000, 2, 29));
    assert_eq!(date(2023, 3, 31).next_month(), date(2023, 4, 30));
}
