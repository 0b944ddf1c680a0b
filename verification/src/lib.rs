//! An amortization-schedule engine for annuity-style loans.
//!
//! Given the principal, the interest rate and either a target amortization
//! rate or a target monthly payment, the engine produces the month-by-month
//! pay-off plan — interest, scheduled amortization, optional unscheduled
//! amortization and residual debt — and a textual loan overview.
//!
//! All monetary amounts are held in cents and all rates in hundredths of a
//! percent, so every quantity is an exact integer; rounding to the cent uses
//! round-half-up and happens once per derived quantity, never feeding a
//! display rounding back into the recurrence.

pub mod calendar;
pub mod credit_calculator;
pub mod text;
