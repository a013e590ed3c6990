pub mod calendar_arb;
pub mod opportunity;
