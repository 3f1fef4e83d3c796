//! Recipe-driven asset crafting: formulas of ingredients and outputs, checked
//! against ledger holdings and turned into the ledger calls that carry them out.
pub mod craft;
pub mod formula;
pub mod identity;
pub mod laws;
pub mod ledger;
pub mod register;
