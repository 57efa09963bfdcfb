//! Scenario plans for exercising a deployable program's lifecycle on a
//! ledger, the driver that sequences them against the ledger's slots, the
//! slot wait, and the transaction composer.

pub mod plan;
pub mod slots;
pub mod driver;
pub mod compose;
