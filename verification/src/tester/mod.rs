//! The strategy tester: results, analytics, and the choices around a run.
use vstd::prelude::*;

pub mod analytics;
pub mod config;
pub mod checker;
pub mod dpi;
pub mod runner;
pub mod telemetry;
pub mod report;
pub mod ui;

verus! {

/// The outcome of testing one strategy: standard results or DPI results,
/// whichever kind of test ran.
pub struct RunResult {
    pub strategy_name: String,
    pub test_type: ui::TestType,
    pub standard: Option<Vec<checker::TargetResult>>,
    pub dpi: Option<Vec<dpi::DpiTargetResult>>,
}

/// DPI tests need the IP filter open to every address: the list is switched
/// to `any` for them unless it already is.
pub fn needs_ipset_switch(test_type: ui::TestType, status: crate::app::IpsetStatus) -> (r: bool)
    ensures
        r == (test_type == ui::TestType::Dpi && status != crate::app::IpsetStatus::Any),
{
    test_type == ui::TestType::Dpi && status != crate::app::IpsetStatus::Any
}

} // verus!
