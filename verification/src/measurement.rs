//! The closed set of measurement kinds the device reports, and the fixed
//! external metric name each one maps to.

use vstd::prelude::*;

verus! {

/// One of the three quantities the instrument reports: power (`P`),
/// current (`I`) or voltage (`U`).
#[derive(PartialEq, Eq, Structural, Clone, Copy, Debug)]
pub enum Measurement {
    P,
    I,
    U,
}

impl Measurement {
    /// The metric name under which samples of this kind are exported.
    pub open spec fn spec_metric_name(self) -> Seq<char> {
        match self {
            Measurement::P => "supply_consumed_power"@,
            Measurement::I => "supply_current"@,
            Measurement::U => "supply_voltage"@,
        }
    }

    pub fn metric_name(&self) -> (r: &'static str)
        ensures
            r@ == self.spec_metric_name(),
    {
        match self {
            Measurement::P => "supply_consumed_power",
            Measurement::I => "supply_current",
            Measurement::U => "supply_voltage",
        }
    }
}

} // verus!
