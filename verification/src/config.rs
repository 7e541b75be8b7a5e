//! Settings of the optional cost column.
use vstd::prelude::*;

verus! {

/// The period a cost is shown per.
#[derive(Debug, Clone, Copy, PartialEq, Eq, Structural)]
pub enum CostDisplayPeriod {
    Hourly,
    Daily,
    Monthly,
}

impl Default for CostDisplayPeriod {
    /// Costs are shown per day unless configured otherwise.
    fn default() -> (r: Self)
        ensures
            r == CostDisplayPeriod::Daily,
    {
        CostDisplayPeriod::Daily
    }
}

} // verus!
