use vstd::prelude::*;
use vstd::std_specs::convert::FromSpecImpl;

verus! {

/// Which clock the time axis of the plots shows.
#[derive(PartialEq, Eq, Structural, Debug, Clone, Copy)]
pub enum TimeMode {
    /// Universal time, as recorded.
    Ut,
    /// Time elapsed since the start of the flight.
    Elapsed,
}

/// Whether a time mode measures time relative to the start of the flight.
pub open spec fn is_relative(mode: TimeMode) -> bool {
    mode == TimeMode::Elapsed
}

impl Default for TimeMode {
    fn default() -> (r: Self)
        ensures
            r == TimeMode::Elapsed,
    {
        TimeMode::Elapsed
    }
}

impl From<TimeMode> for bool {
    fn from(value: TimeMode) -> (r: bool) {
        match value {
            TimeMode::Ut => false,
            TimeMode::Elapsed => true,
        }
    }
}

impl FromSpecImpl<TimeMode> for bool {
    open spec fn obeys_from_spec() -> bool {
        true
    }

    open spec fn from_spec(value: TimeMode) -> bool {
        is_relative(value)
    }
}

} // verus!
