//! Artificial latency.

use vstd::prelude::*;

verus! {

/// The latency that is injected before a request is forwarded.
#[derive(Debug)]
pub struct Policy {
    /// An expression that gives a duration, or a number of milliseconds.
    pub duration: String,
}

/// What the expression of a policy gave.
#[derive(Debug, Clone, Copy, PartialEq, Eq, Structural)]
pub enum DelayValue {
    /// A duration: seconds, which may be negative, and nanoseconds beyond them.
    Duration { seconds: i64, nanos: u32 },
    /// A number of milliseconds.
    Int(i64),
    /// A number of milliseconds.
    UInt(u64),
    /// Neither a duration nor a number.
    Other,
}

/// How long a request is held back.
#[derive(Debug, Clone, Copy, PartialEq, Eq, Structural)]
pub enum Delay {
    /// For a duration: seconds, and nanoseconds beyond them.
    Exact { seconds: u64, nanos: u32 },
    /// For a number of milliseconds.
    Millis(u64),
}

impl DelayValue {
    /// How long this value is, in nanoseconds, which may be negative.
    pub open spec fn length(self) -> int {
        match self {
            DelayValue::Duration { seconds, nanos } => seconds * 1_000_000_000 + nanos,
            DelayValue::Int(v) => v * 1_000_000,
            DelayValue::UInt(v) => v * 1_000_000,
            DelayValue::Other => 0,
        }
    }

    /// Whether the nanoseconds beyond the seconds are less than a second.
    pub open spec fn wf(self) -> bool {
        self matches DelayValue::Duration { nanos, .. } ==> nanos < 1_000_000_000
    }
}

impl Delay {
    /// How long this is, in nanoseconds.
    pub open spec fn length(self) -> int {
        match self {
            Delay::Exact { seconds, nanos } => seconds * 1_000_000_000 + nanos,
            Delay::Millis(v) => v * 1_000_000,
        }
    }
}

/// How long a request is held back, given what the expression gave, if it could be evaluated.
/// What is not positive holds nothing back.
pub open spec fn delay_of(value: Option<DelayValue>) -> Option<Delay> {
    match value {
        Some(DelayValue::Duration { seconds, nanos }) => if seconds > 0 || (seconds == 0 && nanos
            > 0) {
            Some(Delay::Exact { seconds: seconds as u64, nanos })
        } else {
            None
        },
        Some(DelayValue::Int(v)) => if v > 0 {
            Some(Delay::Millis(v as u64))
        } else {
            None
        },
        Some(DelayValue::UInt(v)) => if v > 0 {
            Some(Delay::Millis(v))
        } else {
            None
        },
        _ => None,
    }
}

/// A request is held back exactly where the value is positive, and exactly as long as it says.
pub proof fn law_only_positive_values_delay(value: DelayValue)
    requires
        value.wf(),
    ensures
        delay_of(Some(value)) is Some <==> value.length() > 0,
        delay_of(Some(value)) matches Some(delay) ==> delay.length() == value.length(),
{
}

/// How long a request is held back.
pub fn eval_duration(value: Option<DelayValue>) -> (r: Option<Delay>)
    ensures
        r == delay_of(value),
{
    match value {
        Some(DelayValue::Duration { seconds, nanos }) => {
            if seconds < 0 || (seconds == 0 && nanos == 0) {
                None
            } else {
                Some(Delay::Exact { seconds: seconds as u64, nanos })
            }
        },
        Some(DelayValue::Int(v)) => {
            if v > 0 {
                Some(Delay::Millis(v as u64))
            } else {
                None
            }
        },
        Some(DelayValue::UInt(v)) => {
            if v > 0 {
                Some(Delay::Millis(v))
            } else {
                None
            }
        },
        _ => None,
    }
}

impl Policy {
    /// The expressions of this policy.
    pub fn expressions(&self) -> (r: Vec<String>)
        ensures
            r@ == seq![self.duration],
    {
        let mut out: Vec<String> = Vec::new();
        out.push(self.duration.clone());
        out
    }
}

} // verus!
