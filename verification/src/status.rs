use vstd::prelude::*;

verus! {

/// Outcome code reported to the host for every ABI call.
#[derive(Clone, Copy, Debug, PartialEq, Eq, Structural)]
pub enum StatusCode {
    Success,
    Error,
}

impl StatusCode {
    /// The number that stands for this code on the wire.
    pub open spec fn spec_value(self) -> i32 {
        match self {
            StatusCode::Success => 0,
            StatusCode::Error => 1,
        }
    }

    /// The number that stands for this code on the wire (`Success` is 0, `Error` is 1).
    pub fn value(self) -> (v: i32)
        ensures
            v == self.spec_value(),
    {
        match self {
            StatusCode::Success => 0,
            StatusCode::Error => 1,
        }
    }
}

/// A status code together with a human-readable reason.
#[derive(Clone, Debug, PartialEq, Eq)]
pub struct Status {
    pub code: StatusCode,
    pub reason: String,
}

impl Status {
    /// A successful status, with an empty reason.
    pub fn success() -> (s: Self)
        ensures
            s.code == StatusCode::Success,
            s.reason@ == Seq::<char>::empty(),
    {
        Self { code: StatusCode::Success, reason: String::new() }
    }

    /// An error status carrying `reason`.
    pub fn error(reason: &str) -> (s: Self)
        ensures
            s.code == StatusCode::Error,
            s.reason@ == reason@,
    {
        Self { code: StatusCode::Error, reason: String::from_str(reason) }
    }

    /// An error status that takes ownership of an already built reason.
    pub fn error_owned(reason: String) -> (s: Self)
        ensures
            s.code == StatusCode::Error,
            s.reason@ == reason@,
    {
        Self { code: StatusCode::Error, reason }
    }
}

} // verus!
