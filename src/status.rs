use vstd::prelude::*;

verus! {

/// Return codes that every entry point of the driver hands back to its caller.
#[derive(Clone, Copy, Debug, PartialEq, Eq, Structural)]
pub enum StatusCode {
    Success,
    SuccessWithInfo,
    Error,
    InvalidHandle,
    NoData,
    StillExecuting,
    NeedData,
    ParamDataAvailable,
}

impl StatusCode {
    /// The value of each code in the C interface of ODBC.
    pub open spec fn raw_spec(self) -> int {
        match self {
            StatusCode::Success => 0,
            StatusCode::SuccessWithInfo => 1,
            StatusCode::Error => -1,
            StatusCode::InvalidHandle => -2,
            StatusCode::NoData => 100,
            StatusCode::StillExecuting => 2,
            StatusCode::NeedData => 99,
            StatusCode::ParamDataAvailable => 101,
        }
    }

    /// The raw value of this code in the C interface.
    pub fn raw(self) -> (r: i16)
        ensures
            r == self.raw_spec(),
    {
        match self {
            StatusCode::Success => 0,
            StatusCode::SuccessWithInfo => 1,
            StatusCode::Error => -1,
            StatusCode::InvalidHandle => -2,
            StatusCode::NoData => 100,
            StatusCode::StillExecuting => 2,
            StatusCode::NeedData => 99,
            StatusCode::ParamDataAvailable => 101,
        }
    }

    /// The code whose raw value is `v`, if there is one.
    pub fn from_raw(v: i16) -> (r: Option<StatusCode>)
        ensures
            r matches Some(c) ==> c.raw_spec() == v,
            r is None ==> (forall|c: StatusCode| c.raw_spec() != v),
    {
        if v == 0 {
            Some(StatusCode::Success)
        } else if v == 1 {
            Some(StatusCode::SuccessWithInfo)
        } else if v == -1 {
            Some(StatusCode::Error)
        } else if v == -2 {
            Some(StatusCode::InvalidHandle)
        } else if v == 100 {
            Some(StatusCode::NoData)
        } else if v == 2 {
            Some(StatusCode::StillExecuting)
        } else if v == 99 {
            Some(StatusCode::NeedData)
        } else if v == 101 {
            Some(StatusCode::ParamDataAvailable)
        } else {
            None
        }
    }
}

} // verus!
