use vstd::prelude::*;

verus! {

/// The rate limiter's own failures; each travels as `ProgramError::Custom(code)`.
#[derive(Clone, Copy, Debug, PartialEq, Eq, Structural)]
pub enum RateLimiterError {
    RateLimitExceeded,
    ServiceNotFound,
    ServiceInactive,
    Unauthorized,
    AlreadyInitialized,
}

impl RateLimiterError {
    /// The custom error code of each failure.
    pub open spec fn spec_code(self) -> u32 {
        match self {
            RateLimiterError::RateLimitExceeded => 0,
            RateLimiterError::ServiceNotFound => 1,
            RateLimiterError::ServiceInactive => 2,
            RateLimiterError::Unauthorized => 3,
            RateLimiterError::AlreadyInitialized => 4,
        }
    }

    /// The custom error code of this failure.
    pub fn code(&self) -> (c: u32)
        ensures
            c == self.spec_code(),
    {
        match self {
            RateLimiterError::RateLimitExceeded => 0,
            RateLimiterError::ServiceNotFound => 1,
            RateLimiterError::ServiceInactive => 2,
            RateLimiterError::Unauthorized => 3,
            RateLimiterError::AlreadyInitialized => 4,
        }
    }
}

/// Why reading or writing an account's byte layout failed.
#[derive(Clone, Copy, Debug, PartialEq, Eq, Structural)]
pub enum IoFailure {
    /// The bytes end before the value does.
    UnexpectedLength,
    /// A boolean byte that is neither 0 nor 1.
    InvalidBool(u8),
    /// The account is too small for the value written into it.
    WriteZero,
}

/// The errors a call of the program can end with.
#[derive(Clone, Copy, Debug, PartialEq, Eq, Structural)]
pub enum ProgramError {
    Custom(u32),
    InvalidArgument,
    InvalidInstructionData,
    InvalidSeeds,
    IllegalOwner,
    NotEnoughAccountKeys,
    BorshIoError(IoFailure),
}

impl From<RateLimiterError> for ProgramError {
    fn from(e: RateLimiterError) -> (r: ProgramError) {
        ProgramError::Custom(e.code())
    }
}

impl vstd::std_specs::convert::FromSpecImpl<RateLimiterError> for ProgramError {
    open spec fn obeys_from_spec() -> bool {
        true
    }

    open spec fn from_spec(e: RateLimiterError) -> ProgramError {
        ProgramError::Custom(e.spec_code())
    }
}

/// Distinct failures carry distinct codes, so a caller can tell them apart.
pub proof fn law_error_codes_distinct(a: RateLimiterError, b: RateLimiterError)
    ensures
        a.spec_code() == b.spec_code() <==> a == b,
{
}

/// The failures carry the codes 0 to 4, in the order they are declared.
pub proof fn law_error_codes(e: RateLimiterError)
    ensures
        e == RateLimiterError::RateLimitExceeded <==> e.spec_code() == 0,
        e == RateLimiterError::ServiceNotFound <==> e.spec_code() == 1,
        e == RateLimiterError::ServiceInactive <==> e.spec_code() == 2,
        e == RateLimiterError::Unauthorized <==> e.spec_code() == 3,
        e == RateLimiterError::AlreadyInitialized <==> e.spec_code() == 4,
{
}

} // verus!
