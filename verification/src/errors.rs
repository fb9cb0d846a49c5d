use vstd::prelude::*;

verus! {

/// The queue backend's own error type, declared so that library signatures
/// can carry it.  Relies on redis::RedisError being an ordinary owned error
/// value.
#[verifier::external_type_specification]
#[verifier::external_body]
pub struct ExRedisError(redis::RedisError);

/// The error type of the signal and wait calls.  Relies on nix::errno::Errno
/// being a plain enumeration of OS error numbers.
#[verifier::external_type_specification]
#[verifier::external_body]
pub struct ExErrno(nix::errno::Errno);

/// Every failure the supervision engine reports to its caller: a failed
/// queue-backend query (recoverable by restarting the session), or a failed
/// signal or wait on a worker process (fatal).
pub enum FromanError {
    RedisError(redis::RedisError),
    SignalError(nix::errno::Errno),
}

impl From<redis::RedisError> for FromanError {
    fn from(error: redis::RedisError) -> (r: Self) {
        FromanError::RedisError(error)
    }
}

impl vstd::std_specs::convert::FromSpecImpl<redis::RedisError> for FromanError {
    open spec fn obeys_from_spec() -> bool {
        true
    }

    open spec fn from_spec(error: redis::RedisError) -> Self {
        FromanError::RedisError(error)
    }
}

pub type FromanResult<T> = Result<T, FromanError>;

} // verus!
