use vstd::prelude::*;

verus! {

/// Why a call through the breaker did not return a value.
#[derive(Debug, PartialEq, Eq)]
pub enum Error<E> {
    /// The call was rejected because the breaker is open.
    CircuitOpen,
    /// The call was rejected because a probe call is already running.
    ProbeInFlight,
    /// The call ran and the wrapped service returned this error.
    Inner(E),
}

impl<E> From<E> for Error<E> {
    /// The error of the wrapped service, as `Inner`.
    fn from(e: E) -> (r: Self) {
        Error::Inner(e)
    }
}

impl<E> vstd::std_specs::convert::FromSpecImpl<E> for Error<E> {
    open spec fn obeys_from_spec() -> bool {
        true
    }

    open spec fn from_spec(e: E) -> Self {
        Error::Inner(e)
    }
}

} // verus!
