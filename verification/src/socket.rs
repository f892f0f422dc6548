//! Results of a socket that may have to wait.
//!
//! An asynchronous stream says that it has to wait by being pending.  The frame
//! codec below the connection speaks to a blocking stream, which says it by an
//! error.  The two functions here lead from the one to the other and back.

use vstd::prelude::*;

verus! {

/// Why a socket operation did not succeed.
#[derive(Debug, PartialEq, Eq)]
pub enum SocketError<E> {
    /// It has to wait.
    WouldBlock,
    /// It failed.
    Failed(E),
}

/// The state of an operation that may have to wait.
#[derive(Debug, PartialEq, Eq)]
pub enum Polled<T> {
    /// It is done.
    Ready(T),
    /// It has to wait.
    Pending,
}

/// What a pending operation looks like to the caller of a blocking one.
pub open spec fn blocking_view<T, E>(polled: Polled<Result<T, E>>) -> Result<T, SocketError<E>> {
    match polled {
        Polled::Ready(Ok(value)) => Ok(value),
        Polled::Ready(Err(error)) => Err(SocketError::Failed(error)),
        Polled::Pending => Err(SocketError::WouldBlock),
    }
}

/// What an operation that would block looks like to a poll.
pub open spec fn polling_view<T, E>(result: Result<T, SocketError<E>>) -> Polled<Result<T, E>> {
    match result {
        Ok(value) => Polled::Ready(Ok(value)),
        Err(SocketError::Failed(error)) => Polled::Ready(Err(error)),
        Err(SocketError::WouldBlock) => Polled::Pending,
    }
}

/// Presents a poll as a blocking operation: waiting becomes an error.
pub fn as_blocking<T, E>(polled: Polled<Result<T, E>>) -> (result: Result<T, SocketError<E>>)
    ensures
        result == blocking_view(polled),
{
    match polled {
        Polled::Ready(Ok(value)) => Ok(value),
        Polled::Ready(Err(error)) => Err(SocketError::Failed(error)),
        Polled::Pending => Err(SocketError::WouldBlock),
    }
}

/// Presents a blocking operation as a poll: that error becomes waiting.
pub fn as_polled<T, E>(result: Result<T, SocketError<E>>) -> (polled: Polled<Result<T, E>>)
    ensures
        polled == polling_view(result),
{
    match result {
        Ok(value) => Polled::Ready(Ok(value)),
        Err(SocketError::Failed(error)) => Polled::Ready(Err(error)),
        Err(SocketError::WouldBlock) => Polled::Pending,
    }
}

/// Nothing is lost between the stream and the connection: what the one reports,
/// success, failure or waiting, is what the other sees, and the other way round.
pub proof fn law_waiting_survives<T, E>(polled: Polled<Result<T, E>>, result: Result<T, SocketError<E>>)
    ensures
        polling_view(blocking_view(polled)) == polled,
        blocking_view(polling_view(result)) == result,
{
}

/// Waiting, and nothing else, becomes the error that says so, and the other way
/// round; a value or a failure passes as it is.
pub proof fn law_outcomes_pass<T, E>(
    value: T,
    error: E,
    polled: Polled<Result<T, E>>,
    result: Result<T, SocketError<E>>,
)
    requires
        call_ensures(as_blocking::<T, E>, (polled,), result) || call_ensures(
            as_polled::<T, E>,
            (result,),
            polled,
        ),
    ensures
        polled == Polled::<Result<T, E>>::Ready(Ok(value)) <==> result == Ok::<
            T,
            SocketError<E>,
        >(value),
        polled == Polled::<Result<T, E>>::Ready(Err(error)) <==> result == Err::<
            T,
            SocketError<E>,
        >(SocketError::Failed(error)),
        polled is Pending <==> result == Err::<T, SocketError<E>>(SocketError::WouldBlock),
{
}

} // verus!
