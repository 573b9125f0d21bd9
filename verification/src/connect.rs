//! Which endpoint a connection goes to. An address may resolve to several
//! endpoints; they are tried in turn, and the first that answers is kept.
//! The attempts themselves are made by the caller, who reports each here.

use vstd::prelude::*;

verus! {

/// Why no connection could be made.
#[derive(Debug, PartialEq, Eq)]
pub enum ConnectError<E> {
    /// The address resolved to no endpoint at all.
    NoReachableEndpoint,
    /// Every endpoint failed; this is the failure of the last one.
    Failed(E),
}

/// What a series of attempts comes to: the first success, else the last
/// failure, else the report that there was nothing to try.
pub open spec fn connect_outcome<S, E>(attempts: Seq<Result<S, E>>) -> Result<S, ConnectError<E>>
    decreases attempts.len(),
{
    if attempts.len() == 0 {
        Err(ConnectError::NoReachableEndpoint)
    } else {
        match connect_outcome(attempts.drop_last()) {
            Ok(stream) => Ok(stream),
            Err(_) => match attempts.last() {
                Ok(stream) => Ok(stream),
                Err(error) => Err(ConnectError::Failed(error)),
            },
        }
    }
}

/// The failures of the endpoints tried so far.
pub struct ConnectAttempts<E> {
    last_error: Option<E>,
}

impl<E> ConnectAttempts<E> {
    /// The failure of the endpoint that was tried last, if any was tried.
    pub closed spec fn last_error(self) -> Option<E> {
        self.last_error
    }

    /// What giving up now reports.
    pub open spec fn failure(self) -> ConnectError<E> {
        match self.last_error() {
            Some(error) => ConnectError::Failed(error),
            None => ConnectError::NoReachableEndpoint,
        }
    }

    /// Before the first attempt.
    pub fn new() -> (attempts: Self)
        ensures
            attempts.last_error() is None,
    {
        ConnectAttempts { last_error: None }
    }

    /// Takes in the outcome of one attempt. A success is handed back and
    /// ends the series; a failure is kept as the last one, and the next
    /// endpoint is due.
    pub fn record<S>(&mut self, attempt: Result<S, E>) -> (connected: Option<S>)
        ensures
            match attempt {
                Ok(stream) => connected == Some(stream) && final(self).last_error() == old(
                    self,
                ).last_error(),
                Err(error) => connected is None && final(self).last_error() == Some(error),
            },
    {
        match attempt {
            Ok(stream) => Some(stream),
            Err(error) => {
                self.last_error = Some(error);
                None
            },
        }
    }

    /// Ends a series in which no endpoint answered.
    pub fn give_up(self) -> (error: ConnectError<E>)
        ensures
            error == self.failure(),
    {
        match self.last_error {
            Some(error) => ConnectError::Failed(error),
            None => ConnectError::NoReachableEndpoint,
        }
    }
}

/// What a series of attempts that are all known comes to.
pub fn first_success<S, E>(attempts: Vec<Result<S, E>>) -> (r: Result<S, ConnectError<E>>)
    ensures
        r == connect_outcome(attempts@),
{
    let ghost all = attempts@;
    let mut tracker: ConnectAttempts<E> = ConnectAttempts::new();
    assert(all.take(0) =~= Seq::<Result<S, E>>::empty());
    for attempt in it: attempts
        invariant
            it.seq() == all,
            connect_outcome(all.take(it.index() as int)) == Err::<S, ConnectError<E>>(
                tracker.failure(),
            ),
    {
        let ghost k = it.index() as int;
        assert(all.take(k + 1).drop_last() =~= all.take(k));
        assert(all.take(k + 1).last() == all[k]);
        match tracker.record(attempt) {
            Some(stream) => {
                proof {
                    lemma_success_is_kept(all, k + 1);
                }
                return Ok(stream);
            },
            None => {},
        }
    }
    assert(all.take(all.len() as int) =~= all);
    Err(tracker.give_up())
}

/// Once an endpoint has answered, later attempts change nothing.
pub proof fn lemma_success_is_kept<S, E>(attempts: Seq<Result<S, E>>, n: int)
    requires
        0 <= n <= attempts.len(),
        connect_outcome(attempts.take(n)) is Ok,
    ensures
        connect_outcome(attempts) == connect_outcome(attempts.take(n)),
    decreases attempts.len() - n,
{
    if n == attempts.len() {
        assert(attempts.take(n) =~= attempts);
    } else {
        assert(attempts.drop_last().take(n) =~= attempts.take(n));
        lemma_success_is_kept(attempts.drop_last(), n);
    }
}

} // verus!
