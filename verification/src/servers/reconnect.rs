//! When a tunnel that was lost, or could not be created, is created again

use vstd::prelude::*;

verus! {

/// Max tunnel creation attempts that can be an error before cancelling
pub const MAX_ERROR_ATTEMPTS: u8 = 5;

/// The time to wait between two attempts, in milliseconds for each error that
/// was hit in a row
pub const RECONNECT_DELAY: u64 = 1000;

/// The attempts to keep a tunnel open
pub struct Reconnect<E> {
    /// Last encountered error
    last_error: Option<E>,
    /// Number of attempts in a row that errored
    attempt_errors: u8,
}

/// What is known of the attempts to keep a tunnel open
pub struct ReconnectState<E> {
    /// Last encountered error
    pub last_error: Option<E>,
    /// Number of attempts in a row that errored
    pub attempt_errors: u8,
}

impl<E> View for Reconnect<E> {
    type V = ReconnectState<E>;

    closed spec fn view(&self) -> ReconnectState<E> {
        ReconnectState { last_error: self.last_error, attempt_errors: self.attempt_errors }
    }
}

impl<E> ReconnectState<E> {
    /// Before the first attempt
    pub open spec fn start() -> ReconnectState<E> {
        ReconnectState { last_error: None, attempt_errors: 0 }
    }

    /// Whether another attempt is made
    pub open spec fn goes_on(self) -> bool {
        self.attempt_errors < MAX_ERROR_ATTEMPTS
    }

    /// Whether the state can come up: errors in a row leave one to report
    pub open spec fn well_formed(self) -> bool {
        &&& self.attempt_errors <= MAX_ERROR_ATTEMPTS
        &&& self.attempt_errors > 0 ==> self.last_error is Some
    }

    /// The state after an attempt: an error counts, a tunnel that was created
    /// and then lost resets the count
    pub open spec fn after(self, outcome: Result<(), E>) -> ReconnectState<E> {
        match outcome {
            Ok(_) => ReconnectState { attempt_errors: 0, ..self },
            Err(error) => ReconnectState {
                last_error: Some(error),
                attempt_errors: (self.attempt_errors + 1) as u8,
            },
        }
    }

    /// The milliseconds to wait after the attempt that led to the state
    pub open spec fn delay(self) -> int {
        if self.attempt_errors == 0 {
            RECONNECT_DELAY as int
        } else {
            RECONNECT_DELAY * self.attempt_errors
        }
    }
}

impl<E> Reconnect<E> {
    /// Starts without any attempt
    pub fn new() -> (reconnect: Reconnect<E>)
        ensures
            reconnect@ == ReconnectState::<E>::start(),
            reconnect@.well_formed(),
    {
        Reconnect { last_error: None, attempt_errors: 0 }
    }

    /// Whether to make another attempt
    pub fn goes_on(&self) -> (goes_on: bool)
        ensures
            goes_on == self@.goes_on(),
    {
        self.attempt_errors < MAX_ERROR_ATTEMPTS
    }

    /// Takes the outcome of an attempt and provides the milliseconds to wait
    /// before the next one
    ///
    /// ## Arguments
    /// * outcome - The error, or nothing if the tunnel was created and has ended
    pub fn record(&mut self, outcome: Result<(), E>) -> (delay: u64)
        requires
            old(self)@.well_formed(),
            old(self)@.goes_on(),
        ensures
            final(self)@ == old(self)@.after(outcome),
            final(self)@.well_formed(),
            delay == final(self)@.delay(),
    {
        match outcome {
            Err(error) => {
                // Set last error
                self.last_error = Some(error);

                // Increase error attempts
                self.attempt_errors = self.attempt_errors + 1;

                // Error should be delayed by the number of errors already hit
                RECONNECT_DELAY * self.attempt_errors as u64
            },
            Ok(_) => {
                // Reset error attempts
                self.attempt_errors = 0;

                // Non errored reconnect can be quick
                RECONNECT_DELAY
            },
        }
    }

    /// Provides the error to report once no more attempts are made
    pub fn into_error(self) -> (error: Option<E>)
        ensures
            error == self@.last_error,
    {
        self.last_error
    }
}

/// The state after a number of attempts
pub open spec fn state_after<E>(outcomes: Seq<Result<(), E>>) -> ReconnectState<E>
    decreases outcomes.len(),
{
    if outcomes.len() == 0 {
        ReconnectState::start()
    } else {
        state_after(outcomes.drop_last()).after(outcomes.last())
    }
}

/// The number of errors in a row at the end of a number of attempts
pub open spec fn errors_at_end<E>(outcomes: Seq<Result<(), E>>) -> int
    decreases outcomes.len(),
{
    if outcomes.len() == 0 || outcomes.last() is Ok {
        0
    } else {
        1 + errors_at_end(outcomes.drop_last())
    }
}

/// Whether each attempt of a sequence was one that is made
pub open spec fn possible<E>(outcomes: Seq<Result<(), E>>) -> bool
    decreases outcomes.len(),
{
    outcomes.len() > 0 ==> {
        &&& possible(outcomes.drop_last())
        &&& state_after(outcomes.drop_last()).goes_on()
    }
}

/// Attempts are made until five in a row have errored, however many were made
/// before. The wait after an error grows by a second with each error in a row,
/// and is a second otherwise.
pub proof fn law_attempts<E>(outcomes: Seq<Result<(), E>>)
    requires
        possible(outcomes),
    ensures
        state_after(outcomes).well_formed(),
        state_after(outcomes).attempt_errors == errors_at_end(outcomes),
        state_after(outcomes).goes_on() <==> errors_at_end(outcomes) < 5,
        state_after(outcomes).delay() == if errors_at_end(outcomes) == 0 {
            1000
        } else {
            1000 * errors_at_end(outcomes)
        },
    decreases outcomes.len(),
{
    if outcomes.len() > 0 {
        law_attempts(outcomes.drop_last());
    }
}

/// When no more attempts are made the error of the last attempt is reported
pub proof fn law_reported_error<E>(outcomes: Seq<Result<(), E>>)
    requires
        possible(outcomes),
        !state_after(outcomes).goes_on(),
    ensures
        outcomes.len() >= 5,
        outcomes.last() is Err,
        state_after(outcomes).last_error == Some(outcomes.last()->Err_0),
{
    law_attempts(outcomes);
    lemma_errors_at_end(outcomes);
}

/// No more errors end a sequence than it has attempts
proof fn lemma_errors_at_end<E>(outcomes: Seq<Result<(), E>>)
    ensures
        0 <= errors_at_end(outcomes) <= outcomes.len(),
    decreases outcomes.len(),
{
    if outcomes.len() > 0 {
        lemma_errors_at_end(outcomes.drop_last());
    }
}

/// An attempt that errors counts and is the error to report, whatever it was. One
/// that did not resets the count and leaves the error to report as it was. Fewer
/// than five errors in a row are followed by another attempt.
pub proof fn law_attempt<E>(state: ReconnectState<E>, error: E)
    requires
        state.attempt_errors < 255,
    ensures
        state.after(Err(error)).attempt_errors == state.attempt_errors + 1,
        state.after(Err(error)).last_error == Some(error),
        state.after(Ok(())).attempt_errors == 0,
        state.after(Ok(())).last_error == state.last_error,
        state.goes_on() <==> state.attempt_errors < 5,
        state.attempt_errors == 0 ==> state.delay() == 1000,
        state.attempt_errors > 0 ==> state.delay() == 1000 * state.attempt_errors,
        ReconnectState::<E>::start().attempt_errors == 0,
        ReconnectState::<E>::start().last_error is None,
{
}

} // verus!
