//! What comes of an input or output operation under a time limit.
use vstd::prelude::*;

use crate::error::{connection_error, ChatError, ErrorView};
use crate::text;

verus! {

/// The outcome of an operation that was given a time limit.
#[derive(Debug)]
pub enum Outcome<T> {
    /// The time limit passed first.
    TimedOut,
    /// The operation failed, for the reason given.
    Failed(String),
    /// The operation gave a value.
    Done(T),
}

/// The error of an outcome, if it is one: a fixed text for the time limit, and a
/// prefix before the reason of a failure.
pub open spec fn io_fault<T>(o: Outcome<T>, timed_out: Seq<char>, failed: Seq<char>) -> Option<
    ErrorView,
> {
    match o {
        Outcome::TimedOut => Some(ErrorView::Connection(timed_out)),
        Outcome::Failed(reason) => Some(ErrorView::Connection(failed + reason@)),
        Outcome::Done(_) => None,
    }
}

/// Turns an outcome into a value or a connection error.
pub fn io_result<T>(o: Outcome<T>, timed_out: &str, failed: &str) -> (r: Result<T, ChatError>)
    ensures
        match io_fault(o, timed_out@, failed@) {
            None => r matches Ok(v) && o == Outcome::Done(v),
            Some(fault) => r matches Err(e) && e@ == fault,
        },
{
    match o {
        Outcome::TimedOut => Err(connection_error(timed_out)),
        Outcome::Failed(reason) => Err(
            ChatError::Connection(text::concat2(failed, reason.as_str())),
        ),
        Outcome::Done(v) => Ok(v),
    }
}

/// An operation that gave a value is no failure, whatever the value; one that ran out of
/// time, or failed, is a failure of the connection, and the reason is kept.
pub proof fn only_a_value_is_success<T>(
    value: T,
    reason: String,
    timed_out: Seq<char>,
    failed: Seq<char>,
)
    ensures
        io_fault(Outcome::Done(value), timed_out, failed) is None,
        io_fault(Outcome::<T>::TimedOut, timed_out, failed) == Some(
            ErrorView::Connection(timed_out),
        ),
        io_fault(Outcome::<T>::Failed(reason), timed_out, failed) == Some(
            ErrorView::Connection(failed + reason@),
        ),
{
}

} // verus!
