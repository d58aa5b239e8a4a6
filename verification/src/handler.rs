//! The submission handler as a state machine: a request is validated into
//! either a rejection or a subscriber, the persistence outcome settles it,
//! and each terminal state maps to one response status.
use vstd::prelude::*;

use crate::domain::NewSubscriber;
use crate::domain::subscriber_email::is_valid_email;
use crate::domain::subscriber_name::name_ok;
use crate::form::FormData;
use crate::form::parsed_form;
use crate::persistence::PersistenceError;

verus! {

/// Where a submission stands. `Validated` awaits the persistence outcome;
/// the other three are terminal and map to a response status.
pub enum Submission {
    Rejected,
    Validated(NewSubscriber),
    Accepted,
    PersistFailed,
}

/// Whether the state produces the external response and ends processing.
pub open spec fn is_terminal(s: &Submission) -> bool {
    !(s is Validated)
}

/// The response status a terminal state maps to.
pub open spec fn response_status(s: &Submission) -> u16 {
    match s {
        Submission::Rejected => 400,
        Submission::Accepted => 200,
        Submission::PersistFailed => 500,
        Submission::Validated(_) => 0,
    }
}

/// Validates a raw form body: the result is `Validated` with both fields
/// parsed, carried over verbatim, exactly when the body yields the two
/// fields and both pass; any malformed body or failing field rejects the
/// submission before any persistence is attempted.
pub fn validate_submission(body: &Vec<u8>) -> (s: Submission)
    ensures
        match parsed_form(body@) {
            None => s is Rejected,
            Some(fields) => {
                if is_valid_email(fields.0) && name_ok(fields.1) {
                    &&& s matches Submission::Validated(ns)
                    &&& ns.email@ == fields.0
                    &&& ns.name@ == fields.1
                    &&& ns.valid()
                } else {
                    s is Rejected
                }
            },
        },
{
    let form = match FormData::parse_body(body) {
        Some(form) => form,
        None => {
            return Submission::Rejected;
        },
    };
    match NewSubscriber::try_from(form) {
        Ok(ns) => Submission::Validated(ns),
        Err(_) => Submission::Rejected,
    }
}

/// Settles a validated submission from the persistence outcome: success is
/// accepted with nothing to log; failure is terminal with exactly one
/// error-level log line, carrying the underlying cause.
pub fn settle(outcome: Result<(), PersistenceError>) -> (r: (Submission, Option<String>))
    ensures
        is_terminal(&r.0),
        outcome is Ok ==> r.0 is Accepted && r.1 is None,
        outcome matches Err(e) ==> r.0 is PersistFailed && (r.1 matches Some(m) && m@
            == e.cause@),
{
    match outcome {
        Ok(()) => (Submission::Accepted, None),
        Err(e) => (Submission::PersistFailed, Some(e.cause)),
    }
}

/// The response status of a terminal state: success answers 200, a rejected
/// submission 400, a persistence failure 500.
pub fn status_code(s: &Submission) -> (c: u16)
    requires
        is_terminal(s),
    ensures
        c == response_status(s),
{
    match s {
        Submission::Rejected => 400,
        Submission::Accepted => 200,
        Submission::PersistFailed => 500,
        Submission::Validated(_) => 0,
    }
}

/// The liveness probe's answer: status 200 with an empty body.
pub fn health_check_response() -> (r: (u16, Vec<u8>))
    ensures
        r.0 == 200,
        r.1@ == Seq::<u8>::empty(),
{
    (200, Vec::new())
}

} // verus!
