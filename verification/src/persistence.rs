//! The persistence gateway's verified half: the record a single accepted
//! submission writes, and the error a failed write surfaces as.
use vstd::prelude::*;

use crate::domain::NewSubscriber;

verus! {

/// A store-layer failure, carrying the underlying cause for logging only;
/// the caller never interprets it.
pub struct PersistenceError {
    pub cause: String,
}

/// The row written for one accepted submission: a fresh identifier, the
/// validated fields verbatim, and the processing time. Immutable once
/// written; the gateway attempts exactly one insert per record.
pub struct SubscriptionRecord {
    pub id: u128,
    pub email: String,
    pub name: String,
    pub subscribed_at_micros: i64,
}

/// Relies on `uuid::Uuid::new_v4`: a freshly generated random identifier,
/// of which nothing further can be promised.
#[verifier::external_body]
fn fresh_subscriber_id() -> u128 {
    uuid::Uuid::new_v4().as_u128()
}

/// Relies on `chrono::Utc::now`: the current time, of which nothing further
/// can be promised.
#[verifier::external_body]
fn current_timestamp_micros() -> i64 {
    chrono::Utc::now().timestamp_micros()
}

impl SubscriptionRecord {
    /// The record to insert for `subscriber`: its validated fields carried
    /// over verbatim, under a fresh identifier, stamped with the current
    /// time.
    pub fn for_subscriber(subscriber: &NewSubscriber) -> (r: SubscriptionRecord)
        ensures
            r.email@ == subscriber.email@,
            r.name@ == subscriber.name@,
    {
        SubscriptionRecord {
            id: fresh_subscriber_id(),
            email: subscriber.email.as_ref().to_owned(),
            name: subscriber.name.as_ref().to_owned(),
            subscribed_at_micros: current_timestamp_micros(),
        }
    }
}

} // verus!
