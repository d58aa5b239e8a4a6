//! The aggregate of a validated email address and display name; it exists
//! only when both fields were accepted.
use vstd::prelude::*;

use crate::domain::subscriber_email::SubscriberEmail;
use crate::domain::subscriber_email::email_parse_post;
use crate::domain::subscriber_email::is_valid_email;
use crate::domain::subscriber_name::SubscriberName;
use crate::domain::subscriber_name::name_ok;
use crate::domain::subscriber_name::name_parse_post;
use crate::domain::ValidationError;
use crate::form::FormData;

verus! {

/// A subscription request whose fields both passed validation; it carries no
/// invariant beyond theirs.
#[derive(Debug)]
pub struct NewSubscriber {
    pub email: SubscriberEmail,
    pub name: SubscriberName,
}

/// Everything the outcome of [`NewSubscriber::try_from`] guarantees about
/// the raw fields it was given.
pub open spec fn subscriber_parse_post(
    raw_email: Seq<char>,
    raw_name: Seq<char>,
    r: Result<NewSubscriber, ValidationError>,
) -> bool {
    &&& (r is Ok <==> is_valid_email(raw_email) && name_ok(raw_name))
    &&& (r matches Ok(ns) ==> ns.email@ == raw_email && ns.name@ == raw_name)
    &&& (!is_valid_email(raw_email) ==> r == Err::<NewSubscriber, ValidationError>(
        ValidationError::InvalidEmail,
    ))
    &&& (is_valid_email(raw_email) && !name_ok(raw_name) ==> r == Err::<
        NewSubscriber,
        ValidationError,
    >(ValidationError::InvalidName))
}

impl NewSubscriber {
    /// Both fields valid once constructed.
    pub open spec fn valid(&self) -> bool {
        self.email.valid() && self.name.valid()
    }

    /// Builds the aggregate from the raw form fields: the email is parsed
    /// first, then the name, stopping at the first failure; accepted input
    /// is carried over verbatim into the result.
    pub fn try_from(form: FormData) -> (r: Result<NewSubscriber, ValidationError>)
        ensures
            subscriber_parse_post(form.email@, form.name@, r),
            r matches Ok(ns) ==> ns.valid(),
    {
        let email = match SubscriberEmail::parse(form.email) {
            Ok(email) => email,
            Err(e) => {
                return Err(e);
            },
        };
        let name = match SubscriberName::parse(form.name) {
            Ok(name) => name,
            Err(e) => {
                return Err(e);
            },
        };
        Ok(NewSubscriber { email, name })
    }
}

/// Building the aggregate is a function of the raw fields alone: two
/// constructions from the same raw fields yield the same outcome.
pub proof fn lemma_subscriber_parse_idempotent(
    raw_email: Seq<char>,
    raw_name: Seq<char>,
    r1: Result<NewSubscriber, ValidationError>,
    r2: Result<NewSubscriber, ValidationError>,
)
    requires
        subscriber_parse_post(raw_email, raw_name, r1),
        subscriber_parse_post(raw_email, raw_name, r2),
    ensures
        r1 is Ok <==> r2 is Ok,
        r1 is Ok && r2 is Ok ==> r1->Ok_0.email@ == r2->Ok_0.email@ && r1->Ok_0.name@
            == r2->Ok_0.name@,
        r1 is Err && r2 is Err ==> r1->Err_0 == r2->Err_0,
{
}

} // verus!
