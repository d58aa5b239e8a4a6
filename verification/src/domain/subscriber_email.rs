//! A subscriber's email address, accepted only when it passes the standard
//! syntax check of the `validator` crate.
use vstd::prelude::*;

use crate::domain::ValidationError;

verus! {

/// Whether a string is a syntactically valid email address. The decision is
/// made by `validator::validate_email`; only the facts stated where it is
/// called are known of this predicate.
pub uninterp spec fn is_valid_email(s: Seq<char>) -> bool;

/// Whether the string holds an `'@'` anywhere.
pub open spec fn has_at(s: Seq<char>) -> bool {
    exists|i: int| 0 <= i < s.len() && s[i] == '@'
}

/// The index of the last `'@'` in the string, the place where the local part
/// ends and the domain part begins; negative when there is none.
pub open spec fn last_at_index(s: Seq<char>) -> int
    decreases s.len(),
{
    if s.len() == 0 {
        -1
    } else if s[s.len() - 1] == '@' {
        s.len() - 1
    } else {
        last_at_index(s.take(s.len() - 1))
    }
}

/// Relies on `validator::validate_email`: whether a string is an email
/// address under the HTML5 syntax is decided by its characters alone, and
/// its source rejects the empty string, a string with no `'@'`, and any
/// string whose local or domain part (split at the last `'@'`) is empty.
#[verifier::external_body]
fn email_syntax_is_valid(s: &str) -> (r: bool)
    ensures
        r == is_valid_email(s@),
        r ==> has_at(s@),
        r ==> 0 < last_at_index(s@) < s@.len() - 1,
{
    validator::validate_email(s)
}

/// An email address that passed [`SubscriberEmail::parse`]; the raw string
/// is stored verbatim, with no normalization, and never changes afterwards.
#[derive(Debug)]
pub struct SubscriberEmail(String);

impl View for SubscriberEmail {
    type V = Seq<char>;

    closed spec fn view(&self) -> Seq<char> {
        self.0@
    }
}

/// Everything the outcome of [`SubscriberEmail::parse`] guarantees about the
/// raw input it was given.
pub open spec fn email_parse_post(raw: Seq<char>, r: Result<SubscriberEmail, ValidationError>) -> bool {
    &&& (r is Ok <==> is_valid_email(raw))
    &&& (r matches Ok(e) ==> e@ == raw)
    &&& (r matches Err(e) ==> e == ValidationError::InvalidEmail)
}

impl SubscriberEmail {
    /// The invariant every constructed value carries.
    pub open spec fn valid(&self) -> bool {
        is_valid_email(self@)
    }

    /// Accepts `s` exactly when it is a syntactically valid email address;
    /// the accepted string is kept verbatim. Any string without an `'@'`, or
    /// whose local or domain part is empty — the empty string among them —
    /// is refused.
    pub fn parse(s: String) -> (r: Result<SubscriberEmail, ValidationError>)
        ensures
            email_parse_post(s@, r),
            r matches Ok(e) ==> e.valid(),
            !has_at(s@) ==> r is Err,
            s@.len() == 0 ==> r is Err,
            has_at(s@) && (last_at_index(s@) <= 0 || last_at_index(s@) >= s@.len() - 1) ==> r is Err,
    {
        if email_syntax_is_valid(s.as_str()) {
            Ok(SubscriberEmail(s))
        } else {
            Err(ValidationError::InvalidEmail)
        }
    }

    /// The stored string, read-only, for queries and logging.
    pub fn as_ref(&self) -> (r: &str)
        ensures
            r@ == self@,
    {
        self.0.as_str()
    }
}

/// Deciding an email address is a function of the raw input alone: two
/// parses of the same raw string yield the same outcome.
pub proof fn lemma_email_parse_idempotent(
    raw: Seq<char>,
    r1: Result<SubscriberEmail, ValidationError>,
    r2: Result<SubscriberEmail, ValidationError>,
)
    requires
        email_parse_post(raw, r1),
        email_parse_post(raw, r2),
    ensures
        r1 is Ok <==> r2 is Ok,
        r1 is Ok && r2 is Ok ==> r1->Ok_0@ == r2->Ok_0@,
        r1 is Err && r2 is Err ==> r1->Err_0 == r2->Err_0,
{
}

} // verus!
