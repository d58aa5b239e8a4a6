//! Validated value types for a subscription: the email address and the
//! display name, and the aggregate built from both.
pub mod new_subscriber;
pub mod subscriber_email;
pub mod subscriber_name;

pub use new_subscriber::NewSubscriber;
pub use subscriber_email::SubscriberEmail;
pub use subscriber_name::SubscriberName;

use vstd::prelude::*;

verus! {

/// Why a submitted field was refused.
#[derive(Clone, Copy, Debug, PartialEq, Eq, Structural)]
pub enum ValidationError {
    InvalidEmail,
    InvalidName,
}

} // verus!
