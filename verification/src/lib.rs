//! Core of a newsletter-subscription service: validated parsing of submitted
//! identity data, a verified decoder for the submitted form body, the
//! submission state machine, and preparation of the record that the
//! persistence layer writes.
pub mod configuration;
pub mod domain;
pub mod form;
pub mod handler;
pub mod persistence;
