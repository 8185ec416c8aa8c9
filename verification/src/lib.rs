//! In-process service supervision: the lifecycle of supervised services, the
//! registry that tracks them, their mailboxes, and the policy that boots them,
//! together with the helpers that scenario checks of a running network use.

pub mod status;
pub mod registry;
pub mod intercom;
pub mod monitor;
pub mod config;
pub mod console;
pub mod measurement;
pub mod checks;
pub mod digest;
pub mod fragment;
pub mod fragment_verifier;
pub mod sync;
pub mod leaders;
