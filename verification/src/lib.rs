//! Contract-assembly library for consumer/provider HTTP pacts.
//!
//! The crate models a pact document, the builder protocol that assembles it
//! interaction by interaction, the registry of running mock-server
//! instances, and the assembly of a provider-verification request. A generic
//! dynamic value type bridges between a loosely typed host and the strongly
//! typed contract model.

pub mod body;
pub mod builder;
pub mod config;
pub mod json_text;
pub mod pact;
pub mod registry;
pub mod value;
