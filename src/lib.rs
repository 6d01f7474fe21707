//! Time-based one-time passwords (HMAC-SHA1, thirty-second windows) for a set
//! of registered providers, with the decisions of the command surface stated
//! and proved over a model of the provider registry and the secret store.

pub mod cli;
pub mod commands;
pub mod totp;
