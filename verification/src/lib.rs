//! Reconciles the developer accounts and SSH key files of a shared host with a
//! published list of permitted identities.

pub mod command;
pub mod decimal;
pub mod laws;
pub mod model;
pub mod naming;
pub mod protocol;
pub mod prune;
pub mod reconciler;
