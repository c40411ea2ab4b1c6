//! Authorization and authentication engine of a small privilege-elevation
//! tool: identity and credential lookup, policy evaluation, password
//! verification and the sequencing of the steps that lead to a launch.

pub mod auth;
pub mod cli;
pub mod credential;
pub mod document;
pub mod engine;
pub mod failure;
pub mod hash;
pub mod identity;
pub mod policy;
pub mod records;
pub mod text;
