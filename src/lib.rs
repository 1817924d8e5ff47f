//! Derives OpenAPI-style documentation from the declared parameter and return
//! types of route handlers.
//!
//! The verified core classifies handler parameter types into roles, normalises
//! route templates, builds one operation descriptor per handler, and folds the
//! registered descriptors into a memoised document held by an explicit context.

pub mod route;
pub mod error;
pub mod handler_signature;
pub mod macro_arguments;
pub mod method;
pub mod operation;
pub mod registry;
pub mod endpoint;
