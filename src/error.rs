//! Why a registration is rejected.

use vstd::prelude::*;

verus! {

/// A registration that cannot be documented.  Each rejects the whole
/// registration: nothing is added to the registry.
#[derive(Clone, Copy, Debug, PartialEq, Eq, Structural)]
pub enum EndpointError {
    /// A parameter is a receiver (`self`) or its type is not a named type.
    UnsupportedParameterType,
    /// The handler declares no return type.
    MissingReturnType,
    /// The method token is not one of GET, POST, PUT, DELETE, HEAD, OPTIONS,
    /// CONNECT and PATCH.
    UnsupportedHttpMethod,
    /// The endpoint arguments name no method.
    MissingMethod,
    /// The endpoint arguments name no path.
    MissingPath,
}

} // verus!
