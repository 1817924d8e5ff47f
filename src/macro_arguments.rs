//! The arguments that declare an endpoint: method, path, description.

use vstd::prelude::*;

use crate::error::EndpointError;
use crate::method::{method_name, parse_method, upper_of, is_method_name, HttpMethod};

verus! {

/// The validated arguments of an endpoint declaration.
pub struct MacroArgs {
    pub method: HttpMethod,
    pub path: String,
    pub description: Option<String>,
    pub public: bool,
}

impl MacroArgs {
    /// Validates the values given for an endpoint declaration.  The method is
    /// checked first: it must be given, and name a documented method in any
    /// letter case; then the path must be given.
    pub fn from_parts(
        method: Option<String>,
        path: Option<String>,
        description: Option<String>,
        public: bool,
    ) -> (r: Result<MacroArgs, EndpointError>)
        ensures
            method is None ==> r == Err::<MacroArgs, EndpointError>(EndpointError::MissingMethod),
            method matches Some(t) ==> {
                if !is_method_name(upper_of(t@)) {
                    r == Err::<MacroArgs, EndpointError>(EndpointError::UnsupportedHttpMethod)
                } else if path is None {
                    r == Err::<MacroArgs, EndpointError>(EndpointError::MissingPath)
                } else {
                    r matches Ok(a) && method_name(a.method) == upper_of(t@) && a.path == path->0
                        && a.description == description && a.public == public
                }
            },
    {
        let token = match method {
            None => {
                return Err(EndpointError::MissingMethod);
            },
            Some(t) => t,
        };
        let method = match parse_method(token.as_str()) {
            Ok(m) => m,
            Err(e) => {
                return Err(e);
            },
        };
        match path {
            None => Err(EndpointError::MissingPath),
            Some(path) => Ok(MacroArgs { method, path, description, public }),
        }
    }
}

} // verus!
