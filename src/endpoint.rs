//! Registering a handler: classify its signature, document it, and record the
//! operation in a context.

use vstd::prelude::*;

use crate::error::EndpointError;
use crate::handler_signature::{
    all_name_based, handler_arguments, parse_handler_arguments, parse_handler_ret_type,
    response_of, HandlerSignature,
};
use crate::macro_arguments::MacroArgs;
use crate::method::HttpMethod;
use crate::operation::{build_operation, operation_of};
use crate::registry::{register_view, EntryView, OpenApiContext, RegistryEntry};
use crate::route::{canonical_route, extract_params, placeholder_names, segments, transform_route};

verus! {

/// What a registration hands to the dispatch layer: the canonical path, the
/// method, and the handler.
pub struct Route<H> {
    pub path: String,
    pub method: HttpMethod,
    pub handler: H,
}

/// The description an endpoint declaration gives, empty where it gives none.
pub open spec fn description_of(args: MacroArgs) -> Seq<char> {
    match args.description {
        Some(d) => d@,
        None => Seq::empty(),
    }
}

/// The registry entry documented for a handler with signature `sig` declared
/// with `args`, where the signature is accepted.
pub open spec fn registration(args: MacroArgs, sig: HandlerSignature) -> EntryView {
    let path = canonical_route(args.path@);
    (
        path,
        args.method,
        operation_of(
            sig.name@,
            description_of(args),
            placeholder_names(segments(path)),
            handler_arguments(sig.inputs@),
            response_of(sig.output->0),
        ),
    )
}

/// Documents the handler `handler`, whose signature is `sig`, under the
/// declaration `args`, and records the operation in `ctx`.  A receiver or a
/// parameter whose type is not a named type rejects the handler, and so does a
/// missing return type; nothing is recorded then.
pub fn endpoint<M, H>(
    ctx: &mut OpenApiContext<M>,
    args: &MacroArgs,
    sig: &HandlerSignature,
    handler: H,
) -> (r: Result<Route<H>, EndpointError>)
    ensures
        !all_name_based(sig.inputs@) ==> (r matches Err(e) && e
            == EndpointError::UnsupportedParameterType && final(ctx)@ == old(ctx)@),
        all_name_based(sig.inputs@) && sig.output is None ==> (r matches Err(e) && e
            == EndpointError::MissingReturnType && final(ctx)@ == old(ctx)@),
        all_name_based(sig.inputs@) && sig.output is Some ==> (r matches Ok(route) && route.path@
            == canonical_route(args.path@) && route.method == args.method && route.handler
            == handler && final(ctx)@ == register_view(old(ctx)@, registration(*args, *sig))),
{
    let fn_args = match parse_handler_arguments(sig) {
        Ok(a) => a,
        Err(e) => {
            return Err(e);
        },
    };
    let response = match parse_handler_ret_type(sig) {
        Ok(t) => t,
        Err(e) => {
            return Err(e);
        },
    };
    let path = transform_route(args.path.as_str());
    let names = extract_params(path.as_str());
    let description = match &args.description {
        Some(d) => d.clone(),
        None => String::new(),
    };
    let operation = build_operation(sig.name.clone(), description, &names, &fn_args, response);
    let entry = RegistryEntry { path: path.clone(), method: args.method, operation };
    ctx.register(entry);
    Ok(Route { path, method: args.method, handler })
}

} // verus!
