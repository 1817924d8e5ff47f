//! Operation descriptors: what one handler documents under one method and path.

use vstd::prelude::*;

use crate::handler_signature::{argument_views, ArgumentKind, HandlerArgument};
use crate::route::string_views;

verus! {

/// A path parameter: the placeholder's name and the type that documents it.
#[derive(Debug, PartialEq, Eq)]
pub struct PathParam {
    pub name: String,
    pub schema: String,
}

impl View for PathParam {
    type V = (Seq<char>, Seq<char>);

    open spec fn view(&self) -> (Seq<char>, Seq<char>) {
        (self.name@, self.schema@)
    }
}

/// The documentation of one operation.  Types are given as type expressions
/// (`Vec<Todo>`), for a schema generator to resolve.
#[derive(Debug, PartialEq, Eq)]
pub struct Operation {
    pub operation_id: String,
    pub description: String,
    /// The type of the successful response, where the handler documents one.
    pub response: Option<String>,
    /// The type of the request body.
    pub request_body: Option<String>,
    /// The type that lists the query parameters.
    pub query_params: Option<String>,
    /// The path parameters, in placeholder order.
    pub path_params: Vec<PathParam>,
    /// The shared state the handler needs.
    pub state: Option<String>,
}

/// The mathematical content of an [`Operation`].
pub struct OperationView {
    pub operation_id: Seq<char>,
    pub description: Seq<char>,
    pub response: Option<Seq<char>>,
    pub request_body: Option<Seq<char>>,
    pub query_params: Option<Seq<char>>,
    pub path_params: Seq<(Seq<char>, Seq<char>)>,
    pub state: Option<Seq<char>>,
}

/// The view of an optional string.
pub open spec fn opt_view(o: Option<String>) -> Option<Seq<char>> {
    match o {
        Some(s) => Some(s@),
        None => None,
    }
}

impl View for Operation {
    type V = OperationView;

    open spec fn view(&self) -> OperationView {
        OperationView {
            operation_id: self.operation_id@,
            description: self.description@,
            response: opt_view(self.response),
            request_body: opt_view(self.request_body),
            query_params: opt_view(self.query_params),
            path_params: self.path_params@.map_values(|p: PathParam| p@),
            state: opt_view(self.state),
        }
    }
}

/// The type carried by the first argument of role `k`, in declaration order.
pub open spec fn first_of_kind(args: Seq<(ArgumentKind, Seq<char>)>, k: ArgumentKind) -> Option<
    Seq<char>,
>
    decreases args.len(),
{
    if args.len() == 0 {
        None
    } else {
        match first_of_kind(args.drop_last(), k) {
            Some(t) => Some(t),
            None => if args.last().0 == k {
                Some(args.last().1)
            } else {
                None
            },
        }
    }
}

/// The types carried by the path arguments, in declaration order.
pub open spec fn path_types(args: Seq<(ArgumentKind, Seq<char>)>) -> Seq<Seq<char>>
    decreases args.len(),
{
    if args.len() == 0 {
        Seq::empty()
    } else if args.last().0 == ArgumentKind::Path {
        path_types(args.drop_last()).push(args.last().1)
    } else {
        path_types(args.drop_last())
    }
}

/// Placeholder names paired with path types by position, as far as the
/// shorter of the two reaches.
pub open spec fn zip_params(names: Seq<Seq<char>>, types: Seq<Seq<char>>) -> Seq<
    (Seq<char>, Seq<char>),
> {
    let n = if names.len() <= types.len() {
        names.len()
    } else {
        types.len()
    };
    Seq::new(n, |i: int| (names[i], types[i]))
}

/// The operation documented for a handler with operation id `id`, description
/// `description`, placeholder names `names`, classified arguments `args` and
/// response type `response`.
pub open spec fn operation_of(
    id: Seq<char>,
    description: Seq<char>,
    names: Seq<Seq<char>>,
    args: Seq<(ArgumentKind, Seq<char>)>,
    response: Option<Seq<char>>,
) -> OperationView {
    OperationView {
        operation_id: id,
        description,
        response,
        request_body: first_of_kind(args, ArgumentKind::RequestBody),
        query_params: first_of_kind(args, ArgumentKind::Query),
        path_params: zip_params(names, path_types(args)),
        state: first_of_kind(args, ArgumentKind::State),
    }
}

/// The type carried by the first argument of role `kind`.
fn first_argument(args: &Vec<HandlerArgument>, kind: ArgumentKind) -> (r: Option<String>)
    ensures
        opt_view(r) == first_of_kind(argument_views(args@), kind),
{
    let ghost all = argument_views(args@);
    let mut i: usize = 0;
    while i < args.len()
        invariant
            all == argument_views(args@),
            i <= args@.len(),
            first_of_kind(all.take(i as int), kind) is None,
        decreases args@.len() - i,
    {
        assert(all.take(i as int + 1).drop_last() =~= all.take(i as int));
        assert(all[i as int] == args@[i as int]@);
        if args[i].kind() == kind {
            let found = args[i].type_expr().clone();
            proof {
                lemma_first_of_kind_prefix(all, kind, i as int + 1);
            }
            return Some(found);
        }
        i = i + 1;
    }
    assert(all.take(args@.len() as int) =~= all);
    None
}

proof fn lemma_first_of_kind_prefix(
    args: Seq<(ArgumentKind, Seq<char>)>,
    k: ArgumentKind,
    n: int,
)
    requires
        0 <= n <= args.len(),
        first_of_kind(args.take(n), k) is Some,
    ensures
        first_of_kind(args, k) == first_of_kind(args.take(n), k),
    decreases args.len() - n,
{
    if n < args.len() {
        assert(args.take(n + 1).drop_last() =~= args.take(n));
        lemma_first_of_kind_prefix(args, k, n + 1);
    } else {
        assert(args.take(n) =~= args);
    }
}

/// The path types of `args`.
fn path_argument_types(args: &Vec<HandlerArgument>) -> (r: Vec<String>)
    ensures
        string_views(r@) == path_types(argument_views(args@)),
{
    let ghost all = argument_views(args@);
    let mut out: Vec<String> = Vec::new();
    let mut i: usize = 0;
    while i < args.len()
        invariant
            all == argument_views(args@),
            i <= args@.len(),
            string_views(out@) == path_types(all.take(i as int)),
        decreases args@.len() - i,
    {
        assert(all.take(i as int + 1).drop_last() =~= all.take(i as int));
        assert(all[i as int] == args@[i as int]@);
        if args[i].kind() == ArgumentKind::Path {
            let t = args[i].type_expr().clone();
            let ghost before = out@;
            out.push(t);
            assert(string_views(out@) =~= string_views(before).push(t@));
        }
        i = i + 1;
    }
    assert(all.take(args@.len() as int) =~= all);
    out
}

/// Pairs placeholder names with the path arguments, by position; the longer
/// of the two is cut to the length of the shorter.
fn path_parameters(names: &Vec<String>, args: &Vec<HandlerArgument>) -> (r: Vec<PathParam>)
    ensures
        r@.map_values(|p: PathParam| p@) == zip_params(
            string_views(names@),
            path_types(argument_views(args@)),
        ),
{
    let types = path_argument_types(args);
    let n = if names.len() <= types.len() {
        names.len()
    } else {
        types.len()
    };
    let ghost target = zip_params(string_views(names@), string_views(types@));
    let mut out: Vec<PathParam> = Vec::new();
    let mut i: usize = 0;
    while i < n
        invariant
            n == target.len(),
            n <= names@.len(),
            n <= types@.len(),
            target == zip_params(string_views(names@), string_views(types@)),
            i <= n,
            out@.map_values(|p: PathParam| p@) == target.take(i as int),
        decreases n - i,
    {
        let p = PathParam { name: names[i].clone(), schema: types[i].clone() };
        let ghost before = out@;
        assert(string_views(names@)[i as int] == names@[i as int]@);
        assert(string_views(types@)[i as int] == types@[i as int]@);
        assert(p@ == target[i as int]);
        out.push(p);
        assert(out@.map_values(|p: PathParam| p@) =~= before.map_values(|p: PathParam| p@).push(
            p@,
        ));
        assert(out@.map_values(|p: PathParam| p@) =~= target.take(i as int + 1));
        i = i + 1;
    }
    assert(target.take(n as int) =~= target);
    out
}

/// Builds the operation that a handler documents: the response type as
/// given; the first body argument's type as the request body; the first
/// query argument's type as the query parameters; the first state argument's
/// type as the state; and the path arguments paired with the placeholder names
/// by position, cut to the shorter of the two.
pub fn build_operation(
    operation_id: String,
    description: String,
    names: &Vec<String>,
    args: &Vec<HandlerArgument>,
    response: Option<String>,
) -> (r: Operation)
    ensures
        r@ == operation_of(
            operation_id@,
            description@,
            string_views(names@),
            argument_views(args@),
            opt_view(response),
        ),
{
    let request_body = first_argument(args, ArgumentKind::RequestBody);
    let query_params = first_argument(args, ArgumentKind::Query);
    let state = first_argument(args, ArgumentKind::State);
    let path_params = path_parameters(names, args);
    Operation {
        operation_id,
        description,
        response,
        request_body,
        query_params,
        path_params,
        state,
    }
}

/// The number of documented path parameters is the smaller of the number of
/// path arguments and the number of placeholders: none where either is empty,
/// one where one path argument meets two placeholders.
pub proof fn lemma_path_params_truncate(
    id: Seq<char>,
    description: Seq<char>,
    names: Seq<Seq<char>>,
    args: Seq<(ArgumentKind, Seq<char>)>,
    response: Option<Seq<char>>,
)
    ensures
        operation_of(id, description, names, args, response).path_params.len() == if names.len()
            <= path_types(args).len() {
            names.len()
        } else {
            path_types(args).len()
        },
        path_types(args).len() == 0 || names.len() == 0 ==> operation_of(
            id,
            description,
            names,
            args,
            response,
        ).path_params.len() == 0,
{
}

} // verus!
