//! Handler signatures: declared parameter types, their type chains, and the
//! role each parameter plays.

use vstd::prelude::*;

use crate::error::EndpointError;
use crate::route::string_views;

verus! {

/// A named type as a handler declares it: the name of its first path segment
/// and that segment's generic arguments (`Json<Vec<Todo>>`).
pub struct TypePath {
    pub name: String,
    pub args: Vec<TypeExpr>,
}

/// A declared type, or a generic argument.
pub enum TypeExpr {
    /// A named type.
    Path(TypePath),
    /// A reference, `&T`.
    Reference(Box<TypeExpr>),
    /// Anything else: a tuple, a slice, an `impl Trait`, a lifetime or a
    /// constant argument.
    Other,
}

/// One declared parameter of a handler.
pub enum FnParam {
    /// A `self` receiver.
    Receiver,
    /// A parameter with its declared type.
    Typed(TypeExpr),
}

/// What a handler declares: its name, its parameters in order, and its return
/// type, if it declares one.
pub struct HandlerSignature {
    pub name: String,
    pub inputs: Vec<FnParam>,
    pub output: Option<TypeExpr>,
}

/// The type names of `p`, outer to inner: its own name, then those of each
/// generic argument that is a named type or a reference to one.
pub open spec fn type_chain(p: TypePath) -> Seq<Seq<char>>
    decreases p,
{
    seq![p.name@] + args_chain(p.args@)
}

/// The type names of a list of generic arguments, left to right.  An argument
/// that is neither a named type nor a reference to one adds nothing.
pub open spec fn args_chain(args: Seq<TypeExpr>) -> Seq<Seq<char>>
    decreases args,
{
    if args.len() == 0 {
        Seq::<Seq<char>>::empty()
    } else {
        let last = match args.last() {
            TypeExpr::Path(p) => type_chain(p),
            TypeExpr::Reference(inner) => match *inner {
                TypeExpr::Path(p) => type_chain(p),
                _ => Seq::<Seq<char>>::empty(),
            },
            TypeExpr::Other => Seq::<Seq<char>>::empty(),
        };
        args_chain(args.drop_last()) + last
    }
}

/// Names nested back into one expression: `[A, B, C]` reads `A<B<C>>`.
pub open spec fn nest(names: Seq<Seq<char>>) -> Seq<char>
    decreases names.len(),
{
    if names.len() == 0 {
        Seq::<char>::empty()
    } else if names.len() == 1 {
        names[0]
    } else {
        names[0] + seq!['<'] + nest(names.drop_first()) + seq!['>']
    }
}

/// Appends the type chain of `type_path` to `v`.
pub fn recursive_type(type_path: &TypePath, v: &mut Vec<String>)
    ensures
        string_views(final(v)@) == string_views(old(v)@) + type_chain(*type_path),
    decreases type_path,
{
    let ghost start = string_views(v@);
    v.push(type_path.name.clone());
    assert(string_views(v@) =~= start + seq![type_path.name@]);
    let args = &type_path.args;
    let mut i: usize = 0;
    while i < args.len()
        invariant
            i <= args@.len(),
            args == &type_path.args,
            string_views(v@) == start + seq![type_path.name@] + args_chain(args@.take(i as int)),
        decreases args@.len() - i,
    {
        let ghost before = string_views(v@);
        assert(args@.take(i as int + 1).drop_last() =~= args@.take(i as int));
        assert(args@.take(i as int + 1).last() == args@[i as int]);
        match &args[i] {
            TypeExpr::Path(p) => {
                assert(decreases_to!(type_path => p)) by {
                    assert(decreases_to!(type_path => type_path.args));
                    assert(decreases_to!(type_path.args => type_path.args@));
                    assert(decreases_to!(type_path.args@ => type_path.args@[i as int]));
                };
                recursive_type(p, v);
            },
            TypeExpr::Reference(inner) => {
                match &**inner {
                    TypeExpr::Path(p) => {
                        assert(decreases_to!(type_path => p)) by {
                            assert(decreases_to!(type_path => type_path.args));
                            assert(decreases_to!(type_path.args => type_path.args@));
                            assert(decreases_to!(type_path.args@ => type_path.args@[i as int]));
                        };
                        recursive_type(p, v);
                    },
                    _ => {
                        assert(string_views(v@) =~= before + Seq::<Seq<char>>::empty());
                    },
                }
            },
            TypeExpr::Other => {
                assert(string_views(v@) =~= before + Seq::<Seq<char>>::empty());
            },
        }
        i = i + 1;
    }
    assert(args@.take(args@.len() as int) =~= args@);
}

/// `names[from..]` nested back into one expression.
fn nest_from(names: &Vec<String>, from: usize) -> (r: String)
    requires
        from <= names@.len(),
    ensures
        r@ == nest(string_views(names@).skip(from as int)),
    decreases names@.len() - from,
{
    let ghost tail = string_views(names@).skip(from as int);
    if from == names.len() {
        String::new()
    } else if from + 1 == names.len() {
        names[from].clone()
    } else {
        let inner = nest_from(names, from + 1);
        assert(tail.drop_first() =~= string_views(names@).skip(from as int + 1));
        let mut out = names[from].clone();
        out.append("<");
        out.append(inner.as_str());
        out.append(">");
        proof {
            reveal_strlit("<");
            reveal_strlit(">");
            assert(out@ =~= nest(tail));
        }
        out
    }
}

/// The role a parameter plays in a request.
#[derive(Clone, Copy, Debug, PartialEq, Eq, Structural)]
pub enum ArgumentKind {
    /// The request body (`Json<T>`).
    RequestBody,
    /// The query parameters (`Query<T>`).
    Query,
    /// Shared application state (`State<T>`).
    State,
    /// A path parameter (`Path<T>`).
    Path,
}

/// A classified handler parameter, carrying the type expression inside its
/// wrapper.
#[derive(Debug, PartialEq, Eq)]
pub enum HandlerArgument {
    /// `Json<T>`: the request body has type `T`.
    RequestBody(String),
    /// `Query<T>`: `T` lists the query parameters.
    Query(String),
    /// `State<T>`: the handler needs shared state of type `T`.
    State(String),
    /// `Path<T>`: a path parameter of type `T`.
    Path(String),
}

impl View for HandlerArgument {
    type V = (ArgumentKind, Seq<char>);

    open spec fn view(&self) -> (ArgumentKind, Seq<char>) {
        match self {
            HandlerArgument::RequestBody(t) => (ArgumentKind::RequestBody, t@),
            HandlerArgument::Query(t) => (ArgumentKind::Query, t@),
            HandlerArgument::State(t) => (ArgumentKind::State, t@),
            HandlerArgument::Path(t) => (ArgumentKind::Path, t@),
        }
    }
}

impl HandlerArgument {
    /// The role of this parameter.
    pub fn kind(&self) -> (r: ArgumentKind)
        ensures
            r == self@.0,
    {
        match self {
            HandlerArgument::RequestBody(_) => ArgumentKind::RequestBody,
            HandlerArgument::Query(_) => ArgumentKind::Query,
            HandlerArgument::State(_) => ArgumentKind::State,
            HandlerArgument::Path(_) => ArgumentKind::Path,
        }
    }

    /// The type expression inside the wrapper.
    pub fn type_expr(&self) -> (r: &String)
        ensures
            r@ == self@.1,
    {
        match self {
            HandlerArgument::RequestBody(t) => t,
            HandlerArgument::Query(t) => t,
            HandlerArgument::State(t) => t,
            HandlerArgument::Path(t) => t,
        }
    }
}

/// The role that an outer wrapper name marks, if any.
pub open spec fn role_of(name: Seq<char>) -> Option<ArgumentKind> {
    if name == "Json"@ {
        Some(ArgumentKind::RequestBody)
    } else if name == "Query"@ {
        Some(ArgumentKind::Query)
    } else if name == "State"@ {
        Some(ArgumentKind::State)
    } else if name == "Path"@ {
        Some(ArgumentKind::Path)
    } else {
        None
    }
}

/// The type expression a wrapper carries: the type chain without its first
/// name, nested back.
pub open spec fn carried(p: TypePath) -> Seq<char> {
    nest(type_chain(p).drop_first())
}

/// The classification of a named parameter type: `None` where its outer name
/// marks no role.
pub open spec fn classify(p: TypePath) -> Option<(ArgumentKind, Seq<char>)> {
    match role_of(p.name@) {
        Some(k) => Some((k, carried(p))),
        None => None,
    }
}

/// Whether a parameter has a named type.
pub open spec fn is_name_based(param: FnParam) -> bool {
    param matches FnParam::Typed(TypeExpr::Path(_))
}

/// Whether every parameter has a named type.
pub open spec fn all_name_based(params: Seq<FnParam>) -> bool {
    forall|i: int| 0 <= i < params.len() ==> is_name_based(#[trigger] params[i])
}

/// The classified parameters, in declaration order; parameters whose wrapper
/// marks no role are left out.
pub open spec fn handler_arguments(params: Seq<FnParam>) -> Seq<(ArgumentKind, Seq<char>)>
    decreases params.len(),
{
    if params.len() == 0 {
        Seq::empty()
    } else {
        let prev = handler_arguments(params.drop_last());
        match params.last() {
            FnParam::Typed(TypeExpr::Path(p)) => match classify(p) {
                Some(a) => prev.push(a),
                None => prev,
            },
            _ => prev,
        }
    }
}

/// The views of a sequence of classified parameters.
pub open spec fn argument_views(v: Seq<HandlerArgument>) -> Seq<(ArgumentKind, Seq<char>)> {
    v.map_values(|a: HandlerArgument| a@)
}

/// Whether `name` is `lit`.
pub(crate) fn is_named(name: &String, lit: &str) -> (r: bool)
    ensures
        r == (name@ == lit@),
{
    let expected = String::from_str(lit);
    *name == expected
}

/// Classifies one named parameter type.
fn classify_path(p: &TypePath) -> (r: Option<HandlerArgument>)
    ensures
        match r {
            Some(a) => classify(*p) == Some(a@),
            None => classify(*p) is None,
        },
{
    let mut chain: Vec<String> = Vec::new();
    recursive_type(p, &mut chain);
    assert(string_views(chain@) =~= type_chain(*p));
    assert(string_views(chain@).skip(1) =~= type_chain(*p).drop_first());
    let name = &p.name;
    if is_named(name, "Json") {
        Some(HandlerArgument::RequestBody(nest_from(&chain, 1)))
    } else if is_named(name, "Query") {
        Some(HandlerArgument::Query(nest_from(&chain, 1)))
    } else if is_named(name, "State") {
        Some(HandlerArgument::State(nest_from(&chain, 1)))
    } else if is_named(name, "Path") {
        Some(HandlerArgument::Path(nest_from(&chain, 1)))
    } else {
        None
    }
}

/// Classifies every declared parameter of `sig`, in order.  A parameter whose
/// outer wrapper marks no role is left out; a receiver, or a parameter whose
/// type is not a named type, rejects the signature.  A role wrapper written
/// without a type argument carries the empty expression.
pub fn parse_handler_arguments(sig: &HandlerSignature) -> (r: Result<
    Vec<HandlerArgument>,
    EndpointError,
>)
    ensures
        match r {
            Ok(v) => all_name_based(sig.inputs@) && argument_views(v@) == handler_arguments(
                sig.inputs@,
            ),
            Err(e) => !all_name_based(sig.inputs@) && e == EndpointError::UnsupportedParameterType,
        },
{
    let inputs = &sig.inputs;
    let mut out: Vec<HandlerArgument> = Vec::new();
    let mut i: usize = 0;
    while i < inputs.len()
        invariant
            inputs == &sig.inputs,
            i <= inputs@.len(),
            all_name_based(inputs@.take(i as int)),
            argument_views(out@) == handler_arguments(inputs@.take(i as int)),
        decreases inputs@.len() - i,
    {
        let ghost before = out@;
        assert(inputs@.take(i as int + 1).drop_last() =~= inputs@.take(i as int));
        assert(inputs@.take(i as int + 1).last() == inputs@[i as int]);
        match &inputs[i] {
            FnParam::Typed(TypeExpr::Path(p)) => {
                match classify_path(p) {
                    Some(a) => {
                        out.push(a);
                        assert(argument_views(out@) =~= argument_views(before).push(a@));
                    },
                    None => {},
                }
            },
            _ => {
                assert(!is_name_based(inputs@[i as int]));
                return Err(EndpointError::UnsupportedParameterType);
            },
        }
        assert(all_name_based(inputs@.take(i as int + 1))) by {
            assert forall|j: int| 0 <= j < i + 1 implies is_name_based(
                #[trigger] inputs@.take(i as int + 1)[j],
            ) by {
                if j < i {
                    assert(inputs@.take(i as int + 1)[j] == inputs@.take(i as int)[j]);
                }
            }
        }
        i = i + 1;
    }
    assert(inputs@.take(inputs@.len() as int) =~= inputs@);
    Ok(out)
}

/// The documented response type of a declared return type: the type a `Json`
/// wrapper carries, or `None` for any other return type.
pub open spec fn response_of(ret: TypeExpr) -> Option<Seq<char>> {
    match ret {
        TypeExpr::Path(p) => if p.name@ == "Json"@ {
            Some(carried(p))
        } else {
            None
        },
        _ => None,
    }
}

/// Classifies the return type of `sig`: the response type expression where it
/// returns `Json<T>`, `None` for any other declared return type.  A signature
/// without a return type is rejected.
pub fn parse_handler_ret_type(sig: &HandlerSignature) -> (r: Result<Option<String>, EndpointError>)
    ensures
        match sig.output {
            None => r == Err::<Option<String>, EndpointError>(EndpointError::MissingReturnType),
            Some(t) => r is Ok && match r->Ok_0 {
                Some(s) => response_of(t) == Some(s@),
                None => response_of(t) is None,
            },
        },
{
    match &sig.output {
        None => Err(EndpointError::MissingReturnType),
        Some(TypeExpr::Path(p)) => {
            if is_named(&p.name, "Json") {
                let mut chain: Vec<String> = Vec::new();
                recursive_type(p, &mut chain);
                assert(string_views(chain@) =~= type_chain(*p));
                assert(string_views(chain@).skip(1) =~= type_chain(*p).drop_first());
                Ok(Some(nest_from(&chain, 1)))
            } else {
                Ok(None)
            }
        },
        Some(_) => Ok(None),
    }
}

/// Whether `p` is a plain nesting of named types, each level with at most one
/// generic argument, itself a named type (`Vec<Option<Todo>>`).
pub open spec fn is_nesting(p: TypePath) -> bool
    decreases p,
{
    p.args@.len() == 0 || (p.args@.len() == 1 && match p.args@[0] {
        TypeExpr::Path(q) => is_nesting(q),
        _ => false,
    })
}

/// The source text of a plain nesting of named types.
pub open spec fn render(p: TypePath) -> Seq<char>
    decreases p,
{
    if p.args@.len() == 1 {
        match p.args@[0] {
            TypeExpr::Path(q) => p.name@ + seq!['<'] + render(q) + seq!['>'],
            _ => p.name@,
        }
    } else {
        p.name@
    }
}

proof fn lemma_nest_chain(p: TypePath)
    requires
        is_nesting(p),
    ensures
        nest(type_chain(p)) == render(p),
        type_chain(p).len() >= 1,
    decreases p,
{
    let c = type_chain(p);
    if p.args@.len() == 0 {
        assert(args_chain(p.args@) =~= Seq::<Seq<char>>::empty());
        assert(c =~= seq![p.name@]);
    } else {
        let q = match p.args@[0] {
            TypeExpr::Path(q) => q,
            _ => p,
        };
        assert(decreases_to!(p => q)) by {
            assert(decreases_to!(p => p.args));
            assert(decreases_to!(p.args => p.args@));
            assert(decreases_to!(p.args@ => p.args@[0]));
        };
        lemma_nest_chain(q);
        assert(p.args@.drop_last() =~= Seq::<TypeExpr>::empty());
        assert(args_chain(p.args@.drop_last()) == Seq::<Seq<char>>::empty());
        assert(p.args@.last() == p.args@[0]);
        assert(args_chain(p.args@) =~= Seq::<Seq<char>>::empty() + type_chain(q));
        assert(c.drop_first() =~= type_chain(q));
    }
}

/// Classifying a role wrapper around a plain nesting of named types gives back
/// the nesting's own source text as the carried type expression.
pub proof fn lemma_classify_round_trip(wrapper: TypePath, inner: TypePath)
    requires
        role_of(wrapper.name@) is Some,
        wrapper.args@ == seq![TypeExpr::Path(inner)],
        is_nesting(inner),
    ensures
        classify(wrapper) == Some((role_of(wrapper.name@)->0, render(inner))),
{
    lemma_nest_chain(inner);
    assert(wrapper.args@.drop_last() =~= Seq::<TypeExpr>::empty());
    assert(args_chain(wrapper.args@.drop_last()) == Seq::<Seq<char>>::empty());
    assert(wrapper.args@.last() == TypeExpr::Path(inner));
    assert(args_chain(wrapper.args@) =~= Seq::<Seq<char>>::empty() + type_chain(inner));
    assert(type_chain(wrapper).drop_first() =~= type_chain(inner));
}

} // verus!
