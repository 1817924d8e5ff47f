use std::cell::Cell;

use axum_openapi3::endpoint::endpoint;
use axum_openapi3::error::EndpointError;
use axum_openapi3::handler_signature::{
    FnParam, HandlerArgument, HandlerSignature, TypeExpr, TypePath,
};
use axum_openapi3::macro_arguments::MacroArgs;
use axum_openapi3::method::HttpMethod;
use axum_openapi3::operation::{build_operation, Operation, PathParam};
use axum_openapi3::registry::{
    build_openapi, reset_openapi, OpenApiContext, PathItem, RegistryEntry,
};

fn named(name: &str, args: Vec<TypeExpr>) -> TypeExpr {
    TypeExpr::Path(TypePath {
        name: name.to_string(),
        args,
    })
}

fn leaf(name: &str) -> TypeExpr {
    named(name, vec![])
}

fn wrap(wrapper: &str, inner: &str) -> FnParam {
    FnParam::Typed(named(wrapper, vec![leaf(inner)]))
}

fn op(id: &str) -> Operation {
    build_operation(id.to_string(), String::new(), &vec![], &vec![], None)
}

fn entry(path: &str, method: HttpMethod, id: &str) -> RegistryEntry {
    RegistryEntry {
        path: path.to_string(),
        method,
        operation: op(id),
    }
}

fn args(method: HttpMethod, path: &str, description: &str) -> MacroArgs {
    MacroArgs {
        method,
        path: path.to_string(),
        description: Some(description.to_string()),
        public: false,
    }
}

fn sig(name: &str, inputs: Vec<FnParam>, output: Option<TypeExpr>) -> HandlerSignature {
    HandlerSignature {
        name: name.to_string(),
        inputs,
        output,
    }
}

fn strings(v: &[&str]) -> Vec<String> {
    v.iter().map(|s| s.to_string()).collect()
}

#[test]
fn operation_takes_first_body_and_query() {
    let a = vec![
        HandlerArgument::Query("Q1".to_string()),
        HandlerArgument::RequestBody("B1".to_string()),
        HandlerArgument::Path("u64".to_string()),
        HandlerArgument::RequestBody("B2".to_string()),
        HandlerArgument::Query("Q2".to_string()),
        HandlerArgument::State("AppState".to_string()),
        HandlerArgument::Path("String".to_string()),
    ];
    let o = build_operation(
        "get_it".to_string(),
        "Gets it".to_string(),
        &strings(&["id", "name"]),
        &a,
        Some("Todo".to_string()),
    );
    assert_eq!(
        o,
        Operation {
            operation_id: "get_it".to_string(),
            description: "Gets it".to_string(),
            response: Some("Todo".to_string()),
            request_body: Some("B1".to_string()),
            query_params: Some("Q1".to_string()),
            path_params: vec![
                PathParam {
                    name: "id".to_string(),
                    schema: "u64".to_string()
                },
                PathParam {
                    name: "name".to_string(),
                    schema: "String".to_string()
                },
            ],
            state: Some("AppState".to_string()),
        }
    );
}

#[test]
fn path_params_empty_when_none_declared() {
    let o = build_operation(
        "f".to_string(),
        String::new(),
        &vec![],
        &vec![HandlerArgument::RequestBody("T".to_string())],
        None,
    );
    assert!(o.path_params.is_empty());
    assert_eq!(o.response, None);
    assert_eq!(o.state, None);
}

#[test]
fn path_params_truncate_to_shorter() {
    let o = build_operation(
        "f".to_string(),
        String::new(),
        &strings(&["a", "b"]),
        &vec![HandlerArgument::Path("u64".to_string())],
        None,
    );
    assert_eq!(
        o.path_params,
        vec![PathParam {
            name: "a".to_string(),
            schema: "u64".to_string()
        }]
    );
    let o = build_operation(
        "f".to_string(),
        String::new(),
        &strings(&["a"]),
        &vec![
            HandlerArgument::Path("u64".to_string()),
            HandlerArgument::Path("String".to_string()),
        ],
        None,
    );
    assert_eq!(o.path_params.len(), 1);
    assert_eq!(o.path_params[0].schema, "u64");
}

#[test]
fn same_path_methods_merge() {
    let mut ctx: OpenApiContext<String> = OpenApiContext::new();
    ctx.register(entry("/x", HttpMethod::Get, "get_x"));
    ctx.register(entry("/y", HttpMethod::Get, "get_y"));
    ctx.register(entry("/x", HttpMethod::Post, "post_x"));
    let doc = build_openapi(&mut ctx, || "api".to_string());
    assert_eq!(doc.info, "api");
    assert_eq!(doc.paths.len(), 2);
    assert_eq!(doc.paths[0].path, "/x");
    assert_eq!(doc.paths[1].path, "/y");
    let x = doc.path_item("/x").unwrap();
    assert_eq!(
        x.operation(HttpMethod::Get).unwrap().operation_id,
        "get_x"
    );
    assert_eq!(
        x.operation(HttpMethod::Post).unwrap().operation_id,
        "post_x"
    );
    assert!(x.operation(HttpMethod::Put).is_none());
    assert!(doc.path_item("/z").is_none());
}

#[test]
fn later_registration_wins_its_slot() {
    let mut ctx: OpenApiContext<()> = OpenApiContext::new();
    ctx.register(entry("/x", HttpMethod::Get, "first"));
    ctx.register(entry("/x", HttpMethod::Get, "second"));
    let doc = build_openapi(&mut ctx, || ());
    assert_eq!(doc.paths.len(), 1);
    assert_eq!(doc.paths[0].get.as_ref().unwrap().operation_id, "second");
}

#[test]
fn path_item_slots() {
    let mut item = PathItem::new("/p".to_string(), HttpMethod::Connect, op("c"));
    item.set(HttpMethod::Head, op("h"));
    item.set(HttpMethod::Connect, op("c2"));
    assert_eq!(item.connect.as_ref().unwrap().operation_id, "c2");
    assert_eq!(item.head.as_ref().unwrap().operation_id, "h");
    assert!(item.get.is_none());
}

#[test]
fn reset_then_build_sees_only_later_registrations() {
    let mut ctx: OpenApiContext<u32> = OpenApiContext::new();
    ctx.register(entry("/old", HttpMethod::Get, "old"));
    let first = build_openapi(&mut ctx, || 1);
    assert_eq!(first.paths.len(), 1);
    ctx.register(entry("/pending", HttpMethod::Get, "pending"));
    reset_openapi(&mut ctx);
    assert!(ctx.pending().is_empty());
    assert!(ctx.built().is_none());
    ctx.register(entry("/new", HttpMethod::Delete, "new"));
    let doc = build_openapi(&mut ctx, || 2);
    assert_eq!(doc.info, 2);
    assert_eq!(doc.paths.len(), 1);
    assert_eq!(doc.paths[0].path, "/new");
    assert_eq!(doc.paths[0].delete.as_ref().unwrap().operation_id, "new");
}

#[test]
fn reset_on_empty_context() {
    let mut ctx: OpenApiContext<u32> = OpenApiContext::new();
    reset_openapi(&mut ctx);
    reset_openapi(&mut ctx);
    let doc = build_openapi(&mut ctx, || 7);
    assert!(doc.paths.is_empty());
}

#[test]
fn second_build_returns_cached_document() {
    let calls = Cell::new(0u32);
    let mut ctx: OpenApiContext<u32> = OpenApiContext::new();
    ctx.register(entry("/a", HttpMethod::Get, "a"));
    let init = || {
        calls.set(calls.get() + 1);
        calls.get()
    };
    let first = build_openapi(&mut ctx, init);
    let first_paths = first.paths.len();
    let first_info = first.info;
    assert!(ctx.pending().is_empty());
    ctx.register(entry("/b", HttpMethod::Get, "b"));
    let second = build_openapi(&mut ctx, init);
    assert_eq!(second.info, first_info);
    assert_eq!(second.paths.len(), first_paths);
    assert!(second.path_item("/b").is_none());
    assert_eq!(calls.get(), 1);
    assert_eq!(ctx.pending().len(), 1);
}

#[test]
fn two_builds_are_value_equal() {
    let mut ctx: OpenApiContext<String> = OpenApiContext::new();
    ctx.register(entry("/a", HttpMethod::Get, "a"));
    let first = build_openapi(&mut ctx, || "doc".to_string());
    let snapshot = format!("{:?}", first);
    ctx.register(entry("/a", HttpMethod::Get, "replaced"));
    let second = build_openapi(&mut ctx, || "other".to_string());
    assert_eq!(format!("{:?}", second), snapshot);
}

#[test]
fn endpoint_registers_canonical_path() {
    let mut ctx: OpenApiContext<()> = OpenApiContext::new();
    let route = endpoint(
        &mut ctx,
        &args(HttpMethod::Get, "/todos/:id/items/:item", "Get item"),
        &sig(
            "get_item",
            vec![wrap("Path", "u64"), wrap("State", "Db")],
            Some(named("Json", vec![leaf("Item")])),
        ),
        42u8,
    )
    .unwrap();
    assert_eq!(route.path, "/todos/{id}/items/{item}");
    assert_eq!(route.method, HttpMethod::Get);
    assert_eq!(route.handler, 42);
    let pending = ctx.pending();
    assert_eq!(pending.len(), 1);
    let o = &pending[0].operation;
    assert_eq!(pending[0].path, "/todos/{id}/items/{item}");
    assert_eq!(o.operation_id, "get_item");
    assert_eq!(o.description, "Get item");
    assert_eq!(o.response, Some("Item".to_string()));
    assert_eq!(o.state, Some("Db".to_string()));
    assert_eq!(
        o.path_params,
        vec![PathParam {
            name: "id".to_string(),
            schema: "u64".to_string()
        }]
    );
}

#[test]
fn endpoint_rejections_register_nothing() {
    let mut ctx: OpenApiContext<()> = OpenApiContext::new();
    let r = endpoint(
        &mut ctx,
        &args(HttpMethod::Get, "/a", ""),
        &sig("a", vec![FnParam::Receiver], Some(leaf("String"))),
        (),
    );
    assert!(matches!(r, Err(EndpointError::UnsupportedParameterType)));
    let r = endpoint(
        &mut ctx,
        &args(HttpMethod::Get, "/a", ""),
        &sig("a", vec![wrap("Json", "T")], None),
        (),
    );
    assert!(matches!(r, Err(EndpointError::MissingReturnType)));
    let r = endpoint(
        &mut ctx,
        &args(HttpMethod::Get, "/a", ""),
        &sig("a", vec![FnParam::Typed(TypeExpr::Other)], None),
        (),
    );
    assert!(matches!(r, Err(EndpointError::UnsupportedParameterType)));
    assert!(ctx.pending().is_empty());
}

#[test]
fn endpoint_without_description() {
    let mut ctx: OpenApiContext<()> = OpenApiContext::new();
    let mut a = args(HttpMethod::Put, "/a", "");
    a.description = None;
    endpoint(&mut ctx, &a, &sig("a", vec![], Some(TypeExpr::Other)), ()).unwrap();
    assert_eq!(ctx.pending()[0].operation.description, "");
    assert_eq!(ctx.pending()[0].operation.response, None);
}

#[test]
fn test_all() {
    let mut ctx: OpenApiContext<()> = OpenApiContext::new();
    reset_openapi(&mut ctx);
    let json = |inner: TypeExpr| Some(named("Json", vec![inner]));
    let handlers: Vec<(HttpMethod, &str, &str, &str, HandlerSignature)> = vec![
        (HttpMethod::Get, "/", "Welcome", "static_str", sig("static_str", vec![], json(TypeExpr::Reference(Box::new(leaf("str")))))),
        (HttpMethod::Get, "/strings", "List all string", "get_list_string", sig("get_list_string", vec![], json(named("Vec", vec![leaf("String")])))),
        (HttpMethod::Post, "/strings", "Insert new string", "add_string", sig("add_string", vec![wrap("Json", "String")], json(leaf("String")))),
        (HttpMethod::Get, "/todos", "List all todos", "get_todos", sig("get_todos", vec![], json(named("Vec", vec![leaf("Todo")])))),
        (HttpMethod::Post, "/todos", "Insert a new todo", "insert_todo", sig("insert_todo", vec![wrap("Json", "Todo")], json(leaf("Todo")))),
        (HttpMethod::Patch, "/todos", "Mark a todo as completed", "mark_todo_as_complete", sig("mark_todo_as_complete", vec![wrap("Json", "u64")], json(leaf("Todo")))),
        (HttpMethod::Get, "/todos/filter", "Filter todos by completed status", "filter", sig("filter", vec![wrap("Query", "TodoFilter")], json(named("Vec", vec![leaf("Todo")])))),
        (HttpMethod::Get, "/todos/{id}", "Get todo by id", "get_todo", sig("get_todo", vec![wrap("Path", "u64")], json(leaf("Todo")))),
        (HttpMethod::Patch, "/todos/{id}/complete", "Mark a todo as ...", "mark_todo_as", sig("mark_todo_as", vec![wrap("Path", "u64"), wrap("Json", "bool")], json(leaf("Todo")))),
        (HttpMethod::Get, "/generic", "Generic endpoint", "generic", sig("generic", vec![], Some(TypeExpr::Other))),
    ];
    for (method, path, description, _, s) in &handlers {
        endpoint(&mut ctx, &args(*method, path, description), s, ()).unwrap();
    }
    let doc = build_openapi(&mut ctx, || ());

    let check = |path: &str,
                 method: HttpMethod,
                 id: &str,
                 description: &str,
                 response: Option<&str>,
                 body: Option<&str>,
                 query: Option<&str>,
                 path_params: Vec<(&str, &str)>| {
        let o = doc.path_item(path).unwrap().operation(method).unwrap();
        assert_eq!(o.operation_id, id);
        assert_eq!(o.description, description);
        assert_eq!(o.response.as_deref(), response);
        assert_eq!(o.request_body.as_deref(), body);
        assert_eq!(o.query_params.as_deref(), query);
        let got: Vec<(&str, &str)> = o
            .path_params
            .iter()
            .map(|p| (p.name.as_str(), p.schema.as_str()))
            .collect();
        assert_eq!(got, path_params);
    };
    check("/", HttpMethod::Get, "static_str", "Welcome", Some("str"), None, None, vec![]);
    check("/strings", HttpMethod::Get, "get_list_string", "List all string", Some("Vec<String>"), None, None, vec![]);
    check("/strings", HttpMethod::Post, "add_string", "Insert new string", Some("String"), Some("String"), None, vec![]);
    check("/todos", HttpMethod::Get, "get_todos", "List all todos", Some("Vec<Todo>"), None, None, vec![]);
    check("/todos", HttpMethod::Post, "insert_todo", "Insert a new todo", Some("Todo"), Some("Todo"), None, vec![]);
    check("/todos", HttpMethod::Patch, "mark_todo_as_complete", "Mark a todo as completed", Some("Todo"), Some("u64"), None, vec![]);
    check("/todos/filter", HttpMethod::Get, "filter", "Filter todos by completed status", Some("Vec<Todo>"), None, Some("TodoFilter"), vec![]);
    check("/todos/{id}", HttpMethod::Get, "get_todo", "Get todo by id", Some("Todo"), None, None, vec![("id", "u64")]);
    check("/generic", HttpMethod::Get, "generic", "Generic endpoint", None, None, None, vec![]);
    assert_eq!(doc.paths.len(), 7);
}
