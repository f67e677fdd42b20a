use handler_gen::classifier::parse_attributes;
use handler_gen::emitter::gen_handler;
use handler_gen::mapper::map_arguments;
use handler_gen::model::{
    AnnotatedMethod, Annotation, ArgumentBinding, DirectiveArg, HandlerError, HandlerType,
    ImplBlock, Item, Param, PathSegment, Pattern, TypeShape,
};
use handler_gen::processor::{build_handler, impl_handler};
use handler_gen::scope::scope_ident;
use handler_gen::text::same_text;

fn path(name: &str) -> TypeShape {
    TypeShape::Path {
        global: false,
        segments: vec![PathSegment { ident: name.to_string(), has_args: false }],
    }
}

fn param(name: &str, ty: TypeShape) -> Param {
    Param::Captured { pat: Pattern::Ident(name.to_string()), ty }
}

fn directive(name: &str, args: &[&str]) -> Annotation {
    Annotation::List {
        name: name.to_string(),
        args: args.iter().map(|a| DirectiveArg::Ident(a.to_string())).collect(),
    }
}

fn method(name: &str, params: Vec<Param>, annotations: Vec<Annotation>) -> AnnotatedMethod {
    AnnotatedMethod { name: name.to_string(), params, annotations }
}

fn block(ty: &str, methods: Vec<AnnotatedMethod>) -> ImplBlock {
    ImplBlock { self_ty: ty.to_string(), self_shape: path(ty), methods }
}

fn plain_impl(b: ImplBlock) -> Item {
    Item::Impl { trait_impl: false, block: b }
}

#[test]
fn simple_handler_calls_through() {
    let m = method(
        "start",
        vec![Param::Receiver, param("ctx", TypeShape::Other), param("msg", path("Ping"))],
        vec![directive("simple", &["Ping"])],
    );
    let mut item = plain_impl(block("Server", vec![m]));
    let out = build_handler(&mut item, None, 0).unwrap();
    let expected_impl = "impl actix::Handler<Ping> for Server {\n    fn handle(&mut self, msg: Ping, ctx: &mut Self::Context) -> actix::Response<Self, Ping> {\n        Self::reply(self.start(ctx, msg))\n    }\n}\n";
    assert!(out.contains(expected_impl));
    assert!(!out.contains("reply_error"));
    match item {
        Item::Impl { block, .. } => assert!(block.methods[0].annotations.is_empty()),
        Item::Other => panic!("item changed kind"),
    }
}

#[test]
fn outcome_handler_projects_field_and_reports_failure() {
    let m = method(
        "recv",
        vec![Param::Receiver, param("addr", path("String"))],
        vec![directive("handler", &["Envelope"])],
    );
    let mut item = plain_impl(block("Server", vec![m]));
    let out = build_handler(&mut item, None, 0).unwrap();
    assert!(out.contains("impl actix::Handler<Envelope> for Server {"));
    assert!(out.contains("        match self.recv(msg.addr) {\n"));
    assert!(out.contains("            Ok(item) => Self::reply(item),\n"));
    assert!(out.contains("            Err(err) => Self::reply_error(err),\n"));
}

#[test]
fn stream_directive_emits_marker_and_handler() {
    let bindings = vec![ArgumentBinding::Message];
    let impls = gen_handler(
        &"Reader".to_string(),
        &"chunk".to_string(),
        &HandlerType::Stream("Chunk".to_string(), "IoError".to_string()),
        &bindings,
    );
    assert_eq!(impls.len(), 2);
    assert_eq!(impls[0], "impl actix::StreamHandler<Chunk, IoError> for Reader {}\n");
    assert!(impls[1].starts_with("impl actix::Handler<Chunk, IoError> for Reader {\n"));
    assert!(impls[1].contains("match self.chunk(msg) {"));
}

#[test]
fn stream_handler_half_matches_outcome_handler() {
    let bindings = vec![ArgumentBinding::Context, ArgumentBinding::Message];
    let cls = "Reader".to_string();
    let name = "chunk".to_string();
    let outcome = gen_handler(&cls, &name, &HandlerType::Handler("Chunk".to_string()), &bindings);
    let stream = gen_handler(
        &cls,
        &name,
        &HandlerType::Stream("Chunk".to_string(), "IoError".to_string()),
        &bindings,
    );
    assert_eq!(outcome.len(), 1);
    assert_eq!(stream[1], outcome[0].replacen("Handler<Chunk>", "Handler<Chunk, IoError>", 1));
}

#[test]
fn destructuring_parameter_is_refused() {
    let m = method(
        "start",
        vec![Param::Receiver, Param::Captured { pat: Pattern::Other, ty: path("Ping") }],
        vec![directive("simple", &["Ping"])],
    );
    let mut item = plain_impl(block("Server", vec![m]));
    assert_eq!(build_handler(&mut item, None, 0), Err(HandlerError::UnsupportedParameterPattern));
}

#[test]
fn trait_impl_is_refused() {
    let m = method(
        "start",
        vec![Param::Receiver, Param::Ignored],
        vec![directive("simple", &["Ping", "Pong"])],
    );
    let mut item = Item::Impl { trait_impl: true, block: block("Server", vec![m]) };
    let before = item.clone();
    assert_eq!(build_handler(&mut item, None, 0), Err(HandlerError::InvalidTarget));
    assert_eq!(item, before);
    assert_eq!(build_handler(&mut Item::Other, None, 0), Err(HandlerError::InvalidTarget));
}

#[test]
fn plain_methods_are_not_reproduced() {
    let methods = vec![
        method("helper", vec![Param::Receiver], vec![Annotation::Other("inline".to_string())]),
        method("start", vec![Param::Receiver, param("msg", path("Ping"))], vec![directive("simple", &["Ping"])]),
        method("other", vec![Param::Receiver], vec![]),
        method(
            "read",
            vec![Param::Receiver, param("data", path("Vec"))],
            vec![directive("stream", &["Chunk", "IoError"])],
        ),
    ];
    let mut b = block("Server", methods);
    let out = impl_handler(&mut b, None, 0).unwrap();
    assert_eq!(out.matches("impl actix::Handler<").count(), 2);
    assert_eq!(out.matches("impl actix::StreamHandler<").count(), 1);
    assert!(!out.contains("helper"));
    assert!(!out.contains("self.other"));
    assert_eq!(b.methods[0].annotations, vec![Annotation::Other("inline".to_string())]);
    assert!(b.methods[1].annotations.is_empty());
    assert!(b.methods[3].annotations.is_empty());
    assert!(out.find("self.start(msg)").unwrap() < out.find("self.read(msg.data)").unwrap());
}

#[test]
fn lifecycle_impl_comes_first() {
    let m = method("start", vec![Param::Receiver, param("msg", path("Ping"))], vec![directive("simple", &["Ping"])]);
    let mut b = block("Server", vec![m]);
    let out = impl_handler(&mut b, Some("Context<Self>".to_string()), 0).unwrap();
    let life = out.find("impl Actor for Server {\n    type Context = Context<Self>;\n}\n").unwrap();
    assert!(life < out.find("impl actix::Handler<Ping>").unwrap());
    assert!(out.starts_with("#[allow(non_upper_case_globals"));
    assert!(out.ends_with("};\n"));
}

#[test]
fn no_lifecycle_without_context() {
    let mut b = block("Server", vec![]);
    let out = impl_handler(&mut b, None, 0).unwrap();
    assert!(!out.contains("impl Actor"));
    assert!(out.contains("const _impl_handlers_0_1836253938_Server: () = {\nextern crate actix;\nuse actix::{Actor, Context, FramedContext};\n"));
}

#[test]
fn output_is_deterministic() {
    let make = || {
        block(
            "Server",
            vec![method("start", vec![Param::Receiver, param("msg", path("Ping"))], vec![directive("simple", &["Ping"])])],
        )
    };
    let mut a = make();
    let mut b = make();
    assert_eq!(impl_handler(&mut a, None, 0), impl_handler(&mut b, None, 0));
}

#[test]
fn scope_ident_is_hash_of_type_and_handlers() {
    let names = vec!["start".to_string()];
    assert_eq!(scope_ident(&"Server".to_string(), &path("Server"), &names, 7), "_impl_handlers_7_1953455177_Server");
    let other = scope_ident(&"Server".to_string(), &path("Server"), &vec!["stop".to_string()], 7);
    assert_ne!(other, "_impl_handlers_7_1953455177_Server");
    assert_eq!(
        scope_ident(&"(A, B)".to_string(), &TypeShape::Other, &vec![], 3),
        scope_ident(&"(A, B)".to_string(), &TypeShape::Other, &vec![], 3)
    );
    assert!(scope_ident(&"(A, B)".to_string(), &TypeShape::Other, &vec![], 3).ends_with("_handlers"));
}

#[test]
fn mapper_skips_receiver_and_keeps_order() {
    let params = vec![
        Param::Receiver,
        param("addr", path("String")),
        param("msg", path("Ping")),
        param("ctx", path("Ping")),
    ];
    let r = map_arguments(&params, &"Ping".to_string(), &"go".to_string()).unwrap();
    assert_eq!(
        r,
        vec![ArgumentBinding::Field("addr".to_string()), ArgumentBinding::Message, ArgumentBinding::Context]
    );
    assert_eq!(r.len(), params.len() - 1);
}

#[test]
fn mapper_ctx_in_any_position() {
    let params = vec![param("ctx", TypeShape::Other), Param::Receiver, param("a", path("X"))];
    let r = map_arguments(&params, &"Ping".to_string(), &"go".to_string()).unwrap();
    assert_eq!(r, vec![ArgumentBinding::Context, ArgumentBinding::Field("a".to_string())]);
}

#[test]
fn mapper_message_type_must_be_bare_path() {
    let qualified = TypeShape::Path {
        global: false,
        segments: vec![
            PathSegment { ident: "msgs".to_string(), has_args: false },
            PathSegment { ident: "Ping".to_string(), has_args: false },
        ],
    };
    let generic = TypeShape::Path {
        global: false,
        segments: vec![PathSegment { ident: "Ping".to_string(), has_args: true }],
    };
    let global = TypeShape::Path {
        global: true,
        segments: vec![PathSegment { ident: "Ping".to_string(), has_args: false }],
    };
    let params = vec![param("a", qualified), param("b", generic), param("c", global), param("d", path("Ping"))];
    let r = map_arguments(&params, &"Ping".to_string(), &"go".to_string()).unwrap();
    assert_eq!(
        r,
        vec![
            ArgumentBinding::Field("a".to_string()),
            ArgumentBinding::Field("b".to_string()),
            ArgumentBinding::Field("c".to_string()),
            ArgumentBinding::Message,
        ]
    );
}

#[test]
fn mapper_is_deterministic() {
    let params = vec![Param::Receiver, param("x", path("Ping")), param("y", path("u8"))];
    let a = map_arguments(&params, &"Ping".to_string(), &"go".to_string());
    let b = map_arguments(&params, &"Ping".to_string(), &"go".to_string());
    assert_eq!(a, b);
}

#[test]
fn ignored_parameter_names_method() {
    let params = vec![Param::Receiver, Param::Ignored, Param::Captured { pat: Pattern::Other, ty: TypeShape::Other }];
    assert_eq!(
        map_arguments(&params, &"Ping".to_string(), &"recv".to_string()),
        Err(HandlerError::IgnoredParameter("recv".to_string()))
    );
}

#[test]
fn empty_parameter_list() {
    assert_eq!(map_arguments(&vec![], &"Ping".to_string(), &"go".to_string()), Ok(vec![]));
}

#[test]
fn classifier_keeps_unrelated_annotations_in_order() {
    let attrs = vec![
        Annotation::Other("inline".to_string()),
        directive("handler", &["Ping"]),
        Annotation::List { name: "allow".to_string(), args: vec![DirectiveArg::Ident("dead_code".to_string())] },
        Annotation::Other("stream".to_string()),
    ];
    let (d, rest) = parse_attributes(attrs).unwrap();
    assert_eq!(d, Some(HandlerType::Handler("Ping".to_string())));
    assert_eq!(
        rest,
        vec![
            Annotation::Other("inline".to_string()),
            Annotation::List { name: "allow".to_string(), args: vec![DirectiveArg::Ident("dead_code".to_string())] },
            Annotation::Other("stream".to_string()),
        ]
    );
}

#[test]
fn classifier_without_directive() {
    assert_eq!(parse_attributes(vec![]), Ok((None, vec![])));
}

#[test]
fn classifier_strips_literal_quotes() {
    let attrs = vec![Annotation::List {
        name: "simple".to_string(),
        args: vec![DirectiveArg::Literal("\"Ping\"".to_string())],
    }];
    assert_eq!(parse_attributes(attrs), Ok((Some(HandlerType::Simple("Ping".to_string())), vec![])));
    let attrs = vec![Annotation::List {
        name: "stream".to_string(),
        args: vec![DirectiveArg::Ident("Chunk".to_string()), DirectiveArg::Literal("\"IoError\"".to_string())],
    }];
    assert_eq!(
        parse_attributes(attrs),
        Ok((Some(HandlerType::Stream("Chunk".to_string(), "IoError".to_string())), vec![]))
    );
}

#[test]
fn classifier_keeps_last_directive() {
    let attrs = vec![directive("simple", &["A"]), directive("handler", &["B"])];
    assert_eq!(parse_attributes(attrs), Ok((Some(HandlerType::Handler("B".to_string())), vec![])));
}

#[test]
fn classifier_rejects_wrong_argument_counts() {
    let err = |n: &str| Err(HandlerError::DirectiveSyntax(n.to_string()));
    assert_eq!(parse_attributes(vec![directive("simple", &["A", "B"])]), err("simple"));
    assert_eq!(parse_attributes(vec![directive("handler", &[])]), err("handler"));
    assert_eq!(parse_attributes(vec![directive("stream", &["A"])]), err("stream"));
    assert_eq!(parse_attributes(vec![directive("stream", &["A", "B", "C"])]), err("stream"));
}

#[test]
fn classifier_rejects_unsupported_arguments() {
    let attrs = vec![Annotation::List { name: "simple".to_string(), args: vec![DirectiveArg::Unsupported] }];
    assert_eq!(parse_attributes(attrs), Err(HandlerError::DirectiveSyntax("simple".to_string())));
    let attrs = vec![Annotation::List {
        name: "handler".to_string(),
        args: vec![DirectiveArg::Literal("1".to_string())],
    }];
    assert_eq!(parse_attributes(attrs), Err(HandlerError::DirectiveSyntax("handler".to_string())));
}

#[test]
fn directive_error_fails_whole_block() {
    let methods = vec![
        method("start", vec![Param::Receiver], vec![directive("simple", &["Ping"])]),
        method("stop", vec![Param::Receiver], vec![directive("stream", &["Stop"])]),
    ];
    let mut item = plain_impl(block("Server", methods));
    assert_eq!(build_handler(&mut item, None, 0), Err(HandlerError::DirectiveSyntax("stream".to_string())));
}

#[test]
fn text_comparison() {
    assert!(same_text("ctx", "ctx"));
    assert!(!same_text("ctx", "ctxs"));
    assert!(!same_text("ctx", "cty"));
    assert!(same_text("", ""));
}

#[test]
fn invocation_numbers_keep_scopes_apart() {
    let a = scope_ident(&"Server".to_string(), &path("Server"), &vec![], 1);
    let b = scope_ident(&"Server".to_string(), &path("Server"), &vec![], 12);
    assert_eq!(a, "_impl_handlers_1_1836253938_Server");
    assert_eq!(b, "_impl_handlers_12_1836253938_Server");
    let mut first = block("Server", vec![]);
    let mut second = block("Server", vec![]);
    assert_ne!(impl_handler(&mut first, None, 1), impl_handler(&mut second, None, 2));
}

#[test]
fn scope_opens_with_crate_and_imports() {
    let mut b = block("Server", vec![]);
    let out = impl_handler(&mut b, None, 5).unwrap();
    assert_eq!(
        out,
        "#[allow(non_upper_case_globals, unused_attributes, unused_qualifications, unused_variables, unused_imports)]\nconst _impl_handlers_5_1836253938_Server: () = {\nextern crate actix;\nuse actix::{Actor, Context, FramedContext};\n};\n"
    );
}

#[test]
fn classifier_rejects_unquoted_or_empty_literals() {
    for text in ["42", "true", "\"\"", "'a'", "\"Ping"] {
        let attrs = vec![Annotation::List {
            name: "simple".to_string(),
            args: vec![DirectiveArg::Literal(text.to_string())],
        }];
        assert_eq!(parse_attributes(attrs), Err(HandlerError::DirectiveSyntax("simple".to_string())));
    }
}

#[test]
fn tuple_pattern_fails_whole_block() {
    let methods = vec![
        method("start", vec![Param::Receiver, param("msg", path("Ping"))], vec![directive("simple", &["Ping"])]),
        method(
            "pair",
            vec![Param::Receiver, Param::Captured { pat: Pattern::Other, ty: TypeShape::Other }],
            vec![directive("handler", &["Pair"])],
        ),
    ];
    let mut item = plain_impl(block("Server", methods));
    assert_eq!(build_handler(&mut item, None, 0), Err(HandlerError::UnsupportedParameterPattern));
}
