use rpc_toolkit::attrs::arg::parse_arg_attr;
use rpc_toolkit::attrs::command::{parse_command_attr, parse_command_attr_with, resolve_subcommand_paths};
use rpc_toolkit::attrs::options::{ExecutionContext, Options, ParamType};
use rpc_toolkit::attrs::param::parse_param_attrs;
use rpc_toolkit::ts::SerdeTag;
use rpc_toolkit::attrs::syntax::{
    Attribute, FnArg, Ident, ItemFn, Lit, LitStr, Meta, MetaList, MetaNameValue, NestedMeta, Pat, PatType, Path,
    PathSegment, Span, Type,
};

fn path(name: &str, at: u64) -> Path {
    Path {
        leading_colon: false,
        segments: vec![PathSegment {
            ident: Ident { name: name.to_string(), span: Span::At(at) },
            arguments: None,
        }],
        span: Span::At(at),
    }
}

fn word(name: &str, at: u64) -> NestedMeta {
    NestedMeta::Meta(Meta::Path(path(name, at)))
}

fn list(name: &str, at: u64, nested: Vec<NestedMeta>) -> NestedMeta {
    NestedMeta::Meta(Meta::List(MetaList {
        path: path(name, at),
        nested,
        span: Span::At(at + 1000),
        nested_span: Span::At(at + 2000),
    }))
}

fn lit_str(value: &str, at: u64) -> LitStr {
    LitStr { value: value.to_string(), span: Span::At(at) }
}

fn assign(name: &str, at: u64, value: &str) -> NestedMeta {
    NestedMeta::Meta(Meta::NameValue(MetaNameValue {
        path: path(name, at),
        lit: Lit::Str(lit_str(value, at + 1)),
        span: Span::At(at + 3000),
    }))
}

fn assign_int(name: &str, at: u64, text: &str) -> NestedMeta {
    NestedMeta::Meta(Meta::NameValue(MetaNameValue {
        path: path(name, at),
        lit: Lit::Other { text: text.to_string(), span: Span::At(at + 1) },
        span: Span::At(at + 3000),
    }))
}

fn error_of(r: Result<Options, rpc_toolkit::attrs::syntax::AttrError>) -> (Span, String) {
    match r {
        Err(e) => (e.span, e.message),
        Ok(_) => panic!("accepted"),
    }
}

#[test]
fn a_leaf_command_with_its_options() {
    let args = vec![
        word("blocking", 1),
        assign("about", 2, "Says hello"),
        assign("rename", 3, "hi"),
        list("display", 4, vec![word("show", 5)]),
        word("cli_only", 6),
        list("metadata", 7, vec![assign_int("auth", 8, "true")]),
        assign("alias", 9, "h"),
    ];
    let opts = parse_command_attr(args).ok().unwrap();
    let leaf = match opts {
        Options::Leaf(l) => l,
        Options::Parent(_) => panic!("not a leaf"),
    };
    assert!(leaf.blocking.is_some());
    assert_eq!(leaf.about.unwrap().value, "Says hello");
    assert_eq!(leaf.rename.unwrap().value, "hi");
    assert_eq!(leaf.display.unwrap().segments[0].ident.name, "show");
    assert!(matches!(leaf.exec_ctx, ExecutionContext::CliOnly(_)));
    assert_eq!(leaf.metadata.len(), 1);
    assert_eq!(leaf.metadata[0].0.name, "auth");
    assert_eq!(leaf.aliases.len(), 1);
    assert_eq!(leaf.aliases[0].value, "h");
}

#[test]
fn a_parent_command_with_subcommands() {
    let args = vec![list(
        "subcommands",
        1,
        vec![
            word("first", 2),
            NestedMeta::Lit(Lit::Str(lit_str("second::inner", 3))),
            list("self", 4, vec![list("run", 5, vec![word("blocking", 6)])]),
        ],
    )];
    let opts = parse_command_attr(args).ok().unwrap();
    let parent = match opts {
        Options::Parent(p) => p,
        Options::Leaf(_) => panic!("not a parent"),
    };
    assert_eq!(parent.subcommands.len(), 2);
    assert_eq!(parent.subcommands[0].segments[0].ident.name, "first");
    let second: Vec<_> = parent.subcommands[1].segments.iter().map(|s| s.ident.name.clone()).collect();
    assert_eq!(second, vec!["second".to_string(), "inner".to_string()]);
    assert_eq!(parent.subcommands[1].span, Span::CallSite);
    let imp = parent.self_impl.unwrap();
    assert_eq!(imp.path.segments[0].ident.name, "run");
    assert!(imp.blocking);
    assert!(!imp.is_async);
}

#[test]
fn command_attribute_errors() {
    assert_eq!(
        error_of(parse_command_attr(vec![word("cli_only", 1), word("rpc_only", 2)])),
        (Span::At(2), "`rpc_only` and `cli_only` are mutually exclusive".to_string())
    );
    assert_eq!(
        error_of(parse_command_attr(vec![word("blocking", 1), word("blocking", 2)])),
        (Span::At(2), "duplicate argument `blocking`".to_string())
    );
    assert_eq!(
        error_of(parse_command_attr(vec![word("subcommands", 7)])),
        (Span::At(7), "`subcommands` requires at least 1 argument".to_string())
    );
    assert_eq!(
        error_of(parse_command_attr(vec![word("frobnicate", 9)])),
        (Span::At(9), "unknown argument".to_string())
    );
    assert_eq!(
        error_of(parse_command_attr(vec![assign_int("about", 4, "3")])),
        (Span::At(5), "about message must be a string".to_string())
    );
    assert_eq!(
        error_of(parse_command_attr(vec![list(
            "metadata",
            1,
            vec![assign_int("a", 2, "1"), assign_int("a", 3, "2")]
        )])),
        (Span::At(3), "duplicate metadata `a`".to_string())
    );
    assert_eq!(
        error_of(parse_command_attr(vec![
            list("subcommands", 1, vec![word("x", 2)]),
            list("display", 3, vec![word("show", 4)]),
        ])),
        (Span::At(4), "cannot define `display` for a command without an implementation".to_string())
    );
    assert_eq!(
        error_of(parse_command_attr(vec![list("display", 3, vec![word("a", 4), word("b", 5)])])),
        (Span::At(2003), "`display` can only have one implementation".to_string())
    );
}

fn param(name: &str, attrs: Vec<Attribute>) -> PatType {
    PatType {
        attrs,
        pat: Pat::Ident(Ident { name: name.to_string(), span: Span::At(50) }),
        ty: Type { text: "String".to_string(), span: Span::At(51) },
        span: Span::At(52),
    }
}

fn attr(name: &str, at: u64, meta: Meta) -> Attribute {
    Attribute { path: path(name, at), meta: Ok(meta), span: Span::At(at + 500) }
}

fn bare(name: &str, at: u64) -> Attribute {
    attr(name, at, Meta::Path(path(name, at)))
}

fn arg_list(at: u64, nested: Vec<NestedMeta>) -> Attribute {
    attr(
        "arg",
        at,
        Meta::List(MetaList { path: path("arg", at), nested, span: Span::At(at + 1), nested_span: Span::At(at + 2) }),
    )
}

#[test]
fn arg_attribute_options() {
    let p = param("name", vec![]);
    let a = arg_list(10, vec![assign("short", 11, "n"), assign("long", 13, "name"), word("count", 15)]);
    let o = parse_arg_attr(a, &p).ok().unwrap();
    assert_eq!(o.short.unwrap().value, "n");
    assert_eq!(o.long.unwrap().value, "name");
    assert!(o.count.is_some());
    assert_eq!(o.name.unwrap().name, "name");
    assert_eq!(o.ty.text, "String");

    let e = parse_arg_attr(arg_list(10, vec![assign("short", 11, "nm")]), &p).err().unwrap();
    assert_eq!((e.span, e.message.as_str()), (Span::At(12), "`short` value must be 1 character"));
    let e = parse_arg_attr(arg_list(10, vec![assign("short", 11, "é")]), &p).err().unwrap();
    assert_eq!(e.message, "`short` value must be 1 character");
    let e = parse_arg_attr(arg_list(10, vec![word("stdin", 11), word("count", 12)]), &p).err().unwrap();
    assert_eq!((e.span, e.message.as_str()), (Span::At(12), "`stdin` and `count` are mutually exclusive"));

    let unnamed = PatType {
        attrs: vec![],
        pat: Pat::Other(Span::At(60)),
        ty: Type { text: "u8".to_string(), span: Span::At(61) },
        span: Span::At(62),
    };
    let e = parse_arg_attr(bare("arg", 1), &unnamed).err().unwrap();
    assert_eq!((e.span, e.message.as_str()), (Span::At(62), "cannot infer name for pattern argument"));
}

#[test]
fn parameters_are_marked_and_their_markers_removed() {
    let keep = attr("doc", 90, Meta::Path(path("doc", 90)));
    let mut item = ItemFn {
        inputs: vec![
            FnArg::Typed(param("ctx", vec![bare("context", 1)])),
            FnArg::Typed(param("name", vec![keep, bare("arg", 2)])),
            FnArg::Typed(param("data", vec![bare("parent_data", 3), bare("response", 4)])),
        ],
    };
    let kinds = parse_param_attrs(&mut item).ok().unwrap();
    assert!(matches!(kinds[0], ParamType::Context(_)));
    assert!(matches!(kinds[1], ParamType::Arg(_)));
    assert!(matches!(kinds[2], ParamType::ParentData(_)));
    for (k, left) in [(0, 0), (1, 1), (2, 0)] {
        match &item.inputs[k] {
            FnArg::Typed(p) => assert_eq!(p.attrs.len(), left),
            FnArg::Receiver(_) => panic!("not typed"),
        }
    }
}

#[test]
fn parameter_errors() {
    let mut item = ItemFn { inputs: vec![FnArg::Receiver(Span::At(5))] };
    let e = parse_param_attrs(&mut item).err().unwrap();
    assert_eq!((e.span, e.message.as_str()), (Span::At(5), "commands may not take `self` as an argument"));

    let mut item = ItemFn { inputs: vec![FnArg::Typed(param("x", vec![]))] };
    let e = parse_param_attrs(&mut item).err().unwrap();
    assert_eq!(
        (e.span, e.message.as_str()),
        (
            Span::At(52),
            "must specify either `arg`, `context`, `parent_data`, `request`, or `response` attributes"
        )
    );

    let mut item = ItemFn {
        inputs: vec![
            FnArg::Typed(param("x", vec![bare("request", 1), bare("context", 2), bare("arg", 3)])),
            FnArg::Typed(param("y", vec![bare("arg", 4)])),
        ],
    };
    let e = parse_param_attrs(&mut item).err().unwrap();
    assert_eq!((e.span, e.message.as_str()), (Span::At(502), "`context` and `request` are mutually exclusive"));
    match &item.inputs[0] {
        FnArg::Typed(p) => assert_eq!(p.attrs.len(), 1),
        FnArg::Receiver(_) => panic!("not typed"),
    }
    match &item.inputs[1] {
        FnArg::Typed(p) => assert_eq!(p.attrs.len(), 1),
        FnArg::Receiver(_) => panic!("not typed"),
    }
}

fn meta(n: NestedMeta) -> Meta {
    match n {
        NestedMeta::Meta(m) => m,
        NestedMeta::Lit(_) => panic!("a literal"),
    }
}

fn tag_texts(t: &Option<SerdeTag>) -> Option<(Option<String>, Option<String>)> {
    t.as_ref().map(|t| {
        (
            t.tag.as_ref().map(|l| l.value.clone()),
            t.contents.as_ref().map(|l| l.value.clone()),
        )
    })
}

#[test]
fn serde_items_set_and_clear_the_tagging() {
    let mut t: Option<SerdeTag> = None;
    SerdeTag::apply_meta(&mut t, &meta(assign("tag", 1, "type")));
    assert_eq!(tag_texts(&t), Some((Some("type".to_string()), None)));
    SerdeTag::apply_meta(&mut t, &meta(assign("contents", 5, "value")));
    assert_eq!(tag_texts(&t), Some((Some("type".to_string()), Some("value".to_string()))));
    SerdeTag::apply_meta(&mut t, &meta(assign_int("tag", 9, "3")));
    assert_eq!(tag_texts(&t), Some((Some("type".to_string()), Some("value".to_string()))));
    SerdeTag::apply_meta(&mut t, &meta(word("rename_all", 12)));
    assert_eq!(tag_texts(&t), Some((Some("type".to_string()), Some("value".to_string()))));
    SerdeTag::apply_meta(&mut t, &meta(word("untagged", 14)));
    assert_eq!(tag_texts(&t), None);
}

#[test]
fn the_tagging_read_from_attributes_is_none() {
    let metas = vec![meta(list("serde", 1, vec![assign("tag", 2, "t")]))];
    assert!(SerdeTag::from_metas(&metas).is_none());
}

fn self_only(inner: NestedMeta) -> Options {
    match parse_command_attr(vec![list("subcommands", 1, vec![list("self", 2, vec![inner])])]) {
        Ok(o) => o,
        Err(e) => panic!("refused: {}", e.message),
    }
}

fn self_impl_of(o: Options) -> (String, bool, bool) {
    match o {
        Options::Parent(p) => {
            assert!(p.subcommands.is_empty());
            let imp = p.self_impl.unwrap();
            (imp.path.segments[0].ident.name.clone(), imp.is_async, imp.blocking)
        }
        Options::Leaf(_) => panic!("not a parent"),
    }
}

#[test]
fn a_parent_with_only_its_own_implementation() {
    assert_eq!(self_impl_of(self_only(word("f", 3))), ("f".to_string(), false, false));
    assert_eq!(
        self_impl_of(self_only(list("f", 3, vec![word("async", 4)]))),
        ("f".to_string(), true, false)
    );
    assert_eq!(
        self_impl_of(self_only(list("f", 3, vec![word("blocking", 4)]))),
        ("f".to_string(), false, true)
    );
    assert_eq!(
        error_of(parse_command_attr(vec![list("subcommands", 1, vec![list("self", 2, vec![list("f", 3, vec![word("x", 4)])])])])).1,
        "unknown argument".to_string()
    );
    assert_eq!(
        error_of(parse_command_attr(vec![list("subcommands", 1, vec![list("self", 2, vec![word("a", 3), word("b", 4)])])])).1,
        "`self` can only have one implementation".to_string()
    );
}

#[test]
fn a_subcommand_path_keeps_its_generic_arguments() {
    let args = vec![list("subcommands", 1, vec![NestedMeta::Lit(Lit::Str(lit_str("outer::inner<T>", 2)))])];
    let parent = match parse_command_attr(args).ok().unwrap() {
        Options::Parent(p) => p,
        Options::Leaf(_) => panic!("not a parent"),
    };
    let path = &parent.subcommands[0];
    assert_eq!(path.segments.len(), 2);
    assert!(path.segments[0].arguments.is_none());
    let generic = path.segments[1].arguments.clone().unwrap();
    assert!(generic.contains('T'));
    assert_eq!(path.segments[1].ident.name, "inner");
}

#[test]
fn a_second_subcommands_list_is_refused_after_one_with_only_self() {
    let args = vec![
        list("subcommands", 1, vec![list("self", 2, vec![word("f", 3)])]),
        list("subcommands", 10, vec![word("g", 11)]),
    ];
    assert_eq!(
        error_of(parse_command_attr(args)),
        (Span::At(1010), "duplicate argument `subcommands`".to_string())
    );
    let args = vec![
        list("subcommands", 1, vec![word("a", 2)]),
        list("subcommands", 10, vec![list("self", 11, vec![word("f", 12)])]),
    ];
    assert_eq!(
        error_of(parse_command_attr(args)),
        (Span::At(1010), "duplicate argument `subcommands`".to_string())
    );
}

#[test]
fn subcommand_strings_take_the_paths_handed_in() {
    let given = Path {
        leading_colon: true,
        segments: vec![PathSegment { ident: Ident { name: "given".to_string(), span: Span::CallSite }, arguments: None }],
        span: Span::CallSite,
    };
    let args = vec![
        word("blocking", 1),
        list("subcommands", 5, vec![word("a", 6), NestedMeta::Lit(Lit::Str(lit_str("ignored", 7)))]),
    ];
    let paths = vec![Vec::new(), vec![Err(rpc_toolkit::attrs::syntax::AttrError { span: Span::CallSite, message: String::new() }), Ok(given)]];
    let parent = match parse_command_attr_with(args, paths).ok().unwrap() {
        Options::Parent(p) => p,
        Options::Leaf(_) => panic!("not a parent"),
    };
    assert_eq!(parent.subcommands.len(), 2);
    assert_eq!(parent.subcommands[0].segments[0].ident.name, "a");
    assert!(parent.subcommands[1].leading_colon);
    assert_eq!(parent.subcommands[1].segments[0].ident.name, "given");

    let args = vec![list("subcommands", 5, vec![NestedMeta::Lit(Lit::Str(lit_str("x", 7)))])];
    let paths = vec![vec![Err(rpc_toolkit::attrs::syntax::AttrError { span: Span::CallSite, message: "bad path".to_string() })]];
    assert_eq!(error_of(parse_command_attr_with(args, paths)), (Span::CallSite, "bad path".to_string()));
}

#[test]
fn only_strings_inside_subcommands_are_parsed() {
    let args = vec![
        assign("about", 1, "a::b"),
        list("subcommands", 5, vec![word("a", 6), NestedMeta::Lit(Lit::Str(lit_str("x::y", 7)))]),
    ];
    let paths = resolve_subcommand_paths(&args);
    assert_eq!(paths.len(), 2);
    assert!(paths[0].is_empty());
    assert_eq!(paths[1].len(), 2);
    assert!(paths[1][0].is_err());
    let parsed = paths[1][1].as_ref().ok().unwrap();
    let names: Vec<_> = parsed.segments.iter().map(|s| s.ident.name.clone()).collect();
    assert_eq!(names, vec!["x".to_string(), "y".to_string()]);
}

#[test]
fn a_repeated_option_is_refused() {
    assert_eq!(
        error_of(parse_command_attr(vec![assign("about", 1, "a"), assign("about", 10, "b")])),
        (Span::At(11), "duplicate argument `about`".to_string())
    );
    assert_eq!(
        error_of(parse_command_attr(vec![assign("rename", 1, "a"), assign("rename", 10, "b")])),
        (Span::At(11), "duplicate argument `rename`".to_string())
    );
    assert_eq!(
        error_of(parse_command_attr(vec![list("display", 1, vec![word("f", 2)]), list("display", 10, vec![word("g", 11)])])),
        (Span::At(11), "duplicate argument `display`".to_string())
    );
    assert_eq!(
        error_of(parse_command_attr(vec![list(
            "subcommands",
            1,
            vec![list("self", 2, vec![word("f", 3)]), list("self", 10, vec![word("g", 11)])]
        )])),
        (Span::At(11), "duplicate argument `self`".to_string())
    );
}

#[test]
fn each_option_holds_the_value_written() {
    let o = parse_command_attr(vec![
        assign("about", 1, "what it does"),
        assign("rename", 10, "other"),
        list("display", 20, vec![word("show", 21)]),
        word("cli_only", 30),
    ])
    .ok()
    .unwrap();
    let c = match o {
        Options::Leaf(c) => c,
        Options::Parent(_) => panic!("not a leaf"),
    };
    assert_eq!(c.about.unwrap().value, "what it does");
    assert_eq!(c.rename.unwrap().value, "other");
    assert_eq!(c.display.unwrap().segments[0].ident.name, "show");
    match c.exec_ctx {
        ExecutionContext::CliOnly(p) => assert_eq!(p.span, Span::At(30)),
        _ => panic!("not cli only"),
    }
}

#[test]
fn an_argument_option_given_twice_is_refused_but_a_word_may_repeat() {
    let p = param("name", vec![]);
    let e = parse_arg_attr(arg_list(10, vec![assign("help", 11, "a"), assign("help", 20, "b")]), &p).err().unwrap();
    assert_eq!((e.span, e.message.as_str()), (Span::At(21), "duplicate argument `help`"));
    let e = parse_arg_attr(arg_list(10, vec![assign("default", 11, "a"), assign("default", 20, "b")]), &p).err().unwrap();
    assert_eq!((e.span, e.message.as_str()), (Span::At(21), "duplicate argument `default`"));
    let o = parse_arg_attr(arg_list(10, vec![word("stdin", 11), word("stdin", 20)]), &p).ok().unwrap();
    assert_eq!(o.stdin.unwrap().span, Span::At(20));
    let o = parse_arg_attr(arg_list(10, vec![assign("help", 11, "what"), list("parse", 20, vec![word("read", 21)])]), &p)
        .ok()
        .unwrap();
    assert_eq!(o.help.unwrap().value, "what");
    assert_eq!(o.parse.unwrap().segments[0].ident.name, "read");
}
