use real_async_trait::expand::expand;
use real_async_trait::annotation::{capability_from_name, take_capabilities};
use real_async_trait::lifetimes::lifetimes_in_scope;
use real_async_trait::render::render;
use real_async_trait::rewrite::transform_item;
use real_async_trait::syntax::{
    AttrArg, AttrToken, Attribute, Body, Bound, Capability, Fragment, GenericParam, Generics, ImplDecl, Item,
    LifetimeParam, Member, Method, Output, RefSite, ReturnType, Signature, TraitDecl, TransformError,
};

fn s(text: &str) -> String {
    text.to_string()
}

fn squash(text: &str) -> String {
    text.split_whitespace().collect::<Vec<_>>().join(" ")
}

fn lifetime(name: &str) -> LifetimeParam {
    LifetimeParam { name: s(name), tokens: s(name) }
}

fn generics(lifetimes: &[&str]) -> Generics {
    Generics {
        params: lifetimes.iter().map(|l| GenericParam::Lifetime(lifetime(l))).collect(),
        where_clause: String::new(),
    }
}

fn site(lifetime: Option<&str>, receiver: bool) -> RefSite {
    RefSite { lifetime: lifetime.map(s), receiver, mutable: false }
}

fn receiver(lifetime: Option<&str>) -> Fragment {
    let tokens = match lifetime {
        Some(l) => format!("&{} self", l),
        None => s("&self"),
    };
    Fragment { tokens, refs: vec![site(lifetime, true)] }
}

/// `async fn open<'a>(&'a self, path: &'a [u8], flags: usize) -> Result<FileDescriptor, Errno>`
fn open_sig() -> Signature {
    Signature {
        constness: false,
        asyncness: true,
        unsafety: false,
        abi: String::new(),
        ident: s("open"),
        generics: generics(&["'a"]),
        inputs: vec![
            receiver(Some("'a")),
            Fragment { tokens: s("path: &'a [u8]"), refs: vec![site(Some("'a"), false)] },
            Fragment { tokens: s("flags: usize"), refs: vec![] },
        ],
        output: ReturnType::Type(Fragment { tokens: s("Result<FileDescriptor, Errno>"), refs: vec![] }),
    }
}

fn method(attrs: Vec<Attribute>, sig: Signature, body: Body) -> Member {
    Member::Method(Method { attrs, qualifiers: String::new(), sig, body })
}

fn parens(tokens: Vec<AttrToken>) -> AttrArg {
    AttrArg::Group(tokens)
}

fn ident(text: &str) -> AttrToken {
    AttrToken::Ident(s(text))
}

fn annotation(args: Vec<AttrArg>) -> Attribute {
    Attribute { tokens: s("#[real_async_trait(..)]"), simple_name: Some(s("real_async_trait")), args }
}

fn scheme_trait(members: Vec<Member>) -> TraitDecl {
    TraitDecl { prefix: s("pub trait RedoxScheme"), generics: generics(&[]), supertraits: String::new(), members }
}

fn nothing_impl(members: Vec<Member>) -> ImplDecl {
    ImplDecl {
        prefix: s("impl"),
        generics: generics(&[]),
        trait_path: Some(s("RedoxScheme")),
        self_ty: s("MyNothingScheme"),
        members,
    }
}

fn rewritten_trait(t: TraitDecl) -> TraitDecl {
    match transform_item(Item::Trait(t)) {
        Ok(Output::Trait(x)) => x,
        other => panic!("unexpected outcome: {:?}", other),
    }
}

fn slot_bounds(t: &TraitDecl, index: usize) -> Vec<Bound> {
    match &t.members[index] {
        Member::Slot(d) => d.bounds.clone(),
        other => panic!("not a slot: {:?}", other),
    }
}

#[test]
fn open_method_gets_a_slot() {
    let t = rewritten_trait(scheme_trait(vec![method(vec![], open_sig(), Body::Absent)]));
    assert_eq!(t.members.len(), 2);
    match &t.members[0] {
        Member::Method(m) => {
            assert!(!m.sig.asyncness);
            assert_eq!(
                m.sig.output,
                ReturnType::Slot { ident: s("__real_async_trait_impl_TypeFor_open"), args: vec![s("'a")] }
            );
        },
        other => panic!("not a method: {:?}", other),
    }
    match &t.members[1] {
        Member::Slot(d) => {
            assert_eq!(d.ident, "__real_async_trait_impl_TypeFor_open");
            assert_eq!(d.generics, vec![lifetime("'a")]);
            assert_eq!(
                d.bounds,
                vec![Bound::Future(s("Result<FileDescriptor, Errno>")), Bound::Lifetime(s("'a"))]
            );
        },
        other => panic!("not a slot: {:?}", other),
    }
    let text = render(&Output::Trait(t));
    assert_eq!(
        squash(&text),
        "pub trait RedoxScheme { fn open<'a>(&'a self, path: &'a [u8], flags: usize) -> \
         Self::__real_async_trait_impl_TypeFor_open<'a> ; type __real_async_trait_impl_TypeFor_open<'a>: \
         ::core::future::Future<Output = Result<FileDescriptor, Errno>> + 'a; }"
    );
}

#[test]
fn send_annotation_adds_a_bound() {
    let attrs = vec![annotation(vec![parens(vec![ident("Send")])])];
    let t = rewritten_trait(scheme_trait(vec![method(attrs, open_sig(), Body::Absent)]));
    match &t.members[0] {
        Member::Method(m) => assert!(m.attrs.is_empty()),
        other => panic!("not a method: {:?}", other),
    }
    assert_eq!(
        slot_bounds(&t, 1),
        vec![
            Bound::Future(s("Result<FileDescriptor, Errno>")),
            Bound::Lifetime(s("'a")),
            Bound::Capability(Capability::Send),
        ]
    );
    let text = render(&Output::Trait(t));
    assert!(!text.contains("#[real_async_trait"));
    assert!(squash(&text).contains("+ 'a + ::core::marker::Send;"));
}

#[test]
fn impl_body_is_deferred_in_a_private_module() {
    let body = Body::Block(vec![s("Err(ENOENT)")]);
    let out = transform_item(Item::Impl(nothing_impl(vec![method(vec![], open_sig(), body)]))).unwrap();
    let x = match &out {
        Output::Impl(x) => x,
        other => panic!("not an impl: {:?}", other),
    };
    assert_eq!(x.module, "__real_async_trait_impl_RedoxScheme_for_MyNothingScheme");
    match &x.item.members[0] {
        Member::Method(m) => {
            assert!(!m.sig.asyncness);
            assert_eq!(m.body, Body::Deferred(vec![s("Err(ENOENT)")]));
        },
        other => panic!("not a method: {:?}", other),
    }
    match &x.item.members[1] {
        Member::Binding(b) => {
            assert_eq!(b.ident, "__real_async_trait_impl_TypeFor_open");
            assert_eq!(b.alias, "__real_async_trait_impl_ExistentialTypeFor_open");
            assert_eq!(b.alias_args, vec![s("'a")]);
        },
        other => panic!("not a binding: {:?}", other),
    }
    assert_eq!(x.aliases.len(), 1);
    assert_eq!(x.aliases[0].ident, "__real_async_trait_impl_ExistentialTypeFor_open");
    assert_eq!(
        squash(&render(&out)),
        "#[allow(non_snake_case)] mod __real_async_trait_impl_RedoxScheme_for_MyNothingScheme { use super::*; impl RedoxScheme for MyNothingScheme { \
         fn open<'a>(&'a self, path: &'a [u8], flags: usize) -> Self::__real_async_trait_impl_TypeFor_open<'a> \
         { async move { Err(ENOENT) } } type __real_async_trait_impl_TypeFor_open<'a> = \
         self::__real_async_trait_impl_ExistentialTypeFor_open<'a>; } \
         type __real_async_trait_impl_ExistentialTypeFor_open<'a> = impl \
         ::core::future::Future<Output = Result<FileDescriptor, Errno>> + 'a; }"
    );
}

#[test]
fn trait_without_async_methods_is_unchanged() {
    let mut sig = open_sig();
    sig.asyncness = false;
    let input = scheme_trait(vec![
        method(vec![annotation(vec![parens(vec![ident("Send")])])], sig, Body::Absent),
        Member::Other(s("const LIMIT: usize;")),
    ]);
    let out = rewritten_trait(input.clone());
    assert_eq!(out, input);
    assert_eq!(render(&Output::Trait(out)), render(&Output::Trait(input)));
}

#[test]
fn receiver_without_lifetime_fails() {
    let mut sig = open_sig();
    sig.inputs[0] = receiver(None);
    let r = transform_item(Item::Trait(scheme_trait(vec![method(vec![], sig, Body::Absent)])));
    assert_eq!(
        r,
        Err(TransformError::MissingLifetime { method: s("open"), site: site(None, true) })
    );
}

#[test]
fn parameter_without_lifetime_fails_in_impl() {
    let mut sig = open_sig();
    sig.inputs[1] = Fragment { tokens: s("path: &[u8]"), refs: vec![site(None, false)] };
    let body = Body::Block(vec![s("Err(ENOENT)")]);
    let r = transform_item(Item::Impl(nothing_impl(vec![method(vec![], sig, body)])));
    assert_eq!(
        r,
        Err(TransformError::MissingLifetime { method: s("open"), site: site(None, false) })
    );
}

#[test]
fn result_without_lifetime_fails() {
    let mut sig = open_sig();
    sig.output = ReturnType::Type(Fragment {
        tokens: s("Option<&str>"),
        refs: vec![site(None, false)],
    });
    let r = transform_item(Item::Trait(scheme_trait(vec![method(vec![], sig, Body::Absent)])));
    assert!(matches!(r, Err(TransformError::MissingLifetime { .. })));
}

#[test]
fn repeated_capability_gives_one_bound() {
    let attrs = vec![
        annotation(vec![parens(vec![ident("Send")])]),
        annotation(vec![parens(vec![ident("send"), ident("SEND")])]),
    ];
    let t = rewritten_trait(scheme_trait(vec![method(attrs, open_sig(), Body::Absent)]));
    let sends = slot_bounds(&t, 1)
        .into_iter()
        .filter(|b| *b == Bound::Capability(Capability::Send))
        .count();
    assert_eq!(sends, 1);
}

#[test]
fn unrecognized_capability_fails() {
    let attrs = vec![annotation(vec![parens(vec![ident("Sync")])])];
    let r = transform_item(Item::Trait(scheme_trait(vec![method(attrs, open_sig(), Body::Absent)])));
    assert_eq!(r, Err(TransformError::UnrecognizedCapability(s("Sync"))));
}

#[test]
fn punctuation_in_annotation_fails() {
    let attrs = vec![annotation(vec![parens(vec![ident("Send"), AttrToken::Punct(','), ident("Send")])])];
    let r = transform_item(Item::Trait(scheme_trait(vec![method(attrs, open_sig(), Body::Absent)])));
    assert_eq!(r, Err(TransformError::MalformedAnnotation(',')));
}

#[test]
fn unrecognized_capability_reported_before_missing_lifetime() {
    let mut sig = open_sig();
    sig.inputs[0] = receiver(None);
    let attrs = vec![annotation(vec![parens(vec![AttrToken::Literal(s("\"Send\""))])])];
    let r = transform_item(Item::Trait(scheme_trait(vec![method(attrs, sig, Body::Absent)])));
    assert_eq!(r, Err(TransformError::UnrecognizedCapability(s("\"Send\""))));
}

#[test]
fn other_items_are_refused() {
    assert_eq!(transform_item(Item::Other), Err(TransformError::Shape));
    let mut inherent = nothing_impl(vec![]);
    inherent.trait_path = None;
    assert_eq!(transform_item(Item::Impl(inherent)), Err(TransformError::Shape));
}

#[test]
fn declaration_and_method_lifetimes() {
    let mut sig = open_sig();
    sig.generics = generics(&["'b"]);
    let mut t = scheme_trait(vec![method(vec![], sig, Body::Absent)]);
    t.generics = generics(&["'a"]);
    let out = rewritten_trait(t);
    match &out.members[1] {
        Member::Slot(d) => {
            assert_eq!(d.generics, vec![lifetime("'b")]);
            assert_eq!(
                d.bounds,
                vec![
                    Bound::Future(s("Result<FileDescriptor, Errno>")),
                    Bound::Lifetime(s("'a")),
                    Bound::Lifetime(s("'b")),
                ]
            );
        },
        other => panic!("not a slot: {:?}", other),
    }
}

#[test]
fn impl_alias_takes_all_lifetimes() {
    let mut sig = open_sig();
    sig.generics = generics(&["'b"]);
    let mut i = nothing_impl(vec![method(vec![], sig, Body::Block(vec![]))]);
    i.generics = generics(&["'a"]);
    match transform_item(Item::Impl(i)).unwrap() {
        Output::Impl(x) => {
            assert_eq!(x.aliases[0].generics, vec![lifetime("'a"), lifetime("'b")]);
            match &x.item.members[1] {
                Member::Binding(b) => {
                    assert_eq!(b.generics, vec![lifetime("'b")]);
                    assert_eq!(b.alias_args, vec![s("'a"), s("'b")]);
                },
                other => panic!("not a binding: {:?}", other),
            }
        },
        other => panic!("not an impl: {:?}", other),
    }
}

#[test]
fn unit_result_is_produced_by_the_future() {
    let mut sig = open_sig();
    sig.output = ReturnType::Unit;
    let t = rewritten_trait(scheme_trait(vec![method(vec![], sig, Body::Absent)]));
    assert_eq!(slot_bounds(&t, 1)[0], Bound::Future(s("()")));
}

#[test]
fn slots_follow_method_order() {
    let mut close = open_sig();
    close.ident = s("close");
    let mut sync = open_sig();
    sync.ident = s("name");
    sync.asyncness = false;
    let t = rewritten_trait(scheme_trait(vec![
        method(vec![], open_sig(), Body::Absent),
        method(vec![], sync, Body::Absent),
        method(vec![], close, Body::Absent),
    ]));
    assert_eq!(t.members.len(), 5);
    let names: Vec<String> = t.members[3..]
        .iter()
        .map(|m| match m {
            Member::Slot(d) => d.ident.clone(),
            other => panic!("not a slot: {:?}", other),
        })
        .collect();
    assert_eq!(
        names,
        vec![s("__real_async_trait_impl_TypeFor_open"), s("__real_async_trait_impl_TypeFor_close")]
    );
}

#[test]
fn only_annotations_are_removed() {
    let plain = Attribute { tokens: s("#[doc = \"x\"]"), simple_name: Some(s("doc")), args: vec![] };
    let bare = Attribute {
        tokens: s("#[real_async_trait]"),
        simple_name: Some(s("real_async_trait")),
        args: vec![],
    };
    let marker = annotation(vec![parens(vec![ident("send")])]);
    let (kept, caps) = take_capabilities(vec![plain.clone(), marker, bare]).unwrap();
    assert_eq!(kept, vec![plain]);
    assert_eq!(caps, vec![Capability::Send]);
}

#[test]
fn capability_names_ignore_case() {
    assert_eq!(capability_from_name("Send"), Some(Capability::Send));
    assert_eq!(capability_from_name("sEnD"), Some(Capability::Send));
    assert_eq!(capability_from_name("Sendable"), None);
    assert_eq!(capability_from_name(""), None);
}

#[test]
fn capability_names_are_trimmed() {
    assert_eq!(capability_from_name("  Send "), Some(Capability::Send));
    assert_eq!(capability_from_name(" send"), Some(Capability::Send));
    assert_eq!(capability_from_name("\tSEND\n"), Some(Capability::Send));
    assert_eq!(capability_from_name("\u{3000}send\u{a0}"), Some(Capability::Send));
    assert_eq!(capability_from_name("   "), None);
    assert_eq!(capability_from_name("se nd"), None);
}

#[test]
fn scope_lists_declaration_lifetimes_first() {
    let mut decl = generics(&["'x"]);
    decl.params.push(GenericParam::Other(s("T")));
    let (all, own) = lifetimes_in_scope(&decl, &generics(&["'x", "'y"]));
    assert_eq!(all, vec![lifetime("'x"), lifetime("'x"), lifetime("'y")]);
    assert_eq!(own, vec![lifetime("'x"), lifetime("'y")]);
}

#[test]
fn expand_gives_tokens_of_the_rewritten_impl() {
    let body = Body::Block(vec![s("Err(ENOENT)")]);
    let tokens = expand(Item::Impl(nothing_impl(vec![method(vec![], open_sig(), body)]))).unwrap();
    let text = tokens.to_string();
    assert!(text.contains("mod __real_async_trait_impl_RedoxScheme_for_MyNothingScheme {"));
    assert!(text.contains("async move { Err (ENOENT) }"));
    assert!(!text.contains("async fn"));
    assert_eq!(expand(Item::Other).unwrap_err(), TransformError::Shape);
}

#[test]
fn keywords_in_one_group_are_read_one_by_one() {
    let attrs = vec![annotation(vec![parens(vec![ident("Send"), ident("send")])])];
    let (kept, caps) = take_capabilities(attrs).unwrap();
    assert!(kept.is_empty());
    assert_eq!(caps, vec![Capability::Send]);
}

#[test]
fn empty_annotation_gives_no_capability() {
    let attrs = vec![annotation(vec![parens(vec![])])];
    let t = rewritten_trait(scheme_trait(vec![method(attrs, open_sig(), Body::Absent)]));
    match &t.members[0] {
        Member::Method(m) => assert!(m.attrs.is_empty()),
        other => panic!("not a method: {:?}", other),
    }
    assert_eq!(
        slot_bounds(&t, 1),
        vec![Bound::Future(s("Result<FileDescriptor, Errno>")), Bound::Lifetime(s("'a"))]
    );
}

#[test]
fn annotation_shapes_other_than_identifiers_fail() {
    let eq = vec![annotation(vec![AttrArg::Token(AttrToken::Punct('=')), AttrArg::Token(ident("Send"))])];
    assert_eq!(take_capabilities(eq), Err(TransformError::MalformedAnnotation('=')));
    let nested = vec![annotation(vec![parens(vec![ident("Send"), AttrToken::Group('(')])])];
    assert_eq!(take_capabilities(nested), Err(TransformError::MalformedAnnotation('(')));
}

#[test]
fn module_is_named_after_trait_and_type() {
    let mut i = nothing_impl(vec![]);
    i.trait_path = Some(s("io :: Read"));
    i.self_ty = s("Vec < u8 >");
    match transform_item(Item::Impl(i)).unwrap() {
        Output::Impl(x) => assert_eq!(x.module, "__real_async_trait_impl_io____Read_for_Vec___u8__"),
        other => panic!("not an impl: {:?}", other),
    }
    let mut other = nothing_impl(vec![]);
    other.self_ty = s("OtherScheme");
    match transform_item(Item::Impl(other)).unwrap() {
        Output::Impl(x) => assert_eq!(x.module, "__real_async_trait_impl_RedoxScheme_for_OtherScheme"),
        other => panic!("not an impl: {:?}", other),
    }
}
