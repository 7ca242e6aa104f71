//! The source text of a rewritten declaration.
use crate::slot::slot_path;
use crate::slot::push_slot_path;
use crate::syntax::{
    AliasDecl, Attribute, Body, Bound, Capability, Fragment, GenericParam, Generics, ImplDecl, ImplOutput,
    LifetimeParam, Member, Method, Output, ReturnType, Signature, SlotBinding, SlotDecl, TraitDecl,
};
use crate::text::{joined, push_joined, views};
use vstd::prelude::*;
use vstd::string::*;

verus! {

pub open spec fn param_text(p: GenericParam) -> Seq<char> {
    match p {
        GenericParam::Lifetime(l) => l.tokens@,
        GenericParam::Other(s) => s@,
    }
}

/// `<..>` around the texts, or nothing when there are none.
pub open spec fn angled(items: Seq<Seq<char>>) -> Seq<char> {
    if items.len() == 0 {
        Seq::empty()
    } else {
        "<"@ + joined(items, ", "@) + ">"@
    }
}

pub open spec fn generics_text(g: Generics) -> Seq<char> {
    angled(g.params@.map_values(|p: GenericParam| param_text(p)))
}

pub open spec fn lifetime_defs_text(ls: Seq<LifetimeParam>) -> Seq<char> {
    angled(ls.map_values(|l: LifetimeParam| l.tokens@))
}

pub open spec fn output_text(o: ReturnType) -> Seq<char> {
    match o {
        ReturnType::Unit => Seq::empty(),
        ReturnType::Type(f) => " -> "@ + f.tokens@,
        ReturnType::Slot { ident, args } => " -> "@ + slot_path(ident@, args@),
    }
}

pub open spec fn flag_text(on: bool, word: Seq<char>) -> Seq<char> {
    if on {
        word
    } else {
        Seq::empty()
    }
}

pub open spec fn sig_head_text(s: Signature) -> Seq<char> {
    flag_text(s.constness, "const "@) + flag_text(s.asyncness, "async "@) + flag_text(s.unsafety, "unsafe "@)
        + s.abi@ + " fn "@ + s.ident@
}

pub open spec fn inputs_text(s: Signature) -> Seq<char> {
    "("@ + joined(s.inputs@.map_values(|f: Fragment| f.tokens@), ", "@) + ")"@
}

pub open spec fn sig_text(s: Signature) -> Seq<char> {
    sig_head_text(s) + generics_text(s.generics) + inputs_text(s) + output_text(s.output) + " "@
        + s.generics.where_clause@
}

pub open spec fn body_text(b: Body) -> Seq<char> {
    match b {
        Body::Absent => ";"@,
        Body::Block(stmts) => " { "@ + joined(views(stmts@), " "@) + " }"@,
        Body::Deferred(stmts) => " { async move { "@ + joined(views(stmts@), " "@) + " } }"@,
    }
}

pub open spec fn method_text(m: Method) -> Seq<char> {
    joined(m.attrs@.map_values(|a: Attribute| a.tokens@), " "@) + " "@ + m.qualifiers@ + " "@ + sig_text(
        m.sig,
    ) + body_text(m.body)
}

pub open spec fn bound_text(b: Bound) -> Seq<char> {
    match b {
        Bound::Future(t) => "::core::future::Future<Output = "@ + t@ + ">"@,
        Bound::Lifetime(l) => l@,
        Bound::Capability(Capability::Send) => "::core::marker::Send"@,
    }
}

pub open spec fn bounds_text(bs: Seq<Bound>) -> Seq<char> {
    joined(bs.map_values(|b: Bound| bound_text(b)), " + "@)
}

pub open spec fn slot_decl_text(d: SlotDecl) -> Seq<char> {
    "type "@ + d.ident@ + lifetime_defs_text(d.generics@) + ": "@ + bounds_text(d.bounds@) + ";"@
}

pub open spec fn binding_text(b: SlotBinding) -> Seq<char> {
    "type "@ + b.ident@ + lifetime_defs_text(b.generics@) + " = self::"@ + b.alias@ + "<"@ + joined(
        views(b.alias_args@),
        ", "@,
    ) + ">;"@
}

pub open spec fn alias_text(a: AliasDecl) -> Seq<char> {
    "type "@ + a.ident@ + lifetime_defs_text(a.generics@) + " = impl "@ + bounds_text(a.bounds@) + ";"@
}

pub open spec fn member_text(m: Member) -> Seq<char> {
    match m {
        Member::Method(x) => method_text(x),
        Member::Slot(d) => slot_decl_text(d),
        Member::Binding(b) => binding_text(b),
        Member::Other(s) => s@,
    }
}

pub open spec fn members_text(ms: Seq<Member>) -> Seq<char> {
    " { "@ + joined(ms.map_values(|m: Member| member_text(m)), " "@) + " }"@
}

pub open spec fn trait_text(t: TraitDecl) -> Seq<char> {
    t.prefix@ + generics_text(t.generics) + " "@ + t.supertraits@ + " "@ + t.generics.where_clause@
        + members_text(t.members@)
}

pub open spec fn impl_head_text(t: ImplDecl) -> Seq<char> {
    match t.trait_path {
        Some(p) => p@ + " for "@ + t.self_ty@,
        None => t.self_ty@,
    }
}

pub open spec fn impl_text(t: ImplDecl) -> Seq<char> {
    t.prefix@ + generics_text(t.generics) + " "@ + impl_head_text(t) + " "@ + t.generics.where_clause@
        + members_text(t.members@)
}

pub open spec fn impl_output_text(o: ImplOutput) -> Seq<char> {
    "#[allow(non_snake_case)] mod "@ + o.module@ + " { use super::*; "@ + impl_text(o.item) + " "@ + joined(
        o.aliases@.map_values(|a: AliasDecl| alias_text(a)),
        " "@,
    ) + " }"@
}

/// The source text of a rewritten item.
pub open spec fn output_text_of(o: Output) -> Seq<char> {
    match o {
        Output::Trait(t) => trait_text(t),
        Output::Impl(x) => impl_output_text(x),
    }
}

fn push_angled(out: &mut String, items: &Vec<String>)
    ensures
        final(out)@ == old(out)@ + angled(views(items@)),
{
    if items.len() > 0 {
        out.append("<");
        push_joined(out, items, ", ");
        out.append(">");
    }
}

fn generic_param_texts(g: &Generics) -> (r: Vec<String>)
    ensures
        views(r@) == g.params@.map_values(|p: GenericParam| param_text(p)),
{
    let mut r: Vec<String> = Vec::new();
    let mut i: usize = 0;
    while i < g.params.len()
        invariant
            i <= g.params@.len(),
            views(r@).len() == i,
            forall|j: int| 0 <= j < i ==> (#[trigger] r@[j])@ == param_text(g.params@[j]),
        decreases g.params@.len() - i,
    {
        match &g.params[i] {
            GenericParam::Lifetime(l) => r.push(l.tokens.clone()),
            GenericParam::Other(s) => r.push(s.clone()),
        }
        i += 1;
    }
    assert(views(r@) =~= g.params@.map_values(|p: GenericParam| param_text(p)));
    r
}

fn lifetime_def_texts(ls: &Vec<LifetimeParam>) -> (r: Vec<String>)
    ensures
        views(r@) == ls@.map_values(|l: LifetimeParam| l.tokens@),
{
    let mut r: Vec<String> = Vec::new();
    let mut i: usize = 0;
    while i < ls.len()
        invariant
            i <= ls@.len(),
            views(r@).len() == i,
            forall|j: int| 0 <= j < i ==> (#[trigger] r@[j])@ == ls@[j].tokens@,
        decreases ls@.len() - i,
    {
        r.push(ls[i].tokens.clone());
        i += 1;
    }
    assert(views(r@) =~= ls@.map_values(|l: LifetimeParam| l.tokens@));
    r
}

fn input_texts(fs: &Vec<Fragment>) -> (r: Vec<String>)
    ensures
        views(r@) == fs@.map_values(|f: Fragment| f.tokens@),
{
    let mut r: Vec<String> = Vec::new();
    let mut i: usize = 0;
    while i < fs.len()
        invariant
            i <= fs@.len(),
            views(r@).len() == i,
            forall|j: int| 0 <= j < i ==> (#[trigger] r@[j])@ == fs@[j].tokens@,
        decreases fs@.len() - i,
    {
        r.push(fs[i].tokens.clone());
        i += 1;
    }
    assert(views(r@) =~= fs@.map_values(|f: Fragment| f.tokens@));
    r
}

fn attr_texts(attrs: &Vec<Attribute>) -> (r: Vec<String>)
    ensures
        views(r@) == attrs@.map_values(|a: Attribute| a.tokens@),
{
    let mut r: Vec<String> = Vec::new();
    let mut i: usize = 0;
    while i < attrs.len()
        invariant
            i <= attrs@.len(),
            views(r@).len() == i,
            forall|j: int| 0 <= j < i ==> (#[trigger] r@[j])@ == attrs@[j].tokens@,
        decreases attrs@.len() - i,
    {
        r.push(attrs[i].tokens.clone());
        i += 1;
    }
    assert(views(r@) =~= attrs@.map_values(|a: Attribute| a.tokens@));
    r
}

fn push_flag(out: &mut String, on: bool, word: &str)
    ensures
        final(out)@ == old(out)@ + flag_text(on, word@),
{
    if on {
        out.append(word);
    } else {
        assert(out@ =~= out@ + Seq::<char>::empty());
    }
}

fn push_sig_head(out: &mut String, s: &Signature)
    ensures
        final(out)@ == old(out)@ + sig_head_text(*s),
{
    let ghost start = out@;
    push_flag(out, s.constness, "const ");
    push_flag(out, s.asyncness, "async ");
    push_flag(out, s.unsafety, "unsafe ");
    out.append(s.abi.as_str());
    out.append(" fn ");
    out.append(s.ident.as_str());
    assert(out@ =~= start + sig_head_text(*s));
}

fn push_inputs(out: &mut String, s: &Signature)
    ensures
        final(out)@ == old(out)@ + inputs_text(*s),
{
    let ghost start = out@;
    out.append("(");
    let inputs = input_texts(&s.inputs);
    push_joined(out, &inputs, ", ");
    out.append(")");
    assert(out@ =~= start + inputs_text(*s));
}

fn push_output(out: &mut String, o: &ReturnType)
    ensures
        final(out)@ == old(out)@ + output_text(*o),
{
    let ghost start = out@;
    match o {
        ReturnType::Unit => {
            assert(out@ =~= start + output_text(*o));
        },
        ReturnType::Type(f) => {
            out.append(" -> ");
            out.append(f.tokens.as_str());
            assert(out@ =~= start + output_text(*o));
        },
        ReturnType::Slot { ident, args } => {
            out.append(" -> ");
            push_slot_path(out, ident, args);
            assert(out@ =~= start + output_text(*o));
        },
    }
}

fn push_sig(out: &mut String, s: &Signature)
    ensures
        final(out)@ == old(out)@ + sig_text(*s),
{
    let ghost start = out@;
    push_sig_head(out, s);
    let params = generic_param_texts(&s.generics);
    push_angled(out, &params);
    push_inputs(out, s);
    push_output(out, &s.output);
    out.append(" ");
    out.append(s.generics.where_clause.as_str());
    assert(out@ =~= start + sig_text(*s));
}

fn push_body(out: &mut String, b: &Body)
    ensures
        final(out)@ == old(out)@ + body_text(*b),
{
    match b {
        Body::Absent => out.append(";"),
        Body::Block(stmts) => {
            out.append(" { ");
            push_joined(out, stmts, " ");
            out.append(" }");
        },
        Body::Deferred(stmts) => {
            out.append(" { async move { ");
            push_joined(out, stmts, " ");
            out.append(" } }");
        },
    }
}

fn push_method(out: &mut String, m: &Method)
    ensures
        final(out)@ == old(out)@ + method_text(*m),
{
    let attrs = attr_texts(&m.attrs);
    push_joined(out, &attrs, " ");
    out.append(" ");
    out.append(m.qualifiers.as_str());
    out.append(" ");
    push_sig(out, &m.sig);
    push_body(out, &m.body);
}

fn bound_string(b: &Bound) -> (r: String)
    ensures
        r@ == bound_text(*b),
{
    match b {
        Bound::Future(t) => {
            let mut r = String::from_str("::core::future::Future<Output = ");
            r.append(t.as_str());
            r.append(">");
            r
        },
        Bound::Lifetime(l) => l.clone(),
        Bound::Capability(Capability::Send) => String::from_str("::core::marker::Send"),
    }
}

fn push_bounds(out: &mut String, bs: &Vec<Bound>)
    ensures
        final(out)@ == old(out)@ + bounds_text(bs@),
{
    let mut texts: Vec<String> = Vec::new();
    let mut i: usize = 0;
    while i < bs.len()
        invariant
            i <= bs@.len(),
            views(texts@).len() == i,
            forall|j: int| 0 <= j < i ==> (#[trigger] texts@[j])@ == bound_text(bs@[j]),
        decreases bs@.len() - i,
    {
        texts.push(bound_string(&bs[i]));
        i += 1;
    }
    assert(views(texts@) =~= bs@.map_values(|b: Bound| bound_text(b)));
    push_joined(out, &texts, " + ");
}

fn push_member(out: &mut String, m: &Member)
    ensures
        final(out)@ == old(out)@ + member_text(*m),
{
    match m {
        Member::Method(x) => push_method(out, x),
        Member::Slot(d) => {
            out.append("type ");
            out.append(d.ident.as_str());
            let defs = lifetime_def_texts(&d.generics);
            push_angled(out, &defs);
            out.append(": ");
            push_bounds(out, &d.bounds);
            out.append(";");
        },
        Member::Binding(b) => {
            out.append("type ");
            out.append(b.ident.as_str());
            let defs = lifetime_def_texts(&b.generics);
            push_angled(out, &defs);
            out.append(" = self::");
            out.append(b.alias.as_str());
            out.append("<");
            push_joined(out, &b.alias_args, ", ");
            out.append(">;");
        },
        Member::Other(s) => out.append(s.as_str()),
    }
}

/// Appends the members, between braces, with one space between neighbours.
fn push_members(out: &mut String, ms: &Vec<Member>)
    ensures
        final(out)@ == old(out)@ + members_text(ms@),
{
    let ghost start = out@;
    out.append(" { ");
    let ghost open = out@;
    let mut i: usize = 0;
    while i < ms.len()
        invariant
            i <= ms@.len(),
            open == start + " { "@,
            out@ == open + joined(ms@.take(i as int).map_values(|m: Member| member_text(m)), " "@),
        decreases ms@.len() - i,
    {
        let ghost before = ms@.take(i as int).map_values(|m: Member| member_text(m));
        let ghost after = ms@.take(i as int + 1).map_values(|m: Member| member_text(m));
        assert(after.drop_last() =~= before);
        if i > 0 {
            out.append(" ");
        }
        push_member(out, &ms[i]);
        proof {
            if i == 0 {
                assert(joined(before, " "@) =~= Seq::<char>::empty());
            }
        }
        assert(out@ =~= open + joined(after, " "@));
        i += 1;
    }
    assert(ms@.take(i as int) == ms@);
    out.append(" }");
}

fn push_alias(out: &mut String, a: &AliasDecl)
    ensures
        final(out)@ == old(out)@ + alias_text(*a),
{
    out.append("type ");
    out.append(a.ident.as_str());
    let defs = lifetime_def_texts(&a.generics);
    push_angled(out, &defs);
    out.append(" = impl ");
    push_bounds(out, &a.bounds);
    out.append(";");
}

fn push_aliases(out: &mut String, aliases: &Vec<AliasDecl>)
    ensures
        final(out)@ == old(out)@ + joined(aliases@.map_values(|a: AliasDecl| alias_text(a)), " "@),
{
    let ghost start = out@;
    let mut i: usize = 0;
    while i < aliases.len()
        invariant
            i <= aliases@.len(),
            out@ == start + joined(aliases@.take(i as int).map_values(|a: AliasDecl| alias_text(a)), " "@),
        decreases aliases@.len() - i,
    {
        let ghost before = aliases@.take(i as int).map_values(|a: AliasDecl| alias_text(a));
        let ghost after = aliases@.take(i as int + 1).map_values(|a: AliasDecl| alias_text(a));
        assert(after.drop_last() =~= before);
        if i > 0 {
            out.append(" ");
        }
        push_alias(out, &aliases[i]);
        proof {
            if i == 0 {
                assert(joined(before, " "@) =~= Seq::<char>::empty());
            }
        }
        assert(out@ =~= start + joined(after, " "@));
        i += 1;
    }
    assert(aliases@.take(i as int) == aliases@);
}

fn push_trait(out: &mut String, t: &TraitDecl)
    ensures
        final(out)@ == old(out)@ + trait_text(*t),
{
    out.append(t.prefix.as_str());
    let params = generic_param_texts(&t.generics);
    push_angled(out, &params);
    out.append(" ");
    out.append(t.supertraits.as_str());
    out.append(" ");
    out.append(t.generics.where_clause.as_str());
    push_members(out, &t.members);
}

fn push_impl(out: &mut String, t: &ImplDecl)
    ensures
        final(out)@ == old(out)@ + impl_text(*t),
{
    out.append(t.prefix.as_str());
    let params = generic_param_texts(&t.generics);
    push_angled(out, &params);
    out.append(" ");
    match &t.trait_path {
        Some(p) => {
            out.append(p.as_str());
            out.append(" for ");
        },
        None => {},
    }
    out.append(t.self_ty.as_str());
    out.append(" ");
    out.append(t.generics.where_clause.as_str());
    push_members(out, &t.members);
}

/// The source text of a rewritten item.
pub fn render(o: &Output) -> (r: String)
    ensures
        r@ == output_text_of(*o),
{
    let mut r = String::new();
    match o {
        Output::Trait(t) => push_trait(&mut r, t),
        Output::Impl(x) => {
            r.append("#[allow(non_snake_case)] mod ");
            r.append(x.module.as_str());
            r.append(" { use super::*; ");
            push_impl(&mut r, &x.item);
            r.append(" ");
            push_aliases(&mut r, &x.aliases);
            r.append(" }");
        },
    }
    r
}

} // verus!
