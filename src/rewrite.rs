//! Rewriting the asynchronous methods of a trait and of its implementations.
use crate::annotation::{
    distinct_capabilities, first_bad_token, kept_attrs, marker_tokens, take_capabilities,
    tokens_recognized,
};
use crate::lifetimes::{
    check_explicit_lifetimes, in_scope, lifetime_names, lifetimes_in_scope, missing_in_sig, names_of,
    own_lifetimes, sig_explicit,
};
use crate::slot::{
    alias_ident, alias_name, bounds_are, make_bounds, module_ident, module_name, result_text, result_text_of,
    slot_ident, slot_name,
};
use crate::syntax::{
    AliasDecl, Body, Capability, Generics, ImplDecl, ImplOutput, Item, Member, Method, Output, ReturnType,
    Signature, SlotBinding, SlotDecl, TraitDecl, TransformError,
};
use vstd::prelude::*;

verus! {

pub open spec fn is_async(m: Member) -> bool {
    m matches Member::Method(x) && x.sig.asyncness
}

/// The number of asynchronous methods among `ms`.
pub open spec fn count_async(ms: Seq<Member>) -> nat
    decreases ms.len(),
{
    if ms.len() == 0 {
        0
    } else {
        count_async(ms.drop_last()) + if is_async(ms.last()) {
            1nat
        } else {
            0nat
        }
    }
}

/// Where the member generated for the method at `i` stands once appended.
pub open spec fn appended_at(ms: Seq<Member>, i: int) -> int {
    (ms.len() + count_async(ms.take(i))) as int
}

/// `r` is `s` made synchronous, returning the slot named after it instantiated
/// with the method's own lifetimes.
pub open spec fn sig_rewritten(r: Signature, s: Signature) -> bool {
    &&& !r.asyncness
    &&& r.constness == s.constness
    &&& r.unsafety == s.unsafety
    &&& r.abi == s.abi
    &&& r.ident == s.ident
    &&& r.generics == s.generics
    &&& r.inputs == s.inputs
    &&& r.output matches ReturnType::Slot { ident, args } && ident@ == slot_name(s.ident@) && args@
        == lifetime_names(own_lifetimes(s.generics))
}

/// In a trait: the annotations are gone and the signature is rewritten.
pub open spec fn trait_method_rewritten(r: Method, m: Method) -> bool {
    &&& r.attrs@ == kept_attrs(m.attrs@)
    &&& r.qualifiers == m.qualifiers
    &&& r.body == m.body
    &&& sig_rewritten(r.sig, m.sig)
}

/// The slot that a trait declares for its method `m`.
pub open spec fn slot_decl_for(d: SlotDecl, m: Method, decl: Generics) -> bool {
    &&& d.ident@ == slot_name(m.sig.ident@)
    &&& d.generics@ == own_lifetimes(m.sig.generics)
    &&& bounds_are(
        d.bounds@,
        result_text(m.sig.output),
        in_scope(decl, m.sig.generics),
        distinct_capabilities(marker_tokens(m.attrs@)),
    )
}

/// A body wrapped in `async move { .. }`.
pub open spec fn deferred(b: Body) -> Body {
    match b {
        Body::Block(stmts) => Body::Deferred(stmts),
        _ => b,
    }
}

/// In an implementation: the body is deferred and the signature is rewritten.
pub open spec fn impl_method_rewritten(r: Method, m: Method) -> bool {
    &&& r.attrs == m.attrs
    &&& r.qualifiers == m.qualifiers
    &&& r.body == deferred(m.body)
    &&& sig_rewritten(r.sig, m.sig)
}

/// The binding of the slot of `m` to its alias, in an implementation.
pub open spec fn binding_for(b: SlotBinding, m: Method, decl: Generics) -> bool {
    &&& b.ident@ == slot_name(m.sig.ident@)
    &&& b.generics@ == own_lifetimes(m.sig.generics)
    &&& b.alias@ == alias_name(m.sig.ident@)
    &&& b.alias_args@ == lifetime_names(in_scope(decl, m.sig.generics))
}

/// The opaque alias that stands for the computation of `m`.
pub open spec fn alias_for(a: AliasDecl, m: Method, decl: Generics) -> bool {
    &&& a.ident@ == alias_name(m.sig.ident@)
    &&& a.generics@ == in_scope(decl, m.sig.generics)
    &&& bounds_are(
        a.bounds@,
        result_text(m.sig.output),
        in_scope(decl, m.sig.generics),
        Seq::<Capability>::empty(),
    )
}

/// `m` can be rewritten: its annotations (read only in a trait) name known
/// capabilities, and its signature names every lifetime.
pub open spec fn method_passes(m: Method, in_trait: bool) -> bool {
    &&& in_trait ==> tokens_recognized(marker_tokens(m.attrs@))
    &&& sig_explicit(m.sig)
}

/// `e` is the error that the failing method `m` gives.
pub open spec fn method_error(m: Method, in_trait: bool, e: TransformError) -> bool {
    if in_trait && !tokens_recognized(marker_tokens(m.attrs@)) {
        first_bad_token(marker_tokens(m.attrs@), e)
    } else {
        e matches TransformError::MissingLifetime { method, site } && method == m.sig.ident
            && missing_in_sig(m.sig, site)
    }
}

pub open spec fn members_pass(ms: Seq<Member>, in_trait: bool) -> bool {
    forall|i: int|
        0 <= i < ms.len() && is_async(#[trigger] ms[i]) ==> method_passes(ms[i]->Method_0, in_trait)
}

/// `e` is the error of the first asynchronous method of `ms` that fails.
pub open spec fn members_fail_with(ms: Seq<Member>, in_trait: bool, e: TransformError) -> bool {
    exists|i: int|
        0 <= i < ms.len() && is_async(#[trigger] ms[i]) && !method_passes(ms[i]->Method_0, in_trait)
            && method_error(ms[i]->Method_0, in_trait, e) && members_pass(ms.take(i), in_trait)
}

pub open spec fn trait_member_rewritten(r: Member, m: Member) -> bool {
    if is_async(m) {
        r matches Member::Method(x) && trait_method_rewritten(x, m->Method_0)
    } else {
        r == m
    }
}

pub open spec fn impl_member_rewritten(r: Member, m: Member) -> bool {
    if is_async(m) {
        r matches Member::Method(x) && impl_method_rewritten(x, m->Method_0)
    } else {
        r == m
    }
}

/// `r` is the trait `t` with each asynchronous method rewritten in place and
/// its slot appended after all the members, in method order.
pub open spec fn trait_rewritten(t: TraitDecl, r: TraitDecl) -> bool {
    let ms = t.members@;
    &&& r.prefix == t.prefix
    &&& r.generics == t.generics
    &&& r.supertraits == t.supertraits
    &&& r.members@.len() == ms.len() + count_async(ms)
    &&& forall|i: int| 0 <= i < ms.len() ==> trait_member_rewritten(#[trigger] r.members@[i], ms[i])
    &&& forall|i: int|
        #![trigger ms[i]]
        0 <= i < ms.len() && is_async(ms[i]) ==> (r.members@[appended_at(ms, i)] matches Member::Slot(
            d,
        ) && slot_decl_for(d, ms[i]->Method_0, t.generics))
}

/// `r` is the implementation `t` with each asynchronous method rewritten in
/// place and its slot binding appended after all the members, in method order,
/// beside one alias per method, in a private module named after the trait
/// and the implementing type.
pub open spec fn impl_rewritten(t: ImplDecl, r: ImplOutput) -> bool {
    let ms = t.members@;
    &&& t.trait_path matches Some(p) && r.module@ == module_name(p@, t.self_ty@)
    &&& r.item.prefix == t.prefix
    &&& r.item.generics == t.generics
    &&& r.item.trait_path == t.trait_path
    &&& r.item.self_ty == t.self_ty
    &&& r.item.members@.len() == ms.len() + count_async(ms)
    &&& r.aliases@.len() == count_async(ms)
    &&& forall|i: int| 0 <= i < ms.len() ==> impl_member_rewritten(#[trigger] r.item.members@[i], ms[i])
    &&& forall|i: int|
        #![trigger ms[i]]
        0 <= i < ms.len() && is_async(ms[i]) ==> {
            &&& r.item.members@[appended_at(ms, i)] matches Member::Binding(b) && binding_for(
                b,
                ms[i]->Method_0,
                t.generics,
            )
            &&& alias_for(r.aliases@[count_async(ms.take(i)) as int], ms[i]->Method_0, t.generics)
        }
}

proof fn lemma_prefix_step(ms: Seq<Member>, k: int, in_trait: bool)
    requires
        0 <= k < ms.len(),
        members_pass(ms.take(k), in_trait),
        is_async(ms[k]) ==> method_passes(ms[k]->Method_0, in_trait),
    ensures
        members_pass(ms.take(k + 1), in_trait),
        count_async(ms.take(k + 1)) == count_async(ms.take(k)) + if is_async(ms[k]) {
            1nat
        } else {
            0nat
        },
{
    assert(ms.take(k + 1).drop_last() == ms.take(k));
    assert forall|i: int|
        0 <= i < ms.take(k + 1).len() && is_async(#[trigger] ms.take(k + 1)[i]) implies method_passes(
        ms.take(k + 1)[i]->Method_0,
        in_trait,
    ) by {
        if i < k {
            assert(ms.take(k)[i] == ms.take(k + 1)[i]);
        }
    }
}

/// Rewrites one asynchronous method of a trait and synthesizes its slot.
pub fn rewrite_trait_method(m: Method, decl: &Generics) -> (r: Result<(Method, SlotDecl), TransformError>)
    requires
        m.sig.asyncness,
    ensures
        r is Ok <==> method_passes(m, true),
        r matches Ok((x, d)) ==> trait_method_rewritten(x, m) && slot_decl_for(d, m, *decl),
        r matches Err(e) ==> method_error(m, true, e),
{
    let Method { attrs, qualifiers, sig, body } = m;
    let (kept, caps) = match take_capabilities(attrs) {
        Ok(p) => p,
        Err(e) => return Err(e),
    };
    match check_explicit_lifetimes(&sig) {
        Ok(()) => {},
        Err(site) => return Err(TransformError::MissingLifetime { method: sig.ident.clone(), site }),
    }
    let result = result_text_of(&sig.output);
    let (all, own) = lifetimes_in_scope(decl, &sig.generics);
    let bounds = make_bounds(result, &all, &caps);
    let ident = slot_ident(&sig.ident);
    let args = names_of(&own);
    let Signature { constness, asyncness: _, unsafety, abi, ident: name, generics, inputs, output: _ } = sig;
    let sig = Signature {
        constness,
        asyncness: false,
        unsafety,
        abi,
        ident: name,
        generics,
        inputs,
        output: ReturnType::Slot { ident: ident.clone(), args },
    };
    Ok((Method { attrs: kept, qualifiers, sig, body }, SlotDecl { ident, generics: own, bounds }))
}

/// Rewrites one asynchronous method of an implementation: its body is deferred,
/// its slot bound to a fresh alias.
pub fn rewrite_impl_method(m: Method, decl: &Generics) -> (r: Result<
    (Method, SlotBinding, AliasDecl),
    TransformError,
>)
    requires
        m.sig.asyncness,
    ensures
        r is Ok <==> method_passes(m, false),
        r matches Ok((x, b, a)) ==> impl_method_rewritten(x, m) && binding_for(b, m, *decl) && alias_for(
            a,
            m,
            *decl,
        ),
        r matches Err(e) ==> method_error(m, false, e),
{
    let Method { attrs, qualifiers, sig, body } = m;
    match check_explicit_lifetimes(&sig) {
        Ok(()) => {},
        Err(site) => return Err(TransformError::MissingLifetime { method: sig.ident.clone(), site }),
    }
    let result = result_text_of(&sig.output);
    let (all, own) = lifetimes_in_scope(decl, &sig.generics);
    let no_caps: Vec<Capability> = Vec::new();
    let bounds = make_bounds(result, &all, &no_caps);
    let ident = slot_ident(&sig.ident);
    let alias = alias_ident(&sig.ident);
    let args = names_of(&own);
    let alias_args = names_of(&all);
    let Signature { constness, asyncness: _, unsafety, abi, ident: name, generics, inputs, output: _ } = sig;
    let sig = Signature {
        constness,
        asyncness: false,
        unsafety,
        abi,
        ident: name,
        generics,
        inputs,
        output: ReturnType::Slot { ident: ident.clone(), args },
    };
    let body = match body {
        Body::Block(stmts) => Body::Deferred(stmts),
        other => other,
    };
    let binding = SlotBinding { ident, generics: own, alias: alias.clone(), alias_args };
    let alias_decl = AliasDecl { ident: alias, generics: all, bounds };
    Ok((Method { attrs, qualifiers, sig, body }, binding, alias_decl))
}

/// Rewrites every asynchronous method of a trait and appends their slots;
/// fails with the error of the first method that cannot be rewritten.
pub fn rewrite_trait(t: TraitDecl) -> (r: Result<TraitDecl, TransformError>)
    ensures
        r is Ok <==> members_pass(t.members@, true),
        r matches Ok(x) ==> trait_rewritten(t, x),
        r matches Err(e) ==> members_fail_with(t.members@, true, e),
{
    let TraitDecl { prefix, generics, supertraits, members } = t;
    let ghost orig = members@;
    let mut rest = members;
    let mut out: Vec<Member> = Vec::new();
    let mut slots: Vec<Member> = Vec::new();
    let total = rest.len();
    let mut k: usize = 0;
    while rest.len() > 0
        invariant
            orig == t.members@,
            generics == t.generics,
            orig.len() == total,
            k + rest@.len() == total,
            rest@ == orig.skip(k as int),
            out@.len() == k,
            forall|i: int| 0 <= i < k ==> trait_member_rewritten(#[trigger] out@[i], orig[i]),
            slots@.len() == count_async(orig.take(k as int)),
            forall|i: int|
                #![trigger orig[i]]
                0 <= i < k && is_async(orig[i]) ==> count_async(orig.take(i)) < slots@.len() && (slots@[count_async(
                    orig.take(i),
                ) as int] matches Member::Slot(d) && slot_decl_for(d, orig[i]->Method_0, generics)),
            members_pass(orig.take(k as int), true),
        decreases rest@.len(),
    {
        let m = rest.remove(0);
        assert(m == orig[k as int]);
        let ghost before = count_async(orig.take(k as int));
        match m {
            Member::Method(x) => {
                if x.sig.asyncness {
                    match rewrite_trait_method(x, &generics) {
                        Ok((nx, d)) => {
                            out.push(Member::Method(nx));
                            slots.push(Member::Slot(d));
                        },
                        Err(e) => {
                            assert(members_fail_with(orig, true, e)) by {
                                assert(is_async(orig[k as int]));
                            }
                            return Err(e);
                        },
                    }
                } else {
                    out.push(Member::Method(x));
                }
            },
            other => out.push(other),
        }
        proof {
            lemma_prefix_step(orig, k as int, true);
        }
        k += 1;
    }
    assert(orig.take(k as int) == orig);
    let ghost n = out@.len();
    let ghost methods = out@;
    let ghost appended = slots@;
    out.append(&mut slots);
    assert forall|i: int| 0 <= i < n implies out@[i] == methods[i] by {}
    assert forall|i: int| #![trigger orig[i]] 0 <= i < n && is_async(orig[i]) implies out@[appended_at(orig, i)]
        == appended[count_async(orig.take(i)) as int] by {}
    Ok(TraitDecl { prefix, generics, supertraits, members: out })
}

/// Rewrites every asynchronous method of an implementation of a trait, binds
/// their slots to fresh aliases, and puts it all in a private module; fails on
/// an inherent implementation, or with the error of the first method that
/// cannot be rewritten.
pub fn rewrite_impl(t: ImplDecl) -> (r: Result<ImplOutput, TransformError>)
    ensures
        r is Ok <==> t.trait_path is Some && members_pass(t.members@, false),
        r matches Ok(x) ==> impl_rewritten(t, x),
        t.trait_path is None ==> r == Err::<ImplOutput, TransformError>(TransformError::Shape),
        t.trait_path is Some && r is Err ==> members_fail_with(t.members@, false, r->Err_0),
{
    if t.trait_path.is_none() {
        return Err(TransformError::Shape);
    }
    let ImplDecl { prefix, generics, trait_path, self_ty, members } = t;
    let ghost orig = members@;
    let mut rest = members;
    let mut out: Vec<Member> = Vec::new();
    let mut bindings: Vec<Member> = Vec::new();
    let mut aliases: Vec<AliasDecl> = Vec::new();
    let total = rest.len();
    let mut k: usize = 0;
    while rest.len() > 0
        invariant
            orig == t.members@,
            t.trait_path is Some,
            generics == t.generics,
            orig.len() == total,
            k + rest@.len() == total,
            rest@ == orig.skip(k as int),
            out@.len() == k,
            forall|i: int| 0 <= i < k ==> impl_member_rewritten(#[trigger] out@[i], orig[i]),
            bindings@.len() == count_async(orig.take(k as int)),
            aliases@.len() == count_async(orig.take(k as int)),
            forall|i: int|
                #![trigger orig[i]]
                0 <= i < k && is_async(orig[i]) ==> {
                    &&& count_async(orig.take(i)) < bindings@.len()
                    &&& bindings@[count_async(orig.take(i)) as int] matches Member::Binding(b) && binding_for(
                        b,
                        orig[i]->Method_0,
                        generics,
                    )
                    &&& alias_for(aliases@[count_async(orig.take(i)) as int], orig[i]->Method_0, generics)
                },
            members_pass(orig.take(k as int), false),
        decreases rest@.len(),
    {
        let m = rest.remove(0);
        assert(m == orig[k as int]);
        match m {
            Member::Method(x) => {
                if x.sig.asyncness {
                    match rewrite_impl_method(x, &generics) {
                        Ok((nx, b, a)) => {
                            out.push(Member::Method(nx));
                            bindings.push(Member::Binding(b));
                            aliases.push(a);
                        },
                        Err(e) => {
                            assert(members_fail_with(orig, false, e)) by {
                                assert(is_async(orig[k as int]));
                            }
                            return Err(e);
                        },
                    }
                } else {
                    out.push(Member::Method(x));
                }
            },
            other => out.push(other),
        }
        proof {
            lemma_prefix_step(orig, k as int, false);
        }
        k += 1;
    }
    assert(orig.take(k as int) == orig);
    let ghost n = out@.len();
    let ghost methods = out@;
    let ghost appended = bindings@;
    out.append(&mut bindings);
    assert forall|i: int| 0 <= i < n implies out@[i] == methods[i] by {}
    assert forall|i: int| #![trigger orig[i]] 0 <= i < n && is_async(orig[i]) implies out@[appended_at(orig, i)]
        == appended[count_async(orig.take(i)) as int] by {}
    let item = ImplDecl { prefix, generics, trait_path, self_ty, members: out };
    let module = match &item.trait_path {
        Some(p) => module_ident(p, &item.self_ty),
        None => String::new(),
    };
    Ok(ImplOutput { module, item, aliases })
}

/// The item can be rewritten: it is a trait or an implementation of a trait
/// whose asynchronous methods can all be rewritten.
pub open spec fn item_passes(item: Item) -> bool {
    match item {
        Item::Trait(t) => members_pass(t.members@, true),
        Item::Impl(t) => t.trait_path is Some && members_pass(t.members@, false),
        Item::Other => false,
    }
}

/// `e` is the error that rewriting the failing item gives.
pub open spec fn item_fails_with(item: Item, e: TransformError) -> bool {
    match item {
        Item::Trait(t) => members_fail_with(t.members@, true, e),
        Item::Impl(t) => if t.trait_path is Some {
            members_fail_with(t.members@, false, e)
        } else {
            e == TransformError::Shape
        },
        Item::Other => e == TransformError::Shape,
    }
}

/// `o` is the rewritten item.
pub open spec fn item_rewritten(item: Item, o: Output) -> bool {
    match item {
        Item::Trait(t) => o matches Output::Trait(x) && trait_rewritten(t, x),
        Item::Impl(t) => o matches Output::Impl(x) && impl_rewritten(t, x),
        Item::Other => false,
    }
}

/// Rewrites a trait or an implementation of a trait; any other item is refused.
pub fn transform_item(item: Item) -> (r: Result<Output, TransformError>)
    ensures
        r is Ok <==> item_passes(item),
        r matches Ok(o) ==> item_rewritten(item, o),
        r matches Err(e) ==> item_fails_with(item, e),
{
    match item {
        Item::Trait(t) => match rewrite_trait(t) {
            Ok(x) => Ok(Output::Trait(x)),
            Err(e) => Err(e),
        },
        Item::Impl(t) => match rewrite_impl(t) {
            Ok(x) => Ok(Output::Impl(x)),
            Err(e) => Err(e),
        },
        Item::Other => Err(TransformError::Shape),
    }
}

} // verus!
