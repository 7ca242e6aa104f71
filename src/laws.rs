//! What holds of the rewriting for every input.
use crate::annotation::{distinct_capabilities, first_bad_token, token_error, lemma_distinct_capabilities, marker_tokens, token_capability, tokens_recognized};
use crate::lifetimes::{in_scope, sig_explicit};
use crate::rewrite::{
    appended_at, binding_for, count_async, deferred, impl_rewritten, is_async, members_fail_with,
    members_pass, method_passes, trait_rewritten,
};
use crate::slot::{alias_name, result_text, slot_name};
use crate::syntax::{AttrToken, Bound, Capability, ImplDecl, ImplOutput, Member, ReturnType, TraitDecl, TransformError};
use vstd::prelude::*;

verus! {

proof fn lemma_no_async_count(ms: Seq<Member>)
    requires
        forall|i: int| 0 <= i < ms.len() ==> !is_async(#[trigger] ms[i]),
    ensures
        count_async(ms) == 0,
    decreases ms.len(),
{
    if ms.len() > 0 {
        assert(!is_async(ms[ms.len() - 1]));
        lemma_no_async_count(ms.drop_last());
    }
}

/// Counting asynchronous methods over a longer prefix gives no fewer, and one
/// more for each asynchronous method passed.
proof fn lemma_count_prefix(ms: Seq<Member>, i: int, j: int)
    requires
        0 <= i < j <= ms.len(),
    ensures
        count_async(ms.take(i)) + (if is_async(ms[i]) { 1nat } else { 0nat }) <= count_async(ms.take(j)),
    decreases j - i,
{
    assert(ms.take(j).drop_last() == ms.take(j - 1));
    assert(ms.take(j).last() == ms[j - 1]);
    if i < j - 1 {
        lemma_count_prefix(ms, i, j - 1);
    }
}

/// A trait without asynchronous methods is rewritten successfully, and comes
/// out exactly as it went in: no member is touched and none is added.
pub proof fn lemma_trait_without_async_unchanged(t: TraitDecl, r: TraitDecl)
    requires
        forall|i: int| 0 <= i < t.members@.len() ==> !is_async(#[trigger] t.members@[i]),
    ensures
        members_pass(t.members@, true),
        trait_rewritten(t, r) ==> {
            &&& r.prefix == t.prefix
            &&& r.generics == t.generics
            &&& r.supertraits == t.supertraits
            &&& r.members@ == t.members@
        },
{
    lemma_no_async_count(t.members@);
    if trait_rewritten(t, r) {
        assert forall|i: int| 0 <= i < t.members@.len() implies r.members@[i] == t.members@[i] by {
            assert(!is_async(t.members@[i]));
        }
        assert(r.members@ =~= t.members@);
    }
}

/// Each asynchronous method of a rewritten trait loses its marker and returns
/// the slot named after it, which is appended to the trait and bounded first
/// by a future producing the method's declared result.
pub proof fn lemma_async_method_returns_its_slot(t: TraitDecl, r: TraitDecl, i: int)
    requires
        trait_rewritten(t, r),
        0 <= i < t.members@.len(),
        is_async(t.members@[i]),
    ensures
        r.members@[i] matches Member::Method(x) && !x.sig.asyncness && (x.sig.output matches ReturnType::Slot {
            ident,
            args,
        } && ident@ == slot_name(t.members@[i]->Method_0.sig.ident@) && exists|j: int|
            #![trigger r.members@[j]]
            t.members@.len() <= j < r.members@.len() && (r.members@[j] matches Member::Slot(d) && d.ident@
                == ident@ && (d.bounds@[0] matches Bound::Future(f) && f@ == result_text(
                t.members@[i]->Method_0.sig.output,
            )))),
{
    let ms = t.members@;
    lemma_count_prefix(ms, i, ms.len() as int);
    assert(ms.take(ms.len() as int) == ms);
    let j = appended_at(ms, i);
    assert(r.members@[j] matches Member::Slot(_));
}

/// Some bound among `bs` is the capability `c`.
pub open spec fn bounds_give(bs: Seq<Bound>, c: Capability) -> bool {
    exists|k: int| 0 <= k < bs.len() && #[trigger] bs[k] == Bound::Capability(c)
}

/// Some token among `ts` names the capability `c`.
pub open spec fn tokens_name(ts: Seq<AttrToken>, c: Capability) -> bool {
    exists|j: int| 0 <= j < ts.len() && #[trigger] token_capability(ts[j]) == Some(c)
}

/// The slot of an asynchronous method carries one capability bound for each
/// capability that its annotations name, however often it is named, and no
/// other.
pub proof fn lemma_slot_capabilities_once(t: TraitDecl, r: TraitDecl, i: int)
    requires
        trait_rewritten(t, r),
        0 <= i < t.members@.len(),
        is_async(t.members@[i]),
    ensures
        r.members@[appended_at(t.members@, i)] matches Member::Slot(d) && ({
            let ts = marker_tokens(t.members@[i]->Method_0.attrs@);
            &&& forall|k: int, l: int|
                0 <= k < d.bounds@.len() && 0 <= l < d.bounds@.len() && k != l && d.bounds@[k] is Capability
                    ==> #[trigger] d.bounds@[k] != #[trigger] d.bounds@[l]
            &&& forall|c: Capability| #[trigger] bounds_give(d.bounds@, c) <==> tokens_name(ts, c)
        }),
{
    let ms = t.members@;
    let m = ms[i]->Method_0;
    let ts = marker_tokens(m.attrs@);
    let caps = distinct_capabilities(ts);
    let lts = in_scope(t.generics, m.sig.generics);
    lemma_distinct_capabilities(ts);
    let d = r.members@[appended_at(ms, i)]->Slot_0;
    let bs = d.bounds@;
    let base = 1 + lts.len();
    assert forall|k: int| 0 <= k < bs.len() && bs[k] is Capability implies base <= k && bs[k] == Bound::Capability(
        caps[k - base],
    ) by {
        if k >= base {
            assert(bs[base + (k - base)] == Bound::Capability(caps[k - base]));
        } else if k >= 1 {
            assert(bs[1 + (k - 1)] == Bound::Lifetime(lts[k - 1].name));
        }
    }
    assert forall|k: int, l: int|
        0 <= k < bs.len() && 0 <= l < bs.len() && k != l && bs[k] is Capability implies #[trigger] bs[k]
        != #[trigger] bs[l] by {
        if bs[l] is Capability {
            assert(caps[k - base] != caps[l - base]);
        }
    }
    assert forall|c: Capability| #[trigger] bounds_give(bs, c) <==> tokens_name(ts, c) by {
        if exists|k: int| 0 <= k < bs.len() && #[trigger] bs[k] == Bound::Capability(c) {
            let k = choose|k: int| 0 <= k < bs.len() && #[trigger] bs[k] == Bound::Capability(c);
            assert(caps.contains(c)) by {
                assert(caps[k - base] == c);
            }
        }
        if caps.contains(c) {
            let x = choose|x: int| 0 <= x < caps.len() && caps[x] == c;
            assert(bs[base + x] == Bound::Capability(caps[x]));
        }
    }
}

/// Every appended position stands for some asynchronous method.
proof fn lemma_count_reaches(ms: Seq<Member>, c: int)
    requires
        0 <= c < count_async(ms),
    ensures
        exists|i: int| 0 <= i < ms.len() && is_async(ms[i]) && #[trigger] count_async(ms.take(i)) == c,
    decreases ms.len(),
{
    let init = ms.drop_last();
    let last = ms.len() - 1;
    assert(ms.take(last) == init);
    if c < count_async(init) {
        lemma_count_reaches(init, c);
        let i = choose|i: int| 0 <= i < init.len() && is_async(init[i]) && #[trigger] count_async(init.take(i)) == c;
        assert(init.take(i) == ms.take(i));
        assert(ms[i] == init[i]);
    } else {
        assert(ms[last] == ms.last());
        assert(count_async(ms.take(last)) == c);
    }
}

/// In a trait whose asynchronous methods have distinct names, the slot named
/// after a method is appended at one place only: the place of that method.
pub proof fn lemma_slot_name_unique(t: TraitDecl, r: TraitDecl, i: int, j: int)
    requires
        trait_rewritten(t, r),
        forall|a: int, b: int|
            0 <= a < t.members@.len() && 0 <= b < t.members@.len() && a != b && is_async(#[trigger] t.members@[a])
                && is_async(#[trigger] t.members@[b]) ==> t.members@[a]->Method_0.sig.ident@
                != t.members@[b]->Method_0.sig.ident@,
        0 <= i < t.members@.len(),
        is_async(t.members@[i]),
        t.members@.len() <= j < r.members@.len(),
        r.members@[j] matches Member::Slot(d) && d.ident@ == slot_name(t.members@[i]->Method_0.sig.ident@),
    ensures
        j == appended_at(t.members@, i),
{
    let ms = t.members@;
    let c = j - ms.len();
    lemma_count_reaches(ms, c);
    let k = choose|k: int| 0 <= k < ms.len() && is_async(ms[k]) && #[trigger] count_async(ms.take(k)) == c;
    assert(appended_at(ms, k) == j);
    let p = "__real_async_trait_impl_TypeFor_"@;
    let a = ms[i]->Method_0.sig.ident@;
    let b = ms[k]->Method_0.sig.ident@;
    assert(a =~= slot_name(a).skip(p.len() as int));
    assert(b =~= slot_name(b).skip(p.len() as int));
    if k != i {
        assert(a != b);
    }
}

/// The error of an annotation is that of its first token naming no
/// capability: an identifier gives an unrecognized-capability error naming it,
/// punctuation a malformed-annotation error.
pub proof fn lemma_first_bad_token_error(ts: Seq<AttrToken>, e: TransformError, i: int)
    requires
        first_bad_token(ts, e),
        0 <= i < ts.len(),
        token_capability(ts[i]) is None,
        forall|j: int| 0 <= j < i ==> (#[trigger] token_capability(ts[j])) is Some,
    ensures
        token_error(ts[i], e),
        ts[i] matches AttrToken::Ident(x) ==> e == TransformError::UnrecognizedCapability(x),
{
    let w = choose|w: int|
        0 <= w < ts.len() && (#[trigger] token_capability(ts[w])) is None && token_error(ts[w], e)
            && forall|j: int| 0 <= j < w ==> (#[trigger] token_capability(ts[j])) is Some;
    if w < i {
        assert(token_capability(ts[w]) is Some);
    } else if w > i {
        assert(token_capability(ts[i]) is Some);
    }
}

/// A method whose signature leaves out a lifetime makes the rewriting fail,
/// and where no annotation before it is at fault, it fails with a
/// missing-lifetime error.
pub proof fn lemma_missing_lifetime_fails(ms: Seq<Member>, in_trait: bool, i: int)
    requires
        0 <= i < ms.len(),
        is_async(ms[i]),
        !sig_explicit(ms[i]->Method_0.sig),
        in_trait ==> forall|j: int|
            0 <= j < ms.len() && is_async(#[trigger] ms[j]) ==> tokens_recognized(
                marker_tokens(ms[j]->Method_0.attrs@),
            ),
    ensures
        !members_pass(ms, in_trait),
        forall|e: TransformError| #[trigger] members_fail_with(ms, in_trait, e) ==> e is MissingLifetime,
{
    assert(!method_passes(ms[i]->Method_0, in_trait));
    assert forall|e: TransformError| #[trigger] members_fail_with(ms, in_trait, e) implies e is MissingLifetime by {
        let k = choose|k: int|
            0 <= k < ms.len() && is_async(#[trigger] ms[k]) && !method_passes(ms[k]->Method_0, in_trait)
                && crate::rewrite::method_error(ms[k]->Method_0, in_trait, e) && members_pass(ms.take(k), in_trait);
        assert(is_async(ms[k]));
    }
}

/// An annotation token that names no capability makes the rewriting of a trait
/// fail: the annotation is never dropped in silence.
pub proof fn lemma_unrecognized_annotation_fails(ms: Seq<Member>, i: int)
    requires
        0 <= i < ms.len(),
        is_async(ms[i]),
        !tokens_recognized(marker_tokens(ms[i]->Method_0.attrs@)),
    ensures
        !members_pass(ms, true),
{
    assert(!method_passes(ms[i]->Method_0, true));
}

/// Each asynchronous method of a rewritten implementation has as body exactly
/// the statements it was written with, inside `async move`, and its slot is bound to an
/// alias named after it, declared beside the implementation.
pub proof fn lemma_impl_method_deferred(t: ImplDecl, r: ImplOutput, i: int)
    requires
        impl_rewritten(t, r),
        0 <= i < t.members@.len(),
        is_async(t.members@[i]),
    ensures
        r.item.members@[i] matches Member::Method(x) && x.body == deferred(t.members@[i]->Method_0.body),
        ({
            let ci = count_async(t.members@.take(i)) as int;
            &&& ci < r.aliases@.len()
            &&& r.item.members@[appended_at(t.members@, i)] matches Member::Binding(b) && binding_for(
                b,
                t.members@[i]->Method_0,
                t.generics,
            ) && b.alias@ == r.aliases@[ci].ident@
            &&& r.aliases@[ci].ident@ == alias_name(t.members@[i]->Method_0.sig.ident@)
        }),
{
    let ms = t.members@;
    lemma_count_prefix(ms, i, ms.len() as int);
    assert(ms.take(ms.len() as int) == ms);
}

/// Two asynchronous methods of a rewritten implementation get aliases of their
/// own, and where their names differ, so do their aliases' names.
pub proof fn lemma_impl_aliases_distinct(t: ImplDecl, r: ImplOutput, i: int, j: int)
    requires
        impl_rewritten(t, r),
        0 <= i < j < t.members@.len(),
        is_async(t.members@[i]),
        is_async(t.members@[j]),
    ensures
        ({
            let ci = count_async(t.members@.take(i)) as int;
            let cj = count_async(t.members@.take(j)) as int;
            &&& ci < cj < r.aliases@.len()
            &&& t.members@[i]->Method_0.sig.ident@ != t.members@[j]->Method_0.sig.ident@ ==> r.aliases@[ci].ident@
                != r.aliases@[cj].ident@
        }),
{
    let ms = t.members@;
    lemma_count_prefix(ms, i, j);
    lemma_count_prefix(ms, j, ms.len() as int);
    assert(ms.take(ms.len() as int) == ms);
    let p = "__real_async_trait_impl_ExistentialTypeFor_"@;
    let a = ms[i]->Method_0.sig.ident@;
    let b = ms[j]->Method_0.sig.ident@;
    if alias_name(a) == alias_name(b) {
        assert(a =~= alias_name(a).skip(p.len() as int));
        assert(b =~= alias_name(b).skip(p.len() as int));
    }
}

} // verus!
