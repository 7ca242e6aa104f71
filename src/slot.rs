//! The per-method slot: its name, the result it stands for, and its bounds.
use crate::syntax::{Bound, Capability, LifetimeParam, ReturnType};
use crate::text::{joined, prefixed, push_joined, views};
use vstd::prelude::*;
use vstd::string::*;

verus! {

/// The name of the associated type that stands for a method's computation.
pub open spec fn slot_name(ident: Seq<char>) -> Seq<char> {
    "__real_async_trait_impl_TypeFor_"@ + ident
}

/// The name of the opaque alias that an implementation binds a slot to.
pub open spec fn alias_name(ident: Seq<char>) -> Seq<char> {
    "__real_async_trait_impl_ExistentialTypeFor_"@ + ident
}

/// `Self::<ident><args>`.
pub open spec fn slot_path(ident: Seq<char>, args: Seq<String>) -> Seq<char> {
    "Self::"@ + ident + "<"@ + joined(views(args), ", "@) + ">"@
}

/// The text of the type a method produces; `()` when it declares none.
pub open spec fn result_text(o: ReturnType) -> Seq<char> {
    match o {
        ReturnType::Unit => "()"@,
        ReturnType::Type(f) => f.tokens@,
        ReturnType::Slot { ident, args } => slot_path(ident@, args@),
    }
}

/// The bounds of a slot, in their fixed order: the result first, then the
/// lifetimes, then the capabilities.
pub open spec fn bounds_are(
    bs: Seq<Bound>,
    result: Seq<char>,
    lts: Seq<LifetimeParam>,
    caps: Seq<Capability>,
) -> bool {
    &&& bs.len() == 1 + lts.len() + caps.len()
    &&& bs[0] matches Bound::Future(t) && t@ == result
    &&& forall|i: int| 0 <= i < lts.len() ==> bs[1 + i] == Bound::Lifetime(#[trigger] lts[i].name)
    &&& forall|i: int| 0 <= i < caps.len() ==> bs[1 + lts.len() + i] == Bound::Capability(#[trigger] caps[i])
}

pub fn slot_ident(ident: &String) -> (r: String)
    ensures
        r@ == slot_name(ident@),
{
    prefixed("__real_async_trait_impl_TypeFor_", ident.as_str())
}

pub fn alias_ident(ident: &String) -> (r: String)
    ensures
        r@ == alias_name(ident@),
{
    prefixed("__real_async_trait_impl_ExistentialTypeFor_", ident.as_str())
}

/// Appends `Self::<ident><args>` to `out`.
pub fn push_slot_path(out: &mut String, ident: &String, args: &Vec<String>)
    ensures
        final(out)@ == old(out)@ + slot_path(ident@, args@),
{
    out.append("Self::");
    out.append(ident.as_str());
    out.append("<");
    push_joined(out, args, ", ");
    out.append(">");
}

pub fn result_text_of(o: &ReturnType) -> (r: String)
    ensures
        r@ == result_text(*o),
{
    match o {
        ReturnType::Unit => String::from_str("()"),
        ReturnType::Type(f) => f.tokens.clone(),
        ReturnType::Slot { ident, args } => {
            let mut r = String::new();
            push_slot_path(&mut r, ident, args);
            r
        },
    }
}

/// The bounds of a slot that produces `result`, outlives `lts` and gives `caps`.
pub fn make_bounds(result: String, lts: &Vec<LifetimeParam>, caps: &Vec<Capability>) -> (r: Vec<Bound>)
    ensures
        bounds_are(r@, result@, lts@, caps@),
{
    let ghost result_view = result@;
    let mut r: Vec<Bound> = Vec::new();
    r.push(Bound::Future(result));
    let mut i: usize = 0;
    while i < lts.len()
        invariant
            i <= lts@.len(),
            r@.len() == 1 + i,
            r@[0] matches Bound::Future(t) && t@ == result_view,
            forall|j: int| 0 <= j < i ==> r@[1 + j] == Bound::Lifetime(#[trigger] lts@[j].name),
        decreases lts@.len() - i,
    {
        r.push(Bound::Lifetime(lts[i].name.clone()));
        i += 1;
    }
    let mut i: usize = 0;
    while i < caps.len()
        invariant
            i <= caps@.len(),
            r@.len() == 1 + lts@.len() + i,
            r@[0] matches Bound::Future(t) && t@ == result_view,
            forall|j: int| 0 <= j < lts@.len() ==> r@[1 + j] == Bound::Lifetime(#[trigger] lts@[j].name),
            forall|j: int| 0 <= j < i ==> r@[1 + lts@.len() + j] == Bound::Capability(#[trigger] caps@[j]),
        decreases caps@.len() - i,
    {
        r.push(Bound::Capability(caps[i]));
        i += 1;
    }
    r
}

/// `c` where it may stand in an identifier, `_` in its place otherwise.
pub open spec fn ident_char(c: char) -> char {
    let u = c as u32;
    if (48 <= u <= 57) || (65 <= u <= 90) || (97 <= u <= 122) || u == 95 {
        c
    } else {
        '_'
    }
}

/// `s` with every character that cannot stand in an identifier replaced by `_`.
pub open spec fn ident_text(s: Seq<char>) -> Seq<char> {
    s.map_values(|c: char| ident_char(c))
}

/// The name of the private module around an implementation of `trait_path`
/// for `self_ty`.
pub open spec fn module_name(trait_path: Seq<char>, self_ty: Seq<char>) -> Seq<char> {
    "__real_async_trait_impl_"@ + ident_text(trait_path) + "_for_"@ + ident_text(self_ty)
}

/// Appends `s` to `out`, with `_` for each character that cannot stand in an
/// identifier.
fn push_ident_text(out: &mut String, s: &str)
    ensures
        final(out)@ == old(out)@ + ident_text(s@),
{
    let ghost start = out@;
    let n = s.unicode_len();
    let mut i: usize = 0;
    while i < n
        invariant
            n == s@.len(),
            i <= n,
            out@ == start + ident_text(s@.take(i as int)),
        decreases n - i,
    {
        let c = s.get_char(i);
        let u = c as u32;
        if (48 <= u && u <= 57) || (65 <= u && u <= 90) || (97 <= u && u <= 122) || u == 95 {
            let piece = s.substring_char(i, i + 1);
            assert(piece@ =~= seq![ident_char(c)]);
            out.append(piece);
        } else {
            out.append("_");
            proof {
                reveal_strlit("_");
            }
            assert("_"@ =~= seq![ident_char(c)]);
        }
        assert(ident_text(s@.take(i as int + 1)) =~= ident_text(s@.take(i as int)).push(ident_char(c)));
        i += 1;
    }
    assert(s@.take(i as int) == s@);
}

/// The name of the private module around an implementation of `trait_path`
/// for `self_ty`.
pub fn module_ident(trait_path: &String, self_ty: &String) -> (r: String)
    ensures
        r@ == module_name(trait_path@, self_ty@),
{
    let mut r = String::from_str("__real_async_trait_impl_");
    push_ident_text(&mut r, trait_path.as_str());
    r.append("_for_");
    push_ident_text(&mut r, self_ty.as_str());
    r
}

} // verus!
