//! Which lifetimes are in scope for a method, and the rule that every reference in
//! a rewritten signature names its lifetime.
use crate::syntax::{Fragment, GenericParam, Generics, LifetimeParam, RefSite, ReturnType, Signature};
use vstd::prelude::*;

verus! {

/// The lifetime parameters among `ps`, in order.
pub open spec fn lifetime_params(ps: Seq<GenericParam>) -> Seq<LifetimeParam>
    decreases ps.len(),
{
    if ps.len() == 0 {
        Seq::empty()
    } else {
        let rest = lifetime_params(ps.drop_last());
        match ps.last() {
            GenericParam::Lifetime(l) => rest.push(l),
            GenericParam::Other(_) => rest,
        }
    }
}

/// The lifetimes a method's slot is bounded by: those of the enclosing
/// declaration, then the method's own, with no deduplication.
pub open spec fn in_scope(decl: Generics, method: Generics) -> Seq<LifetimeParam> {
    lifetime_params(decl.params@) + lifetime_params(method.params@)
}

pub open spec fn own_lifetimes(method: Generics) -> Seq<LifetimeParam> {
    lifetime_params(method.params@)
}

pub open spec fn lifetime_names(ls: Seq<LifetimeParam>) -> Seq<String> {
    ls.map_values(|l: LifetimeParam| l.name)
}

/// The lifetime parameters of `g`, in order.
pub fn lifetimes_of(g: &Generics) -> (r: Vec<LifetimeParam>)
    ensures
        r@ == lifetime_params(g.params@),
{
    let mut r: Vec<LifetimeParam> = Vec::new();
    let mut i: usize = 0;
    while i < g.params.len()
        invariant
            i <= g.params@.len(),
            r@ == lifetime_params(g.params@.take(i as int)),
        decreases g.params@.len() - i,
    {
        assert(g.params@.take(i as int + 1).drop_last() == g.params@.take(i as int));
        match &g.params[i] {
            GenericParam::Lifetime(l) => r.push(l.copy()),
            GenericParam::Other(_) => {},
        }
        i += 1;
    }
    assert(g.params@.take(i as int) == g.params@);
    r
}

/// Splits the lifetimes visible to a method: all of them (the declaration's
/// first), and the method's own.
pub fn lifetimes_in_scope(decl: &Generics, method: &Generics) -> (r: (
    Vec<LifetimeParam>,
    Vec<LifetimeParam>,
))
    ensures
        r.0@ == in_scope(*decl, *method),
        r.1@ == own_lifetimes(*method),
{
    let mut all = lifetimes_of(decl);
    let own = lifetimes_of(method);
    let mut i: usize = 0;
    let ghost start = all@;
    while i < own.len()
        invariant
            i <= own@.len(),
            all@ == start + own@.take(i as int),
        decreases own@.len() - i,
    {
        all.push(own[i].copy());
        assert(own@.take(i as int + 1) == own@.take(i as int).push(own@[i as int]));
        i += 1;
    }
    assert(own@.take(i as int) == own@);
    (all, own)
}

/// The names of `ls`, in order.
pub fn names_of(ls: &Vec<LifetimeParam>) -> (r: Vec<String>)
    ensures
        r@ == lifetime_names(ls@),
{
    let mut r: Vec<String> = Vec::new();
    let mut i: usize = 0;
    while i < ls.len()
        invariant
            i <= ls@.len(),
            r@ == lifetime_names(ls@.take(i as int)),
        decreases ls@.len() - i,
    {
        r.push(ls[i].name.clone());
        assert(lifetime_names(ls@.take(i as int + 1)) =~= lifetime_names(ls@.take(i as int)).push(
            ls@[i as int].name,
        ));
        i += 1;
    }
    assert(ls@.take(i as int) == ls@);
    r
}

pub open spec fn fragment_explicit(f: Fragment) -> bool {
    forall|j: int| 0 <= j < f.refs@.len() ==> (#[trigger] f.refs@[j]).lifetime is Some
}

pub open spec fn output_explicit(o: ReturnType) -> bool {
    match o {
        ReturnType::Type(f) => fragment_explicit(f),
        _ => true,
    }
}

/// Every reference in the parameters (the receiver included) and in the result
/// type names its lifetime.
pub open spec fn sig_explicit(s: Signature) -> bool {
    &&& forall|i: int| 0 <= i < s.inputs@.len() ==> fragment_explicit(#[trigger] s.inputs@[i])
    &&& output_explicit(s.output)
}

pub open spec fn output_refs(o: ReturnType) -> Seq<RefSite> {
    match o {
        ReturnType::Type(f) => f.refs@,
        _ => Seq::empty(),
    }
}

/// `site` is a reference without a lifetime written in `s`.
pub open spec fn missing_in_sig(s: Signature, site: RefSite) -> bool {
    &&& site.lifetime is None
    &&& {
        ||| exists|i: int, j: int|
            0 <= i < s.inputs@.len() && 0 <= j < s.inputs@[i].refs@.len() && #[trigger] s.inputs@[i].refs@[j]
                == site
        ||| exists|j: int| 0 <= j < output_refs(s.output).len() && #[trigger] output_refs(s.output)[j] == site
    }
}

fn first_missing(f: &Fragment) -> (r: Option<RefSite>)
    ensures
        r is None <==> fragment_explicit(*f),
        r matches Some(site) ==> site.lifetime is None && exists|j: int|
            0 <= j < f.refs@.len() && #[trigger] f.refs@[j] == site,
{
    let mut j: usize = 0;
    while j < f.refs.len()
        invariant
            j <= f.refs@.len(),
            forall|k: int| 0 <= k < j ==> (#[trigger] f.refs@[k]).lifetime is Some,
        decreases f.refs@.len() - j,
    {
        if f.refs[j].lifetime.is_none() {
            let site = f.refs[j].copy();
            assert(f.refs@[j as int] == site);
            return Some(site);
        }
        j += 1;
    }
    None
}

/// Finds a reference without an explicit lifetime in `sig`, if there is one.
pub fn check_explicit_lifetimes(sig: &Signature) -> (r: Result<(), RefSite>)
    ensures
        r is Ok <==> sig_explicit(*sig),
        r matches Err(site) ==> missing_in_sig(*sig, site),
{
    let mut i: usize = 0;
    while i < sig.inputs.len()
        invariant
            i <= sig.inputs@.len(),
            forall|k: int| 0 <= k < i ==> fragment_explicit(#[trigger] sig.inputs@[k]),
        decreases sig.inputs@.len() - i,
    {
        match first_missing(&sig.inputs[i]) {
            Some(site) => {
                assert(!fragment_explicit(sig.inputs@[i as int]));
                let ghost j = choose|j: int|
                    0 <= j < sig.inputs@[i as int].refs@.len() && #[trigger] sig.inputs@[i as int].refs@[j]
                        == site;
                assert(sig.inputs@[i as int].refs@[j] == site);
                return Err(site);
            },
            None => {},
        }
        i += 1;
    }
    match &sig.output {
        ReturnType::Type(f) => match first_missing(f) {
            Some(site) => {
                let ghost j = choose|j: int| 0 <= j < f.refs@.len() && #[trigger] f.refs@[j] == site;
                assert(output_refs(sig.output)[j] == site);
                Err(site)
            },
            None => Ok(()),
        },
        _ => Ok(()),
    }
}

} // verus!
