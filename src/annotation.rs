//! The per-method `#[real_async_trait(..)]` annotation: which capabilities it asks
//! for, and its removal from the method's attributes.
use crate::syntax::{AttrArg, AttrToken, Attribute, Capability, TransformError};
use vstd::prelude::*;
use vstd::string::*;

verus! {

/// `c` is `k`, or `k` is a lower-case ASCII letter and `c` its capital.
pub open spec fn char_matches_ignoring_case(c: char, k: char) -> bool {
    c == k || (97 <= k as u32 <= 122 && c as u32 == k as u32 - 32)
}

/// `s` spells the lower-case keyword `k`, ignoring ASCII case.
pub open spec fn spells_keyword(s: Seq<char>, k: Seq<char>) -> bool {
    &&& s.len() == k.len()
    &&& forall|i: int| 0 <= i < s.len() ==> char_matches_ignoring_case(s[i], k[i])
}

/// The capability that a keyword names, if any.
pub open spec fn capability_named(s: Seq<char>) -> Option<Capability> {
    if spells_keyword(s, "send"@) {
        Some(Capability::Send)
    } else {
        None
    }
}

/// `c` is white space as Rust's `char::is_whitespace` has it (the Unicode
/// `White_Space` property).
pub open spec fn is_white_space(c: char) -> bool {
    let u = c as u32;
    ||| 9 <= u <= 13
    ||| u == 32
    ||| u == 0x85
    ||| u == 0xA0
    ||| u == 0x1680
    ||| 0x2000 <= u <= 0x200A
    ||| u == 0x2028
    ||| u == 0x2029
    ||| u == 0x202F
    ||| u == 0x205F
    ||| u == 0x3000
}

pub open spec fn trim_start(s: Seq<char>) -> Seq<char>
    decreases s.len(),
{
    if s.len() > 0 && is_white_space(s[0]) {
        trim_start(s.drop_first())
    } else {
        s
    }
}

pub open spec fn trim_end(s: Seq<char>) -> Seq<char>
    decreases s.len(),
{
    if s.len() > 0 && is_white_space(s.last()) {
        trim_end(s.drop_last())
    } else {
        s
    }
}

/// `s` without white space at either end.
pub open spec fn trimmed(s: Seq<char>) -> Seq<char> {
    trim_end(trim_start(s))
}

/// The capability that one annotation token names; only a bare identifier
/// can name one.
pub open spec fn token_capability(t: AttrToken) -> Option<Capability> {
    match t {
        AttrToken::Ident(s) => capability_named(trimmed(s@)),
        _ => None,
    }
}

/// The error that an unrecognized token `t` gives.
pub open spec fn token_error(t: AttrToken, e: TransformError) -> bool {
    match t {
        AttrToken::Ident(s) => e == TransformError::UnrecognizedCapability(s),
        AttrToken::Literal(s) => e == TransformError::UnrecognizedCapability(s),
        AttrToken::Punct(c) => e == TransformError::MalformedAnnotation(c),
        AttrToken::Group(c) => e == TransformError::MalformedAnnotation(c),
    }
}

/// An attribute `#[real_async_trait]` or `#[real_async_trait(..)]`.
pub open spec fn is_marker(a: Attribute) -> bool {
    a.simple_name matches Some(n) && n@ == "real_async_trait"@
}

/// The tokens of an attribute's arguments, each delimited group replaced by
/// the tokens it encloses.
pub open spec fn arg_tokens(args: Seq<AttrArg>) -> Seq<AttrToken>
    decreases args.len(),
{
    if args.len() == 0 {
        Seq::empty()
    } else {
        match args.last() {
            AttrArg::Token(t) => arg_tokens(args.drop_last()).push(t),
            AttrArg::Group(ts) => arg_tokens(args.drop_last()) + ts@,
        }
    }
}

/// The argument tokens of all annotations among `attrs`, in order.
pub open spec fn marker_tokens(attrs: Seq<Attribute>) -> Seq<AttrToken>
    decreases attrs.len(),
{
    if attrs.len() == 0 {
        Seq::empty()
    } else if is_marker(attrs.last()) {
        marker_tokens(attrs.drop_last()) + arg_tokens(attrs.last().args@)
    } else {
        marker_tokens(attrs.drop_last())
    }
}

/// The attributes that are not annotations, in order.
pub open spec fn kept_attrs(attrs: Seq<Attribute>) -> Seq<Attribute>
    decreases attrs.len(),
{
    if attrs.len() == 0 {
        Seq::empty()
    } else if is_marker(attrs.last()) {
        kept_attrs(attrs.drop_last())
    } else {
        kept_attrs(attrs.drop_last()).push(attrs.last())
    }
}

pub open spec fn tokens_recognized(ts: Seq<AttrToken>) -> bool {
    forall|i: int| 0 <= i < ts.len() ==> (#[trigger] token_capability(ts[i])) is Some
}

/// The capabilities that `ts` names, each once, in order of first mention.
pub open spec fn distinct_capabilities(ts: Seq<AttrToken>) -> Seq<Capability>
    decreases ts.len(),
{
    if ts.len() == 0 {
        Seq::empty()
    } else {
        let rest = distinct_capabilities(ts.drop_last());
        match token_capability(ts.last()) {
            Some(c) => if rest.contains(c) {
                rest
            } else {
                rest.push(c)
            },
            None => rest,
        }
    }
}

/// `e` is the error of the first token of `ts` that names no capability.
pub open spec fn first_bad_token(ts: Seq<AttrToken>, e: TransformError) -> bool {
    exists|i: int|
        0 <= i < ts.len() && (#[trigger] token_capability(ts[i])) is None && token_error(ts[i], e)
            && forall|j: int| 0 <= j < i ==> (#[trigger] token_capability(ts[j])) is Some
}

/// Each capability stands once among those collected from an annotation, and
/// exactly the capabilities that some token names stand there.
pub proof fn lemma_distinct_capabilities(ts: Seq<AttrToken>)
    ensures
        distinct_capabilities(ts).no_duplicates(),
        forall|c: Capability|
            distinct_capabilities(ts).contains(c) <==> exists|i: int|
                0 <= i < ts.len() && #[trigger] token_capability(ts[i]) == Some(c),
    decreases ts.len(),
{
    if ts.len() > 0 {
        let init = ts.drop_last();
        let rest = distinct_capabilities(init);
        let last = ts.len() - 1;
        lemma_distinct_capabilities(init);
        assert(ts[last] == ts.last());
        if let Some(d) = token_capability(ts.last()) {
            if !rest.contains(d) {
                assert forall|x: int, y: int|
                    0 <= x < rest.push(d).len() && 0 <= y < rest.push(d).len() && x != y implies rest.push(
                    d,
                )[x] != rest.push(d)[y] by {
                    if x == rest.len() {
                        assert(rest.push(d)[y] == rest[y]);
                    } else if y == rest.len() {
                        assert(rest.push(d)[x] == rest[x]);
                    }
                }
            }
        }
        assert forall|c: Capability|
            distinct_capabilities(ts).contains(c) <==> exists|i: int|
                0 <= i < ts.len() && #[trigger] token_capability(ts[i]) == Some(c) by {
            if rest.contains(c) {
                let i = choose|i: int| 0 <= i < init.len() && #[trigger] token_capability(init[i]) == Some(c);
                assert(token_capability(ts[i]) == Some(c));
            } else if distinct_capabilities(ts).contains(c) {
                let k = choose|k: int| 0 <= k < distinct_capabilities(ts).len() && distinct_capabilities(ts)[k] == c;
                assert(k == rest.len());
                assert(token_capability(ts[last]) == Some(c));
            }
            if exists|i: int| 0 <= i < ts.len() && #[trigger] token_capability(ts[i]) == Some(c) {
                let i = choose|i: int| 0 <= i < ts.len() && #[trigger] token_capability(ts[i]) == Some(c);
                if i < init.len() {
                    assert(token_capability(init[i]) == Some(c));
                } else if !rest.contains(c) {
                    assert(rest.push(c)[rest.len() as int] == c);
                }
            }
        }
    }
}

proof fn lemma_marker_tokens_append(a: Seq<Attribute>, b: Seq<Attribute>)
    ensures
        marker_tokens(a + b) == marker_tokens(a) + marker_tokens(b),
    decreases b.len(),
{
    if b.len() == 0 {
        assert(a + b == a);
    } else {
        lemma_marker_tokens_append(a, b.drop_last());
        assert((a + b).drop_last() == a + b.drop_last());
    }
}

/// `a` and `b` hold the same characters.
fn same_text(a: &str, b: &str) -> (r: bool)
    ensures
        r == (a@ == b@),
{
    let n = a.unicode_len();
    if n != b.unicode_len() {
        return false;
    }
    let mut i: usize = 0;
    while i < n
        invariant
            n == a@.len() == b@.len(),
            i <= n,
            forall|k: int| 0 <= k < i ==> a@[k] == b@[k],
        decreases n - i,
    {
        if a.get_char(i) != b.get_char(i) {
            return false;
        }
        i += 1;
    }
    assert(a@ =~= b@);
    true
}

/// Whether `s` spells the lower-case keyword `k`, ignoring ASCII case.
fn spells(s: &str, k: &str) -> (r: bool)
    ensures
        r == spells_keyword(s@, k@),
{
    let n = s.unicode_len();
    if n != k.unicode_len() {
        return false;
    }
    let mut i: usize = 0;
    while i < n
        invariant
            n == s@.len() == k@.len(),
            i <= n,
            forall|j: int| 0 <= j < i ==> char_matches_ignoring_case(s@[j], k@[j]),
        decreases n - i,
    {
        let c = s.get_char(i);
        let d = k.get_char(i);
        let lower = 97 <= d as u32 && d as u32 <= 122;
        if !(c == d || (lower && c as u32 == d as u32 - 32)) {
            return false;
        }
        i += 1;
    }
    true
}

fn white_space(c: char) -> (r: bool)
    ensures
        r == is_white_space(c),
{
    let u = c as u32;
    (9 <= u && u <= 13) || u == 32 || u == 0x85 || u == 0xA0 || u == 0x1680 || (0x2000 <= u && u <= 0x200A)
        || u == 0x2028 || u == 0x2029 || u == 0x202F || u == 0x205F || u == 0x3000
}

/// The capability that a keyword names, ignoring white space around it and
/// ASCII case.
pub fn capability_from_name(s: &str) -> (r: Option<Capability>)
    ensures
        r == capability_named(trimmed(s@)),
{
    let n = s.unicode_len();
    let mut lo: usize = 0;
    assert(s@.skip(0) =~= s@);
    while lo < n && white_space(s.get_char(lo))
        invariant
            n == s@.len(),
            lo <= n,
            trim_start(s@) == trim_start(s@.skip(lo as int)),
        decreases n - lo,
    {
        assert(s@.skip(lo as int).drop_first() =~= s@.skip(lo as int + 1));
        lo += 1;
    }
    assert(trim_start(s@) == s@.skip(lo as int));
    let mut hi: usize = n;
    while hi > lo && white_space(s.get_char(hi - 1))
        invariant
            n == s@.len(),
            lo <= hi <= n,
            s@.skip(lo as int) =~= s@.subrange(lo as int, n as int),
            trimmed(s@) == trim_end(s@.subrange(lo as int, hi as int)),
        decreases hi - lo,
    {
        assert(s@.subrange(lo as int, hi as int).drop_last() =~= s@.subrange(lo as int, hi as int - 1));
        assert(s@.subrange(lo as int, hi as int).last() == s@[hi as int - 1]);
        hi -= 1;
    }
    assert(trimmed(s@) == s@.subrange(lo as int, hi as int));
    let word = s.substring_char(lo, hi);
    if spells(word, "send") {
        Some(Capability::Send)
    } else {
        None
    }
}

fn capability_of_token(t: &AttrToken) -> (r: Option<Capability>)
    ensures
        r == token_capability(*t),
{
    match t {
        AttrToken::Ident(s) => capability_from_name(s.as_str()),
        _ => None,
    }
}

fn error_of_token(t: &AttrToken) -> (e: TransformError)
    ensures
        token_error(*t, e),
{
    match t {
        AttrToken::Ident(s) => TransformError::UnrecognizedCapability(s.clone()),
        AttrToken::Literal(s) => TransformError::UnrecognizedCapability(s.clone()),
        AttrToken::Punct(c) => TransformError::MalformedAnnotation(*c),
        AttrToken::Group(c) => TransformError::MalformedAnnotation(*c),
    }
}

fn is_marker_attr(a: &Attribute) -> (r: bool)
    ensures
        r == is_marker(*a),
{
    match &a.simple_name {
        Some(n) => same_text(n.as_str(), "real_async_trait"),
        None => false,
    }
}

/// The tokens of an attribute's arguments, groups opened.
fn tokens_of_args(args: &Vec<AttrArg>) -> (r: Vec<AttrToken>)
    ensures
        r@ == arg_tokens(args@),
{
    let mut r: Vec<AttrToken> = Vec::new();
    let mut i: usize = 0;
    while i < args.len()
        invariant
            i <= args@.len(),
            r@ == arg_tokens(args@.take(i as int)),
        decreases args@.len() - i,
    {
        assert(args@.take(i as int + 1).drop_last() == args@.take(i as int));
        assert(args@.take(i as int + 1).last() == args@[i as int]);
        match &args[i] {
            AttrArg::Token(t) => r.push(t.copy()),
            AttrArg::Group(ts) => {
                let ghost start = r@;
                let mut j: usize = 0;
                while j < ts.len()
                    invariant
                        j <= ts@.len(),
                        r@ == start + ts@.take(j as int),
                    decreases ts@.len() - j,
                {
                    r.push(ts[j].copy());
                    assert(ts@.take(j as int + 1) == ts@.take(j as int).push(ts@[j as int]));
                    j += 1;
                }
                assert(ts@.take(j as int) == ts@);
            },
        }
        i += 1;
    }
    assert(args@.take(i as int) == args@);
    r
}

fn has_capability(v: &Vec<Capability>, c: Capability) -> (r: bool)
    ensures
        r == v@.contains(c),
{
    let mut i: usize = 0;
    while i < v.len()
        invariant
            i <= v@.len(),
            forall|k: int| 0 <= k < i ==> v@[k] != c,
        decreases v@.len() - i,
    {
        if v[i] == c {
            return true;
        }
        i += 1;
    }
    false
}

/// Removes the annotations from a method's attributes and collects the
/// capabilities they name; fails on the first token that names none.
pub fn take_capabilities(attrs: Vec<Attribute>) -> (r: Result<
    (Vec<Attribute>, Vec<Capability>),
    TransformError,
>)
    ensures
        r is Ok <==> tokens_recognized(marker_tokens(attrs@)),
        r matches Ok((kept, caps)) ==> kept@ == kept_attrs(attrs@) && caps@ == distinct_capabilities(
            marker_tokens(attrs@),
        ),
        r matches Ok((_, caps)) ==> caps@.no_duplicates() && forall|c: Capability|
            caps@.contains(c) <==> exists|i: int|
                0 <= i < marker_tokens(attrs@).len() && #[trigger] token_capability(marker_tokens(attrs@)[i])
                    == Some(c),
        r matches Err(e) ==> first_bad_token(marker_tokens(attrs@), e),
{
    let ghost orig = attrs@;
    let mut rest = attrs;
    let mut kept: Vec<Attribute> = Vec::new();
    let mut caps: Vec<Capability> = Vec::new();
    let mut k: usize = 0;
    let total = rest.len();
    while rest.len() > 0
        invariant
            orig.len() == total,
            orig == attrs@,
            k + rest@.len() == orig.len(),
            rest@ == orig.skip(k as int),
            kept@ == kept_attrs(orig.take(k as int)),
            caps@ == distinct_capabilities(marker_tokens(orig.take(k as int))),
            tokens_recognized(marker_tokens(orig.take(k as int))),
        decreases rest@.len(),
    {
        let a = rest.remove(0);
        assert(a == orig[k as int]);
        assert(orig.take(k as int + 1).drop_last() == orig.take(k as int));
        assert(orig.take(k as int + 1).last() == a);
        let ghost before = marker_tokens(orig.take(k as int));
        if is_marker_attr(&a) {
            let toks = tokens_of_args(&a.args);
            proof {
                lemma_marker_tokens_append(orig.take(k as int + 1), orig.skip(k as int + 1));
                assert(orig.take(k as int + 1) + orig.skip(k as int + 1) =~= orig);
            }
            let ghost after = marker_tokens(orig.skip(k as int + 1));
            let mut j: usize = 0;
            while j < toks.len()
                invariant
                    orig == attrs@,
                    marker_tokens(orig) == before + toks@ + after,
                    j <= toks@.len(),
                    caps@ == distinct_capabilities(before + toks@.take(j as int)),
                    tokens_recognized(before + toks@.take(j as int)),
                decreases toks@.len() - j,
            {
                let ghost ts = before + toks@.take(j as int + 1);
                assert(ts.drop_last() == before + toks@.take(j as int));
                assert(ts.last() == toks@[j as int]);
                match capability_of_token(&toks[j]) {
                    Some(c) => {
                        if !has_capability(&caps, c) {
                            caps.push(c);
                        }
                        assert forall|i: int| 0 <= i < ts.len() implies (#[trigger] token_capability(
                            ts[i],
                        )) is Some by {
                            if i < ts.len() - 1 {
                                assert(ts[i] == ts.drop_last()[i]);
                            }
                        }
                    },
                    None => {
                        let e = error_of_token(&toks[j]);
                        proof {
                            let all = marker_tokens(orig);
                            let w = before.len() + j;
                            assert(all[w] == toks@[j as int]);
                            assert forall|i: int| 0 <= i < w implies (#[trigger] token_capability(
                                all[i],
                            )) is Some by {
                                assert(all[i] == (before + toks@.take(j as int))[i]);
                            }
                            assert(token_capability(all[w]) is None);
                            assert(token_error(all[w], e));
                            assert(!tokens_recognized(all));
                            assert(first_bad_token(all, e));
                        }
                        return Err(e);
                    },
                }
                j += 1;
            }
            assert(toks@.take(j as int) == toks@);
        } else {
            kept.push(a);
        }
        k += 1;
    }
    assert(orig.take(k as int) == orig);
    proof {
        lemma_distinct_capabilities(marker_tokens(orig));
    }
    Ok((kept, caps))
}

} // verus!
