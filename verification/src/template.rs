//! Variable placeholder resolution.
//!
//! A template may contain placeholders of the form `{{name}}`.  Resolution
//! replaces each placeholder by the value the context binds to `name`.  A
//! placeholder whose name has no binding is a configuration error naming the
//! unresolved variable, never a silent blank; text in which `{{` is not
//! followed by a matching `}}` is kept verbatim.

use vstd::prelude::*;
use crate::error::CoreError;
use crate::kv::KvMap;
use crate::text::{chars_to_string, sub_chars};

verus! {

/// `{{` opens at position `i`.
pub open spec fn is_open_at(s: Seq<char>, i: int) -> bool {
    i + 2 <= s.len() && s[i] == '{' && s[i + 1] == '{'
}

/// `}}` closes at position `i`.
pub open spec fn is_close_at(s: Seq<char>, i: int) -> bool {
    i + 2 <= s.len() && s[i] == '}' && s[i + 1] == '}'
}

/// Position of the first `}}` at or after `from`, if any.
pub open spec fn find_close(s: Seq<char>, from: int) -> Option<int>
    decreases s.len() - from,
    when 0 <= from <= s.len()
{
    if from + 2 > s.len() {
        None
    } else if is_close_at(s, from) {
        Some(from)
    } else {
        find_close(s, from + 1)
    }
}

/// What `find_close` returns is a closing position at or after `from`.
pub proof fn lemma_find_close_props(s: Seq<char>, from: int)
    requires
        0 <= from <= s.len(),
    ensures
        match find_close(s, from) {
            Some(j) => from <= j && j + 2 <= s.len() && is_close_at(s, j),
            None => true,
        },
    decreases s.len() - from,
{
    if from + 2 <= s.len() && !is_close_at(s, from) {
        lemma_find_close_props(s, from + 1);
    }
}

/// The first closing position at or after `from` is what `find_close` finds.
pub proof fn lemma_find_close_first(s: Seq<char>, from: int, j: int)
    requires
        0 <= from <= j,
        j + 2 <= s.len(),
        is_close_at(s, j),
        forall|k: int| from <= k < j ==> !is_close_at(s, k),
    ensures
        find_close(s, from) == Some(j),
    decreases j - from,
{
    if from < j {
        lemma_find_close_first(s, from + 1, j);
    }
}

/// With no closing pair at or after `from`, `find_close` finds nothing.
pub proof fn lemma_find_close_none(s: Seq<char>, from: int)
    requires
        0 <= from <= s.len(),
        forall|k: int| from <= k ==> !is_close_at(s, k),
    ensures
        find_close(s, from) is None,
    decreases s.len() - from,
{
    if from + 2 <= s.len() {
        lemma_find_close_none(s, from + 1);
    }
}

/// Resolution of the tail of `s` that starts at `i`: the resolved text, or
/// the name of the first placeholder the context does not bind.
pub open spec fn spec_resolve_from(
    s: Seq<char>,
    i: int,
    ctx: Map<Seq<char>, Seq<char>>,
) -> Result<Seq<char>, Seq<char>>
    decreases s.len() - i,
    when 0 <= i <= s.len()
    via spec_resolve_from_decreases
{
    if i >= s.len() {
        Ok(Seq::empty())
    } else if is_open_at(s, i) && find_close(s, i + 2) is Some {
        let j = find_close(s, i + 2)->Some_0;
        let name = s.subrange(i + 2, j);
        if ctx.contains_key(name) {
            match spec_resolve_from(s, j + 2, ctx) {
                Ok(rest) => Ok(ctx[name] + rest),
                Err(e) => Err(e),
            }
        } else {
            Err(name)
        }
    } else {
        match spec_resolve_from(s, i + 1, ctx) {
            Ok(rest) => Ok(seq![s[i]] + rest),
            Err(e) => Err(e),
        }
    }
}

#[via_fn]
proof fn spec_resolve_from_decreases(s: Seq<char>, i: int, ctx: Map<Seq<char>, Seq<char>>) {
    if 0 <= i < s.len() && is_open_at(s, i) {
        lemma_find_close_props(s, i + 2);
    }
}

/// Resolution of a whole template against a context.
pub open spec fn spec_resolve(s: Seq<char>, ctx: Map<Seq<char>, Seq<char>>) -> Result<
    Seq<char>,
    Seq<char>,
> {
    spec_resolve_from(s, 0, ctx)
}

/// First `}}` at or after `from`, executable form.
fn find_close_exec(s: &Vec<char>, from: usize) -> (r: Option<usize>)
    requires
        from <= s@.len(),
    ensures
        match r {
            Some(j) => find_close(s@, from as int) == Some(j as int) && from <= j && j + 2
                <= s@.len() && is_close_at(s@, j as int),
            None => find_close(s@, from as int) is None,
        },
{
    let n = s.len();
    let mut j: usize = from;
    while j < n && j + 1 < n
        invariant
            from <= j,
            n == s@.len(),
            j <= n,
            forall|k: int| from <= k < j ==> !is_close_at(s@, k),
        decreases n - j,
    {
        if s[j] == '}' && s[j + 1] == '}' {
            proof {
                lemma_find_close_first(s@, from as int, j as int);
            }
            return Some(j);
        }
        j += 1;
    }
    proof {
        assert(forall|k: int| from <= k ==> !is_close_at(s@, k));
        lemma_find_close_none(s@, from as int);
    }
    None
}

/// Resolve every placeholder in `s` against `ctx`, or report the name of the
/// first placeholder `ctx` does not bind.
pub fn resolve_chars(s: &Vec<char>, ctx: &KvMap) -> (r: Result<Vec<char>, Vec<char>>)
    requires
        ctx.wf(),
    ensures
        match r {
            Ok(t) => spec_resolve(s@, ctx@) == Ok::<Seq<char>, Seq<char>>(t@),
            Err(n) => spec_resolve(s@, ctx@) == Err::<Seq<char>, Seq<char>>(n@),
        },
{
    let n = s.len();
    let mut out: Vec<char> = Vec::new();
    let mut i: usize = 0;
    while i < n
        invariant
            i <= n,
            n == s@.len(),
            ctx.wf(),
            match spec_resolve_from(s@, i as int, ctx@) {
                Ok(t) => spec_resolve(s@, ctx@) == Ok::<Seq<char>, Seq<char>>(out@ + t),
                Err(e) => spec_resolve(s@, ctx@) == Err::<Seq<char>, Seq<char>>(e),
            },
        decreases n - i,
    {
        let ghost prev = out@;
        if i + 1 < n && s[i] == '{' && s[i + 1] == '{' {
            match find_close_exec(s, i + 2) {
                Some(j) => {
                    let name_chars = sub_chars(s, i + 2, j);
                    let name = chars_to_string(&name_chars);
                    match ctx.get(&name) {
                        Some(value) => {
                            let mut value_chars = crate::text::str_to_chars(value.as_str());
                            let ghost value_view = value_chars@;
                            out.append(&mut value_chars);
                            proof {
                                assert(out@ =~= prev + value_view);
                                assert(name@ == s@.subrange(i + 2, j as int));
                                assert(ctx@[name@] == value_view);
                                match spec_resolve_from(s@, j + 2, ctx@) {
                                    Ok(rest) => {
                                        assert(spec_resolve_from(s@, i as int, ctx@) == Ok::<
                                            Seq<char>,
                                            Seq<char>,
                                        >(ctx@[name@] + rest));
                                        assert(prev + (ctx@[name@] + rest) =~= out@ + rest);
                                    },
                                    Err(e) => {
                                        assert(spec_resolve_from(s@, i as int, ctx@) == Err::<
                                            Seq<char>,
                                            Seq<char>,
                                        >(e));
                                    },
                                }
                            }
                            i = j + 2;
                        },
                        None => {
                            proof {
                                assert(name@ == s@.subrange(i + 2, j as int));
                                assert(spec_resolve_from(s@, i as int, ctx@) == Err::<
                                    Seq<char>,
                                    Seq<char>,
                                >(name@));
                            }
                            return Err(name_chars);
                        },
                    }
                },
                None => {
                    out.push(s[i]);
                    proof {
                        assert(out@ =~= prev + seq![s@[i as int]]);
                        match spec_resolve_from(s@, i + 1, ctx@) {
                            Ok(rest) => {
                                assert(spec_resolve_from(s@, i as int, ctx@) == Ok::<
                                    Seq<char>,
                                    Seq<char>,
                                >(seq![s@[i as int]] + rest));
                                assert(prev + (seq![s@[i as int]] + rest) =~= out@ + rest);
                            },
                            Err(e) => {},
                        }
                    }
                    i += 1;
                },
            }
        } else {
            proof {
                assert(!is_open_at(s@, i as int));
            }
            out.push(s[i]);
            proof {
                assert(out@ =~= prev + seq![s@[i as int]]);
                match spec_resolve_from(s@, i + 1, ctx@) {
                    Ok(rest) => {
                        assert(spec_resolve_from(s@, i as int, ctx@) == Ok::<Seq<char>, Seq<char>>(
                            seq![s@[i as int]] + rest,
                        ));
                        assert(prev + (seq![s@[i as int]] + rest) =~= out@ + rest);
                    },
                    Err(e) => {},
                }
            }
            i += 1;
        }
    }
    proof {
        assert(spec_resolve_from(s@, n as int, ctx@) == Ok::<Seq<char>, Seq<char>>(
            Seq::<char>::empty(),
        ));
        assert(out@ + Seq::<char>::empty() =~= out@);
    }
    Ok(out)
}

/// The placeholder text for a variable name.
pub open spec fn placeholder_of(name: Seq<char>) -> Seq<char> {
    seq!['{', '{'] + name + seq!['}', '}']
}

proof fn lemma_find_close_shift(s: Seq<char>, d: int, from: int)
    requires
        0 <= d <= from <= s.len(),
    ensures
        find_close(s, from) == match find_close(s.skip(d), from - d) {
            Some(j) => Some(j + d),
            None => None::<int>,
        },
    decreases s.len() - from,
{
    let t = s.skip(d);
    if from + 2 <= s.len() {
        assert(is_close_at(s, from) == is_close_at(t, from - d));
        if !is_close_at(s, from) {
            lemma_find_close_shift(s, d, from + 1);
        }
    }
}

proof fn lemma_resolve_shift(s: Seq<char>, d: int, j: int, ctx: Map<Seq<char>, Seq<char>>)
    requires
        0 <= d <= j <= s.len(),
    ensures
        spec_resolve_from(s, j, ctx) == spec_resolve_from(s.skip(d), j - d, ctx),
    decreases s.len() - j,
{
    let t = s.skip(d);
    if j < s.len() {
        assert(is_open_at(s, j) == is_open_at(t, j - d));
        if is_open_at(s, j) {
            lemma_find_close_shift(s, d, j + 2);
            match find_close(s, j + 2) {
                Some(jc) => {
                    lemma_find_close_props(s, j + 2);
                    assert(s.subrange(j + 2, jc) =~= t.subrange(j - d + 2, jc - d));
                    if ctx.contains_key(s.subrange(j + 2, jc)) {
                        lemma_resolve_shift(s, d, jc + 2, ctx);
                    }
                },
                None => {
                    lemma_resolve_shift(s, d, j + 1, ctx);
                    assert(seq![s[j]] =~= seq![t[j - d]]);
                },
            }
        } else {
            lemma_resolve_shift(s, d, j + 1, ctx);
            assert(seq![s[j]] =~= seq![t[j - d]]);
        }
    }
}

/// Law: a bound placeholder is substituted in place.  A template of the
/// shape `pre ++ {{name}} ++ post`, where `pre` opens no placeholder, the
/// name holds no closing brace and is bound in the context, and the tail
/// resolves, resolves to `pre`, then the bound value itself, then the
/// resolved tail: the literal value stands where the placeholder stood.
pub proof fn lemma_placeholder_substituted(
    pre: Seq<char>,
    name: Seq<char>,
    post: Seq<char>,
    ctx: Map<Seq<char>, Seq<char>>,
)
    requires
        forall|k: int| 0 <= k < pre.len() ==> pre[k] != '{',
        forall|k: int| 0 <= k < name.len() ==> name[k] != '}',
        ctx.contains_key(name),
        spec_resolve(post, ctx) is Ok,
    ensures
        spec_resolve(pre + placeholder_of(name) + post, ctx) == Ok::<Seq<char>, Seq<char>>(
            pre + ctx[name] + (spec_resolve(post, ctx)->Ok_0),
        ),
    decreases pre.len(),
{
    let s = pre + placeholder_of(name) + post;
    let postres = spec_resolve(post, ctx)->Ok_0;
    if pre.len() == 0 {
        let j = 2 + name.len() as int;
        assert(s[0] == '{' && s[1] == '{');
        assert(s[j] == '}' && s[j + 1] == '}');
        assert(is_open_at(s, 0));
        assert(is_close_at(s, j));
        assert forall|k: int| 2 <= k < j implies !is_close_at(s, k) by {
            assert(s[k] == name[k - 2]);
        }
        lemma_find_close_first(s, 2, j);
        assert(s.subrange(2, j) =~= name);
        lemma_resolve_shift(s, j + 2, j + 2, ctx);
        assert(s.skip(j + 2) =~= post);
        assert(spec_resolve_from(s, j + 2, ctx) == Ok::<Seq<char>, Seq<char>>(postres));
        assert(spec_resolve(s, ctx) == Ok::<Seq<char>, Seq<char>>(ctx[name] + postres));
        assert(ctx[name] + postres =~= pre + ctx[name] + postres);
    } else {
        assert(s[0] == pre[0]);
        assert(!is_open_at(s, 0));
        lemma_resolve_shift(s, 1, 1, ctx);
        assert(s.skip(1) =~= pre.skip(1) + placeholder_of(name) + post);
        lemma_placeholder_substituted(pre.skip(1), name, post, ctx);
        assert(spec_resolve_from(s, 1, ctx) == Ok::<Seq<char>, Seq<char>>(
            pre.skip(1) + ctx[name] + postres,
        ));
        assert(spec_resolve(s, ctx) == Ok::<Seq<char>, Seq<char>>(
            seq![s[0]] + (pre.skip(1) + ctx[name] + postres),
        ));
        assert(seq![s[0]] + (pre.skip(1) + ctx[name] + postres) =~= pre + ctx[name] + postres);
    }
}

/// Resolve every placeholder in the template `s` against `ctx`; an unbound
/// placeholder is a configuration error carrying the variable's name.
pub fn resolve_template(s: &str, ctx: &KvMap) -> (r: Result<String, CoreError>)
    requires
        ctx.wf(),
    ensures
        match r {
            Ok(t) => spec_resolve(s@, ctx@) == Ok::<Seq<char>, Seq<char>>(t@),
            Err(e) => e matches CoreError::Configuration(n) && spec_resolve(s@, ctx@) == Err::<
                Seq<char>,
                Seq<char>,
            >(n@),
        },
{
    let cs = crate::text::str_to_chars(s);
    match resolve_chars(&cs, ctx) {
        Ok(t) => Ok(chars_to_string(&t)),
        Err(n) => Err(CoreError::Configuration(chars_to_string(&n))),
    }
}

} // verus!
