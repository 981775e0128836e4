//! The action resolver: merge a stored action with per-invocation
//! overrides and substitute context variables, yielding a dispatchable
//! request.
//!
//! Resolution is pure: override headers merge over stored headers with the
//! override winning on a key collision, an override body replaces the
//! static body, and every string field is scanned for placeholders before
//! dispatch.  An unresolved placeholder or an unsupported verb is an error,
//! never a silently altered request.

use vstd::prelude::*;
use crate::dto::Action;
use crate::encode::{clone_string, multipart_type, plan_body, plan_ok, resolved_content_type, urlencoded_type, BodyPlan};
use crate::error::CoreError;
use crate::jsonio::flat_json_value;
use crate::kv::{lemma_entries_view, lemma_map_of_pairs_contains, lemma_map_of_pairs_get, map_of_pairs, unique_keys, KvMap};
use crate::template::{resolve_template, spec_resolve};
use vstd::string::StringExecFns;

verus! {

/// The arguments of one action invocation: the action's name, overrides,
/// and the extraction to run against the response.
pub struct RunActionArgs {
    pub name: String,
    pub headers: KvMap,
    pub query_params: KvMap,
    pub body: Option<String>,
    pub extract_pattern: Option<Vec<(String, Option<String>)>>,
}

impl RunActionArgs {
    /// Both override mappings keep their keys unique.
    pub open spec fn wf(&self) -> bool {
        self.headers.wf() && self.query_params.wf()
    }
}

/// Every pair inserted into `m`, in order; a later pair wins.
pub open spec fn spec_insert_all(
    m: Map<Seq<char>, Seq<char>>,
    pairs: Seq<(String, String)>,
) -> Map<Seq<char>, Seq<char>>
    decreases pairs.len(),
{
    if pairs.len() == 0 {
        m
    } else {
        spec_insert_all(m, pairs.drop_last()).insert(pairs.last().0@, pairs.last().1@)
    }
}

/// Inserting a pair list is union with the mapping it stands for, where the
/// inserted side wins.
pub proof fn lemma_insert_all_union(m: Map<Seq<char>, Seq<char>>, pairs: Seq<(String, String)>)
    ensures
        spec_insert_all(m, pairs) =~= m.union_prefer_right(map_of_pairs(pairs)),
    decreases pairs.len(),
{
    if pairs.len() > 0 {
        lemma_insert_all_union(m, pairs.drop_last());
    }
}

/// Merge override headers over stored headers; the override wins on a key
/// collision.
pub fn merged_headers(stored: &KvMap, overrides: &KvMap) -> (r: KvMap)
    requires
        stored.wf(),
        overrides.wf(),
    ensures
        r.wf(),
        r@ == stored@.union_prefer_right(overrides@),
{
    let mut r = stored.duplicate();
    let pairs = overrides.to_pairs();
    let n = pairs.len();
    let mut i: usize = 0;
    while i < n
        invariant
            i <= n,
            n == pairs@.len(),
            r.wf(),
            r@ == spec_insert_all(stored@, pairs@.take(i as int)),
        decreases n - i,
    {
        let ghost prefix = pairs@.take(i as int);
        r.insert(clone_string(&pairs[i].0), clone_string(&pairs[i].1));
        proof {
            assert(pairs@.take(i + 1 as int).drop_last() =~= prefix);
            assert(pairs@.take(i + 1 as int).last() == pairs@[i as int]);
        }
        i += 1;
    }
    proof {
        assert(pairs@.take(n as int) =~= pairs@);
        lemma_insert_all_union(stored@, pairs@);
    }
    r
}

/// Each output entry keeps its key and carries the resolution of the input
/// value at the same position.
pub open spec fn resolved_entries(
    out: Seq<(String, String)>,
    src: Seq<(String, String)>,
    ctx: Map<Seq<char>, Seq<char>>,
) -> bool {
    &&& out.len() == src.len()
    &&& forall|i: int|
        0 <= i < out.len() ==> out[i].0 == src[i].0 && spec_resolve(src[i].1@, ctx) == Ok::<
            Seq<char>,
            Seq<char>,
        >(out[i].1@)
}

/// A mapping whose every value is the resolution of the other mapping's
/// value under the same key.
pub open spec fn values_resolved(
    rm: Map<Seq<char>, Seq<char>>,
    sm: Map<Seq<char>, Seq<char>>,
    ctx: Map<Seq<char>, Seq<char>>,
) -> bool {
    &&& rm.dom() == sm.dom()
    &&& forall|k: Seq<char>|
        sm.contains_key(k) ==> spec_resolve(sm[k], ctx) == Ok::<Seq<char>, Seq<char>>(rm[k])
}

proof fn lemma_resolved_entries_map(
    out: Seq<(String, String)>,
    src: Seq<(String, String)>,
    ctx: Map<Seq<char>, Seq<char>>,
)
    requires
        unique_keys(src),
        resolved_entries(out, src, ctx),
    ensures
        unique_keys(out),
        values_resolved(map_of_pairs(out), map_of_pairs(src), ctx),
{
    assert forall|i: int, j: int| 0 <= i < j < out.len() implies out[i].0@ != out[j].0@ by {
        assert(out[i].0 == src[i].0 && out[j].0 == src[j].0);
    }
    assert forall|k: Seq<char>|
        map_of_pairs(src).contains_key(k) == map_of_pairs(out).contains_key(k) by {
        lemma_map_of_pairs_contains(src, k);
        lemma_map_of_pairs_contains(out, k);
        if map_of_pairs(src).contains_key(k) {
            let i = choose|i: int| 0 <= i < src.len() && src[i].0@ == k;
            assert(out[i].0@ == k);
        }
        if map_of_pairs(out).contains_key(k) {
            let i = choose|i: int| 0 <= i < out.len() && out[i].0@ == k;
            assert(src[i].0@ == k);
        }
    }
    assert(map_of_pairs(out).dom() =~= map_of_pairs(src).dom());
    assert forall|k: Seq<char>| map_of_pairs(src).contains_key(k) implies spec_resolve(
        map_of_pairs(src)[k],
        ctx,
    ) == Ok::<Seq<char>, Seq<char>>(map_of_pairs(out)[k]) by {
        lemma_map_of_pairs_contains(src, k);
        let i = choose|i: int| 0 <= i < src.len() && src[i].0@ == k;
        lemma_map_of_pairs_get(src, i);
        lemma_map_of_pairs_get(out, i);
        assert(out[i].0@ == k);
    }
}

/// Resolve every value of a mapping against the context, keeping its keys.
pub fn resolve_map_values(m: &KvMap, ctx: &KvMap) -> (r: Result<KvMap, CoreError>)
    requires
        m.wf(),
        ctx.wf(),
    ensures
        match r {
            Ok(rm) => rm.wf() && values_resolved(rm@, m@, ctx@),
            Err(e) => e matches CoreError::Configuration(n) && (exists|i: int|
                0 <= i < m.entries().len() && spec_resolve(m.entries()[i].1@, ctx@) == Err::<
                    Seq<char>,
                    Seq<char>,
                >(n@)),
        },
{
    let pairs = m.to_pairs();
    let n = pairs.len();
    let mut out: Vec<(String, String)> = Vec::new();
    let mut i: usize = 0;
    while i < n
        invariant
            i <= n,
            n == pairs@.len(),
            pairs@ == m.entries(),
            ctx.wf(),
            out@.len() == i,
            resolved_entries(out@, pairs@.take(i as int), ctx@),
        decreases n - i,
    {
        match resolve_template(pairs[i].1.as_str(), ctx) {
            Ok(v) => {
                out.push((clone_string(&pairs[i].0), v));
                proof {
                    assert(pairs@.take(i + 1 as int) =~= pairs@.take(i as int).push(
                        pairs@[i as int],
                    ));
                }
            },
            Err(e) => {
                return Err(e);
            },
        }
        i += 1;
    }
    proof {
        assert(pairs@.take(n as int) =~= pairs@);
        lemma_resolved_entries_map(out@, pairs@, ctx@);
    }
    Ok(KvMap::from_unique_pairs(out))
}

/// A fully resolved request, ready for dispatch.
pub struct ResolvedRequest {
    pub verb: String,
    pub url: String,
    pub headers: KvMap,
    pub query_params: KvMap,
    pub body: Option<String>,
    pub plan: BodyPlan,
}

/// The body template an invocation uses: the override, else the static one.
pub open spec fn chosen_body(action: Action, args: RunActionArgs) -> Option<String> {
    if args.body is Some {
        args.body
    } else {
        action.static_body
    }
}

/// Every value of the mapping resolves against the context.
pub open spec fn map_values_resolvable(
    sm: Map<Seq<char>, Seq<char>>,
    ctx: Map<Seq<char>, Seq<char>>,
) -> bool {
    forall|k: Seq<char>| sm.contains_key(k) ==> spec_resolve(sm[k], ctx) is Ok
}

/// The mapping with every value resolved against the context.
pub open spec fn spec_resolved_map(
    sm: Map<Seq<char>, Seq<char>>,
    ctx: Map<Seq<char>, Seq<char>>,
) -> Map<Seq<char>, Seq<char>> {
    Map::new(
        |k: Seq<char>| sm.contains_key(k),
        |k: Seq<char>| spec_resolve(sm[k], ctx)->Ok_0,
    )
}

/// When resolution is owed to succeed: the verb is allowed, the stored
/// headers decode, every placeholder is bound, and a form or multipart
/// content type comes with a body that decodes as a flat JSON object.
pub open spec fn resolution_possible(
    action: Action,
    args: RunActionArgs,
    ctx: Map<Seq<char>, Seq<char>>,
) -> bool {
    &&& is_allowed_verb(action.verb@)
    &&& flat_json_value(action.headers@) matches Some(stored) && {
        let merged = stored.union_prefer_right(args.headers@);
        let rh = spec_resolved_map(merged, ctx);
        &&& map_values_resolvable(merged, ctx)
        &&& map_values_resolvable(args.query_params@, ctx)
        &&& spec_resolve(action.url@, ctx) is Ok
        &&& match chosen_body(action, args) {
            Some(b) => spec_resolve(b@, ctx) is Ok,
            None => true,
        }
        &&& (resolved_content_type(rh) == urlencoded_type() || resolved_content_type(rh)
            == multipart_type()) ==> (chosen_body(action, args) matches Some(b)
            && flat_json_value(spec_resolve(b@, ctx)->Ok_0) is Some)
    }
}

/// The verbs an action may carry.
pub open spec fn is_allowed_verb(v: Seq<char>) -> bool {
    v == "GET"@ || v == "POST"@ || v == "PUT"@ || v == "DELETE"@ || v == "OPTIONS"@
}

/// Whether an executable verb string is allowed.
pub fn check_verb(verb: &String) -> (r: bool)
    ensures
        r == is_allowed_verb(verb@),
{
    verb.eq(&String::from_str("GET")) || verb.eq(&String::from_str("POST")) || verb.eq(
        &String::from_str("PUT"),
    ) || verb.eq(&String::from_str("DELETE")) || verb.eq(&String::from_str("OPTIONS"))
}

/// What a successful resolution promises.
pub open spec fn resolution_ok(
    rr: ResolvedRequest,
    action: Action,
    args: RunActionArgs,
    ctx: Map<Seq<char>, Seq<char>>,
) -> bool {
    &&& is_allowed_verb(action.verb@)
    &&& rr.verb == action.verb
    &&& spec_resolve(action.url@, ctx) == Ok::<Seq<char>, Seq<char>>(rr.url@)
    &&& flat_json_value(action.headers@) matches Some(stored) && values_resolved(
        rr.headers@,
        stored.union_prefer_right(args.headers@),
        ctx,
    )
    &&& values_resolved(rr.query_params@, args.query_params@, ctx)
    &&& match (args.body, action.static_body) {
        (Some(b), _) => rr.body matches Some(rb) && spec_resolve(b@, ctx) == Ok::<
            Seq<char>,
            Seq<char>,
        >(rb@),
        (None, Some(b)) => rr.body matches Some(rb) && spec_resolve(b@, ctx) == Ok::<
            Seq<char>,
            Seq<char>,
        >(rb@),
        (None, None) => rr.body is None,
    }
    &&& plan_ok(rr.plan, rr.headers@, rr.body)
}

/// Merge the stored action with the invocation's overrides, substitute
/// every placeholder, and plan the body encoding.
///
/// Resolution succeeds exactly when the verb is allowed, the stored
/// headers decode, every placeholder is bound, and the planned encoding
/// has the body it needs.
pub fn resolve_action(action: &Action, args: &RunActionArgs, ctx: &KvMap) -> (r: Result<
    ResolvedRequest,
    CoreError,
>)
    requires
        args.wf(),
        ctx.wf(),
    ensures
        match r {
            Ok(rr) => rr.headers.wf() && rr.query_params.wf() && resolution_ok(
                rr,
                *action,
                *args,
                ctx@,
            ),
            Err(e) => {
                ||| !is_allowed_verb(action.verb@) && e matches CoreError::Configuration(_)
                ||| flat_json_value(action.headers@) is None && e matches CoreError::Serialization(
                    _,
                )
                ||| e matches CoreError::Configuration(_)
                ||| e matches CoreError::Serialization(_)
            },
        },
        resolution_possible(*action, *args, ctx@) ==> r is Ok,
{
    if !check_verb(&action.verb) {
        return Err(CoreError::Configuration(String::from_str("unsupported verb")));
    }
    let stored = match action.headers_as_map() {
        Ok(m) => m,
        Err(e) => {
            return Err(e);
        },
    };
    let merged = merged_headers(&stored, &args.headers);
    let headers = match resolve_map_values(&merged, ctx) {
        Ok(h) => h,
        Err(e) => {
            proof {
                lemma_entries_view(merged);
                if resolution_possible(*action, *args, ctx@) {
                    let n = e->Configuration_0;
                    let i = choose|i: int|
                        0 <= i < merged.entries().len() && spec_resolve(
                            merged.entries()[i].1@,
                            ctx@,
                        ) == Err::<Seq<char>, Seq<char>>(n@);
                    lemma_map_of_pairs_get(merged.entries(), i);
                    assert(false);
                }
            }
            return Err(e);
        },
    };
    let query_params = match resolve_map_values(&args.query_params, ctx) {
        Ok(q) => q,
        Err(e) => {
            proof {
                lemma_entries_view(args.query_params);
                if resolution_possible(*action, *args, ctx@) {
                    let n = e->Configuration_0;
                    let i = choose|i: int|
                        0 <= i < args.query_params.entries().len() && spec_resolve(
                            args.query_params.entries()[i].1@,
                            ctx@,
                        ) == Err::<Seq<char>, Seq<char>>(n@);
                    lemma_map_of_pairs_get(args.query_params.entries(), i);
                    assert(false);
                }
            }
            return Err(e);
        },
    };
    let url = match resolve_template(action.url.as_str(), ctx) {
        Ok(u) => u,
        Err(e) => {
            return Err(e);
        },
    };
    let body_template: Option<&String> = match &args.body {
        Some(b) => Some(b),
        None => match &action.static_body {
            Some(b) => Some(b),
            None => None,
        },
    };
    let body: Option<String> = match body_template {
        Some(b) => match resolve_template(b.as_str(), ctx) {
            Ok(rb) => Some(rb),
            Err(e) => {
                return Err(e);
            },
        },
        None => None,
    };
    let plan = match plan_body(&headers, &body) {
        Ok(p) => p,
        Err(e) => {
            proof {
                if resolution_possible(*action, *args, ctx@) {
                    assert(headers@ =~= spec_resolved_map(
                        stored@.union_prefer_right(args.headers@),
                        ctx@,
                    ));
                    assert(false);
                }
            }
            return Err(e);
        },
    };
    Ok(
        ResolvedRequest {
            verb: clone_string(&action.verb),
            url,
            headers,
            query_params,
            body,
            plan,
        },
    )
}

} // verus!
