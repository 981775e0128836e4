//! Handling of one executed request: the history record, the example
//! update, response-driven extraction and the context it feeds.
//!
//! Exactly one history record is produced per transport result, whatever
//! the status; a transport failure produced no response and leaves no
//! record.  A status of 400 or above is recorded but skips extraction and
//! leaves the context untouched.

use vstd::prelude::*;
use crate::dto::History;
use crate::encode::clone_string;
use crate::error::CoreError;
use crate::extract::{extract, spec_extract};
use crate::jsonio::{flat_json_value, save_flat_map};
use crate::kv::KvMap;

verus! {

/// What the transport returns for one executed request.
pub struct FetchResult {
    pub response: String,
    pub status: u16,
    pub duration_ms: u64,
}

impl FetchResult {
    /// Build a transport result.
    pub fn new(response: String, status: u16, duration_ms: u64) -> (r: FetchResult)
        ensures
            r.response == response,
            r.status == status,
            r.duration_ms == duration_ms,
    {
        FetchResult { response, status, duration_ms }
    }
}

/// The record left in history by one executed request.
pub open spec fn history_matches(
    h: History,
    action_name: Seq<char>,
    url: Seq<char>,
    headers: Map<Seq<char>, Seq<char>>,
    body: Option<String>,
    f: FetchResult,
) -> bool {
    &&& h.id is None
    &&& h.action_name@ == action_name
    &&& h.url@ == url
    &&& match body {
        Some(b) => h.body matches Some(hb) && hb@ == b@,
        None => h.body is None,
    }
    &&& h.headers matches Some(hs) && flat_json_value(hs@) == Some(headers)
    &&& h.response matches Some(r) && r@ == f.response@
    &&& h.status_code == f.status
    &&& h.duration_ms == f.duration_ms
    &&& h.timestamp is None
}

/// Build the history record for one executed request.
pub fn build_history(
    action_name: &str,
    url: &str,
    headers: &KvMap,
    body: &Option<String>,
    f: &FetchResult,
) -> (h: History)
    requires
        headers.wf(),
    ensures
        history_matches(h, action_name@, url@, headers@, *body, *f),
{
    History {
        id: None,
        action_name: action_name.to_owned(),
        url: url.to_owned(),
        body: match body {
            Some(b) => Some(clone_string(b)),
            None => None,
        },
        headers: Some(save_flat_map(headers)),
        response: Some(clone_string(&f.response)),
        status_code: f.status,
        duration_ms: f.duration_ms,
        timestamp: None,
    }
}

/// The context after folding every configured extraction of one step into
/// it, in order: a pattern that extracts a value and carries a bind name
/// adds that binding, everything else changes nothing.
pub open spec fn spec_fold_extractions(
    ctx: Map<Seq<char>, Seq<char>>,
    resp: Seq<char>,
    exs: Seq<(String, Option<String>)>,
) -> Map<Seq<char>, Seq<char>>
    decreases exs.len(),
{
    if exs.len() == 0 {
        ctx
    } else {
        let prev = spec_fold_extractions(ctx, resp, exs.drop_last());
        match exs.last().1 {
            Some(name) => match spec_extract(resp, exs.last().0@) {
                Some(v) => prev.insert(name@, v),
                None => prev,
            },
            None => prev,
        }
    }
}

/// Each reported extraction carries its pattern and exactly what
/// [`spec_extract`] yields for it.
pub open spec fn extraction_results_match(
    results: Seq<(String, Option<String>)>,
    resp: Seq<char>,
    exs: Seq<(String, Option<String>)>,
) -> bool {
    &&& results.len() == exs.len()
    &&& forall|i: int|
        0 <= i < results.len() ==> results[i].0 == exs[i].0 && (match results[i].1 {
            Some(v) => spec_extract(resp, exs[i].0@) == Some(v@),
            None => spec_extract(resp, exs[i].0@) is None,
        })
}

/// Everything one handled result decides: the record to append, the
/// example to store, the extractions made, the context to carry on, and
/// the error to surface.
pub struct StepOutcome {
    pub history: Option<History>,
    pub example_update: Option<(String, Option<String>)>,
    pub extracted: Vec<(String, Option<String>)>,
    pub ctx: KvMap,
    pub save_context: bool,
    pub error: Option<CoreError>,
}

/// The full contract of handling one transport result.
pub open spec fn step_outcome_ok(
    out: StepOutcome,
    action_name: Seq<char>,
    url: Seq<char>,
    headers: Map<Seq<char>, Seq<char>>,
    body: Option<String>,
    fetch_result: Result<FetchResult, String>,
    extraction: Option<Vec<(String, Option<String>)>>,
    ctx: Map<Seq<char>, Seq<char>>,
) -> bool {
    match fetch_result {
        Err(m) => {
            &&& out.history is None
            &&& out.ctx@ == ctx
            &&& !out.save_context
            &&& out.example_update is None
            &&& out.extracted@.len() == 0
            &&& out.error matches Some(e) && e matches CoreError::Transport(t) && t@ == m@
        },
        Ok(f) => {
            &&& out.history matches Some(h) && history_matches(h, action_name, url, headers, body, f)
            &&& f.status >= 400 ==> {
                &&& out.ctx@ == ctx
                &&& !out.save_context
                &&& out.example_update is None
                &&& out.extracted@.len() == 0
                &&& out.error matches Some(e) && e matches CoreError::Application(st) && st == f.status
            }
            &&& f.status < 400 ==> {
                &&& out.error is None
                &&& out.example_update matches Some(u) && u.0@ == f.response@ && u.1 == body
                &&& match extraction {
                    Some(exs) => {
                        &&& out.ctx@ == spec_fold_extractions(ctx, f.response@, exs@)
                        &&& out.save_context
                        &&& extraction_results_match(out.extracted@, f.response@, exs@)
                    },
                    None => {
                        &&& out.ctx@ == ctx
                        &&& !out.save_context
                        &&& out.extracted@.len() == 0
                    },
                }
            }
        },
    }
}

/// Handle one transport result: record it, update the example, run the
/// configured extractions and fold the bound values into the context.
pub fn process_result(
    action_name: &str,
    url: &str,
    headers: &KvMap,
    body: &Option<String>,
    fetch_result: &Result<FetchResult, String>,
    extraction: &Option<Vec<(String, Option<String>)>>,
    ctx: &KvMap,
) -> (out: StepOutcome)
    requires
        headers.wf(),
        ctx.wf(),
    ensures
        out.ctx.wf(),
        step_outcome_ok(
            out,
            action_name@,
            url@,
            headers@,
            *body,
            *fetch_result,
            *extraction,
            ctx@,
        ),
{
    let f = match fetch_result {
        Err(m) => {
            return StepOutcome {
                history: None,
                example_update: None,
                extracted: Vec::new(),
                ctx: ctx.duplicate(),
                save_context: false,
                error: Some(CoreError::Transport(clone_string(m))),
            };
        },
        Ok(f) => f,
    };
    let h = build_history(action_name, url, headers, body, f);
    if f.status >= 400 {
        return StepOutcome {
            history: Some(h),
            example_update: None,
            extracted: Vec::new(),
            ctx: ctx.duplicate(),
            save_context: false,
            error: Some(CoreError::Application(f.status)),
        };
    }
    let example = (
        clone_string(&f.response),
        match body {
            Some(b) => Some(clone_string(b)),
            None => None,
        },
    );
    let exs = match extraction {
        Some(exs) => exs,
        None => {
            return StepOutcome {
                history: Some(h),
                example_update: Some(example),
                extracted: Vec::new(),
                ctx: ctx.duplicate(),
                save_context: false,
                error: None,
            };
        },
    };
    let mut new_ctx = ctx.duplicate();
    let mut results: Vec<(String, Option<String>)> = Vec::new();
    let n = exs.len();
    let mut i: usize = 0;
    while i < n
        invariant
            i <= n,
            n == exs@.len(),
            new_ctx.wf(),
            new_ctx@ == spec_fold_extractions(ctx@, f.response@, exs@.take(i as int)),
            extraction_results_match(results@, f.response@, exs@.take(i as int)),
        decreases n - i,
    {
        let ghost prefix = exs@.take(i as int);
        let pat = &exs[i].0;
        let value = extract(f.response.as_str(), pat.as_str());
        match &exs[i].1 {
            Some(name) => {
                match &value {
                    Some(v) => {
                        new_ctx.insert(clone_string(name), clone_string(v));
                    },
                    None => {},
                }
            },
            None => {},
        }
        results.push((clone_string(pat), value));
        proof {
            assert(exs@.take(i + 1 as int).drop_last() =~= prefix);
            assert(exs@.take(i + 1 as int).last() == exs@[i as int]);
        }
        i += 1;
    }
    proof {
        assert(exs@.take(n as int) =~= exs@);
    }
    StepOutcome {
        history: Some(h),
        example_update: Some(example),
        extracted: results,
        ctx: new_ctx,
        save_context: true,
        error: None,
    }
}

/// One handled transport result, under the names the command layer uses.
pub struct HttpResult {
    pub fetch_result: Result<FetchResult, String>,
}

impl HttpResult {
    /// Wrap a transport result for handling.
    pub fn new(fetch_result: Result<FetchResult, String>) -> (r: HttpResult)
        ensures
            r.fetch_result == fetch_result,
    {
        HttpResult { fetch_result }
    }

    /// Evaluate one extraction pattern against a response.
    pub fn extract_pattern(&self, pattern: &str, response: &str) -> (r: Option<String>)
        ensures
            match r {
                Some(s) => spec_extract(response@, pattern@) == Some(s@),
                None => spec_extract(response@, pattern@) is None,
            },
    {
        extract(response, pattern)
    }

    /// Handle the wrapped result; see [`process_result`].
    pub fn handle_result(
        &self,
        action_name: &str,
        url: &str,
        headers: &KvMap,
        body: &Option<String>,
        extraction: &Option<Vec<(String, Option<String>)>>,
        ctx: &KvMap,
    ) -> (out: StepOutcome)
        requires
            headers.wf(),
            ctx.wf(),
        ensures
            out.ctx.wf(),
            step_outcome_ok(
                out,
                action_name@,
                url@,
                headers@,
                *body,
                self.fetch_result,
                *extraction,
                ctx@,
            ),
    {
        process_result(action_name, url, headers, body, &self.fetch_result, extraction, ctx)
    }
}

} // verus!
