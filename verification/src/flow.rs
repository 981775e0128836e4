//! The flow engine: an ordered sequence of action invocations sharing one
//! execution-scoped context.
//!
//! A run moves from `Pending` through `Running` one step at a time and
//! ends `Completed` or `Aborted`.  Each advanced step folds its bound
//! extractions into the in-memory context snapshot, so a later step
//! resolves its placeholders against everything earlier steps bound; the
//! accumulated context is persisted once, on completion.

use vstd::prelude::*;
use crate::engine::{
    process_result, spec_fold_extractions, step_outcome_ok, FetchResult, StepOutcome,
};
use crate::extract::spec_extract;
use crate::template::{lemma_placeholder_substituted, placeholder_of, spec_resolve};
use crate::kv::KvMap;
use crate::resolver::RunActionArgs;

verus! {

/// Where a flow run stands.
pub enum FlowState {
    Pending,
    Running(usize),
    Completed,
    Aborted(usize),
}

/// One run of a flow: its steps, its position, and the context snapshot
/// the steps share.
pub struct FlowRun {
    pub steps: Vec<RunActionArgs>,
    pub state: FlowState,
    pub ctx: KvMap,
}

/// The state a step's outcome moves the run to: onward on success or when
/// failures are tolerated, aborted at this step otherwise.
pub open spec fn next_state(
    i: int,
    len: int,
    succeeded: bool,
    continue_on_error: bool,
) -> FlowState {
    if succeeded || continue_on_error {
        if i + 1 == len {
            FlowState::Completed
        } else {
            FlowState::Running((i + 1) as usize)
        }
    } else {
        FlowState::Aborted(i as usize)
    }
}

impl FlowRun {
    /// The context snapshot keeps unique keys.
    pub open spec fn wf(&self) -> bool {
        self.ctx.wf()
    }

    /// A new run over the given steps, not yet started.
    pub fn start(steps: Vec<RunActionArgs>, ctx: KvMap) -> (r: FlowRun)
        requires
            ctx.wf(),
        ensures
            r.wf(),
            r.state is Pending,
            r.steps == steps,
            r.ctx == ctx,
    {
        FlowRun { steps, state: FlowState::Pending, ctx }
    }

    /// Enter the first step; an empty flow completes at once.
    pub fn begin(&mut self)
        requires
            old(self).state is Pending,
        ensures
            final(self).steps == old(self).steps,
            final(self).ctx == old(self).ctx,
            final(self).state == (if old(self).steps@.len() == 0 {
                FlowState::Completed
            } else {
                FlowState::Running(0usize)
            }),
    {
        if self.steps.len() == 0 {
            self.state = FlowState::Completed;
        } else {
            self.state = FlowState::Running(0);
        }
    }

    /// The step the run stands at, while it is running.
    pub fn current_step(&self) -> (r: Option<&RunActionArgs>)
        ensures
            match r {
                Some(step) => self.state matches FlowState::Running(i) && i < self.steps@.len()
                    && *step == self.steps@[i as int],
                None => !(self.state matches FlowState::Running(i) && i < self.steps@.len()),
            },
    {
        match self.state {
            FlowState::Running(i) => if i < self.steps.len() {
                Some(&self.steps[i])
            } else {
                None
            },
            _ => None,
        }
    }

    /// Fold one executed step's result into the run: handle the response,
    /// adopt the new context, and move to the next state.  The history
    /// record and error of the outcome are the caller's to persist and
    /// report.
    pub fn advance(
        &mut self,
        action_name: &str,
        url: &str,
        headers: &KvMap,
        body: &Option<String>,
        fetch_result: &Result<FetchResult, String>,
        continue_on_error: bool,
    ) -> (out: StepOutcome)
        requires
            old(self).wf(),
            headers.wf(),
            old(self).state matches FlowState::Running(i) && i < old(self).steps@.len(),
        ensures
            final(self).wf(),
            final(self).steps == old(self).steps,
            step_outcome_ok(
                out,
                action_name@,
                url@,
                headers@,
                *body,
                *fetch_result,
                old(self).steps@[old(self).state->Running_0 as int].extract_pattern,
                old(self).ctx@,
            ),
            final(self).ctx@ == out.ctx@,
            final(self).state == next_state(
                old(self).state->Running_0 as int,
                old(self).steps@.len() as int,
                fetch_result matches Ok(f) && f.status < 400,
                continue_on_error,
            ),
    {
        let i = match self.state {
            FlowState::Running(i) => i,
            _ => {
                proof {
                    assert(false);
                }
                0
            },
        };
        let out = process_result(
            action_name,
            url,
            headers,
            body,
            fetch_result,
            &self.steps[i].extract_pattern,
            &self.ctx,
        );
        let n = self.steps.len();
        proof {
            assert(i < n);
        }
        let succeeded = match fetch_result {
            Ok(f) => f.status < 400,
            Err(_) => false,
        };
        self.ctx = out.ctx.duplicate();
        if succeeded || continue_on_error {
            if i + 1 == n {
                self.state = FlowState::Completed;
            } else {
                self.state = FlowState::Running(i + 1);
            }
        } else {
            self.state = FlowState::Aborted(i);
        }
        out
    }
}

proof fn lemma_fold_binds(
    ctx: Map<Seq<char>, Seq<char>>,
    resp: Seq<char>,
    exs: Seq<(String, Option<String>)>,
    k: int,
)
    requires
        0 <= k < exs.len(),
        exs[k].1 is Some,
        spec_extract(resp, exs[k].0@) is Some,
        forall|j: int|
            k < j < exs.len() && exs[j].1 is Some ==> exs[j].1->Some_0@ != exs[k].1->Some_0@,
    ensures
        spec_fold_extractions(ctx, resp, exs).contains_key(exs[k].1->Some_0@),
        spec_fold_extractions(ctx, resp, exs)[exs[k].1->Some_0@] == spec_extract(
            resp,
            exs[k].0@,
        )->Some_0,
    decreases exs.len(),
{
    if k == exs.len() - 1 {
    } else {
        lemma_fold_binds(ctx, resp, exs.drop_last(), k);
    }
}

/// Law: a value bound by one step is substituted, as the literal extracted
/// value, into the next step's template.  When the response of the step
/// yields a value for a pattern bound to `name`, and no later extraction of
/// the same step rebinds `name`, the folded context carries that binding;
/// a following template `pre ++ {{name}} ++ post` whose `pre` opens no
/// placeholder and whose tail resolves then resolves with the extracted
/// value itself standing where the placeholder stood.
pub proof fn lemma_binding_threads_to_next_step(
    ctx: Map<Seq<char>, Seq<char>>,
    resp: Seq<char>,
    exs: Seq<(String, Option<String>)>,
    k: int,
    pre: Seq<char>,
    post: Seq<char>,
)
    requires
        0 <= k < exs.len(),
        exs[k].1 is Some,
        spec_extract(resp, exs[k].0@) is Some,
        forall|j: int|
            k < j < exs.len() && exs[j].1 is Some ==> exs[j].1->Some_0@ != exs[k].1->Some_0@,
        forall|i: int| 0 <= i < pre.len() ==> pre[i] != '{',
        forall|i: int| 0 <= i < exs[k].1->Some_0@.len() ==> exs[k].1->Some_0@[i] != '}',
        spec_resolve(post, spec_fold_extractions(ctx, resp, exs)) is Ok,
    ensures
        spec_resolve(
            pre + placeholder_of(exs[k].1->Some_0@) + post,
            spec_fold_extractions(ctx, resp, exs),
        ) == Ok::<Seq<char>, Seq<char>>(
            pre + (spec_extract(resp, exs[k].0@)->Some_0) + (spec_resolve(
                post,
                spec_fold_extractions(ctx, resp, exs),
            )->Ok_0),
        ),
{
    lemma_fold_binds(ctx, resp, exs, k);
    lemma_placeholder_substituted(
        pre,
        exs[k].1->Some_0@,
        post,
        spec_fold_extractions(ctx, resp, exs),
    );
}

} // verus!
