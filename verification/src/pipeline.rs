use vstd::prelude::*;

use crate::chat::{build_chat_request, spec_instruction, ChatRequest};
use crate::config::{Config, DiffConfig};
use crate::errors::PipelineError;
use crate::shortstat::{
    counts_representable, parse_shortstat, spec_deletions, spec_insertions, ChangeCounts,
};
use crate::trace::{spec_trace_json, render_trace_json, TraceData};

verus! {

/// Sum of the insertion and deletion counts of a change set.
pub fn total_changes(insertions: u32, deletions: u32) -> (total: u64)
    ensures
        total == insertions + deletions,
{
    insertions as u64 + deletions as u64
}

/// The long model is due when the total changed lines meet the threshold.
pub open spec fn spec_selects_long(total: int, threshold: int) -> bool {
    total >= threshold
}

/// The model a change set of the given size gets.
pub open spec fn spec_chosen_model(d: DiffConfig, total: int) -> Seq<char> {
    if spec_selects_long(total, d.threshold as int) {
        d.long_model@
    } else {
        d.short_model@
    }
}

/// Picks the short or the long model by the single global threshold.
pub fn select_model(d: &DiffConfig, total: u64) -> (m: String)
    ensures
        m@ == spec_chosen_model(*d, total as int),
{
    if total >= d.threshold as u64 {
        d.long_model.clone()
    } else {
        d.short_model.clone()
    }
}

/// Model selection is monotonic: more changed lines never move the choice
/// back from the long model to the short one.
pub proof fn lemma_selection_monotonic(d: DiffConfig, t1: int, t2: int)
    requires
        t1 <= t2,
        spec_chosen_model(d, t1) == d.long_model@,
        spec_selects_long(t1, d.threshold as int),
    ensures
        spec_selects_long(t2, d.threshold as int),
        spec_chosen_model(d, t2) == d.long_model@,
{
}

/// Model selection is threshold-exact: one changed line below the
/// threshold picks the short model, the threshold itself picks the long one.
pub proof fn lemma_selection_threshold_exact(d: DiffConfig)
    ensures
        spec_chosen_model(d, d.threshold - 1) == d.short_model@,
        spec_chosen_model(d, d.threshold as int) == d.long_model@,
{
}

/// Decides everything that precedes the network call: an empty staged diff
/// is rejected outright, otherwise the summary counts pick the model and
/// the two-message request body is built. An error here means no request
/// is to be sent.
pub fn plan_request(cfg: &Config, diff: String, stat: &str) -> (r: Result<
    ChatRequest,
    PipelineError,
>)
    ensures
        match r {
            Ok(req) => diff@.len() > 0 && counts_representable(stat@) && req.model@
                == spec_chosen_model(
                cfg.diff,
                spec_insertions(stat@) + spec_deletions(stat@),
            ) && req.messages@.len() == 2 && req.messages@[0].role@ == "developer"@
                && req.messages@[0].content@ == spec_instruction() && req.messages@[1].role@
                == "user"@ && req.messages@[1].content@ == diff@,
            Err(e) => (e == PipelineError::EmptyDiff && diff@.len() == 0) || (e
                == PipelineError::CountOutOfRange && diff@.len() > 0 && !counts_representable(
                stat@,
            )),
        },
{
    if diff.as_str().is_empty() {
        return Err(PipelineError::EmptyDiff);
    }
    let counts: ChangeCounts = match parse_shortstat(stat) {
        Ok(cc) => cc,
        Err(e) => {
            return Err(e);
        },
    };
    let total = total_changes(counts.insertions, counts.deletions);
    let model = select_model(&cfg.diff, total);
    Ok(build_chat_request(model, diff))
}

/// The full output of a run: the commit message and, when tracing, the
/// separator line followed by the trace block.
pub open spec fn spec_composed(msg: Seq<char>, t: Option<TraceData>) -> Seq<char> {
    match t {
        Some(td) => msg + "\n---\n"@ + spec_trace_json(
            td.model@,
            td.response_centis as int,
            td.execution_centis as int,
        ),
        None => msg,
    }
}

/// Builds the final output in one piece, so that the destination cannot
/// change it and a trace extends the message instead of replacing it.
pub fn compose_output(msg: String, t: &Option<TraceData>) -> (out: String)
    ensures
        out@ == spec_composed(msg@, *t),
{
    match t {
        Some(td) => {
            let mut s = msg;
            s.append("\n---\n");
            let block = render_trace_json(td);
            s.append(block.as_str());
            s
        },
        None => msg,
    }
}

/// Whatever the destination, a run writes one composed value whose prefix
/// is the untouched commit message: the trace block never overwrites it.
pub proof fn lemma_compose_preserves_body(msg: Seq<char>, t: Option<TraceData>)
    ensures
        spec_composed(msg, t).len() >= msg.len(),
        spec_composed(msg, t).take(msg.len() as int) == msg,
        t is None ==> spec_composed(msg, t) == msg,
{
    match t {
        Some(td) => {
            assert(spec_composed(msg, t).take(msg.len() as int) =~= msg);
        },
        None => {
            assert(spec_composed(msg, t).take(msg.len() as int) =~= msg);
        },
    }
}

} // verus!
