//! A run: which blocks take part, what is asked for each case, and what is
//! recorded of each answer.

use vstd::prelude::*;
use crate::text::{opt_view, opt_str_view};
use crate::error::{AppError, ErrorView};
use crate::gateway::{string_result, Message};
use crate::model::{clone_opt, EvaluationBlock, RunEntry};
use crate::text::concat;

verus! {

broadcast use vstd::string::group_string_axioms;

/// Whether a run draws on the metric blocks: when they are asked for or a
/// block id is targeted.
pub fn uses_metrics(with_metrics: bool, id: Option<&str>) -> (r: bool)
    ensures
        r == (with_metrics || id is Some),
{
    with_metrics || id.is_some()
}

/// The blocks that a run draws from: the benchmarks, and the metrics too
/// when they are asked for or a block id is targeted.
pub open spec fn block_pool(
    benchmarks: Seq<EvaluationBlock>,
    metrics: Seq<EvaluationBlock>,
    with_metrics: bool,
    id: Option<Seq<char>>,
) -> Seq<EvaluationBlock> {
    if with_metrics || id is Some {
        benchmarks + metrics
    } else {
        benchmarks
    }
}

/// The blocks of a run: those of the pool whose id is the targeted one, or
/// all of them when no id is targeted.
pub open spec fn selected_blocks(
    benchmarks: Seq<EvaluationBlock>,
    metrics: Seq<EvaluationBlock>,
    with_metrics: bool,
    id: Option<Seq<char>>,
) -> Seq<EvaluationBlock> {
    match id {
        Some(target) => block_pool(benchmarks, metrics, with_metrics, id).filter(
            |b: EvaluationBlock| b.metadata.id@ == target,
        ),
        None => block_pool(benchmarks, metrics, with_metrics, id),
    }
}

/// A run without `with_metrics` and without a targeted id uses exactly the
/// benchmarks, in order; no metric block takes part.
pub proof fn lemma_default_run_uses_benchmarks_only(
    benchmarks: Seq<EvaluationBlock>,
    metrics: Seq<EvaluationBlock>,
)
    ensures
        selected_blocks(benchmarks, metrics, false, None) == benchmarks,
{
}

/// A run without a targeted id uses the benchmarks, then the metrics when
/// `with_metrics` is set, in order, whatever each holds: with no benchmarks,
/// the metrics alone.
pub proof fn lemma_untargeted_run_uses_benchmarks_then_metrics(
    benchmarks: Seq<EvaluationBlock>,
    metrics: Seq<EvaluationBlock>,
    with_metrics: bool,
)
    ensures
        selected_blocks(benchmarks, metrics, with_metrics, None).len() == benchmarks.len() + if with_metrics {
            metrics.len()
        } else {
            0
        },
        forall|i: int|
            0 <= i < benchmarks.len() ==> #[trigger] selected_blocks(benchmarks, metrics, with_metrics, None)[i]
                == benchmarks[i],
        with_metrics ==> forall|j: int|
            0 <= j < metrics.len() ==> selected_blocks(benchmarks, metrics, with_metrics, None)[benchmarks.len()
                + j] == #[trigger] metrics[j],
{
}

/// A run that targets an id uses exactly the blocks, among the benchmarks and
/// the metrics, that have that id.
pub proof fn lemma_targeted_run_uses_that_id(
    benchmarks: Seq<EvaluationBlock>,
    metrics: Seq<EvaluationBlock>,
    with_metrics: bool,
    target: Seq<char>,
)
    ensures
        forall|i: int|
            0 <= i < selected_blocks(benchmarks, metrics, with_metrics, Some(target)).len()
                ==> (#[trigger] selected_blocks(
                benchmarks,
                metrics,
                with_metrics,
                Some(target),
            )[i]).metadata.id@ == target,
        forall|i: int|
            0 <= i < (benchmarks + metrics).len() && (#[trigger] (benchmarks + metrics)[i]).metadata.id@
                == target ==> selected_blocks(benchmarks, metrics, with_metrics, Some(target)).contains(
                (benchmarks + metrics)[i],
            ),
{
    let pred = |b: EvaluationBlock| b.metadata.id@ == target;
    let all = benchmarks + metrics;
    assert(block_pool(benchmarks, metrics, with_metrics, Some(target)) == all);
    assert forall|i: int| 0 <= i < all.filter(pred).len() implies #[trigger] pred(
        all.filter(pred)[i],
    ) by {
        all.lemma_filter_pred(pred, i);
    }
    assert forall|i: int| 0 <= i < all.len() && pred(#[trigger] all[i]) implies all.filter(
        pred,
    ).contains(all[i]) by {
        all.lemma_filter_contains(pred, i);
    }
}

/// Chooses the blocks of a run, in order: the benchmarks, then the metrics
/// when `with_metrics` is set or `id` is given, keeping only the blocks whose
/// id is `id` when it is given. A run without blocks is a configuration error.
pub fn select_blocks(
    benchmarks: Vec<EvaluationBlock>,
    metrics: Vec<EvaluationBlock>,
    with_metrics: bool,
    id: Option<&str>,
) -> (r: Result<Vec<EvaluationBlock>, AppError>)
    ensures
        match r {
            Ok(blocks) => blocks@ == selected_blocks(benchmarks@, metrics@, with_metrics, opt_str_view(id))
                && blocks@.len() > 0,
            Err(e) => selected_blocks(benchmarks@, metrics@, with_metrics, opt_str_view(id)).len() == 0
                && e@ == ErrorView::Config("No evaluation blocks found"@),
        },
{
    let ghost b0 = benchmarks@;
    let ghost m0 = metrics@;
    let mut pool = benchmarks;
    let mut extra = metrics;
    if uses_metrics(with_metrics, id) {
        pool.append(&mut extra);
    }
    let ghost all = pool@;
    assert(all == block_pool(b0, m0, with_metrics, opt_str_view(id)));
    let blocks = match id {
        Some(target_str) => {
            let target = target_str.to_string();
            let ghost pred = |b: EvaluationBlock| b.metadata.id@ == target@;
            let mut kept: Vec<EvaluationBlock> = Vec::new();
            let ghost mut consumed: Seq<EvaluationBlock> = seq![];
            proof {
                reveal(Seq::filter);
            }
            while pool.len() > 0
                invariant
                    all == consumed + pool@,
                    pred == (|b: EvaluationBlock| b.metadata.id@ == target@),
                    kept@ == consumed.filter(pred),
                decreases pool.len(),
            {
                let b = pool.remove(0);
                let keep = b.metadata.id == target;
                proof {
                    reveal(Seq::filter);
                    assert(consumed.push(b).drop_last() =~= consumed);
                    assert(all =~= consumed.push(b) + pool@);
                    consumed = consumed.push(b);
                }
                if keep {
                    kept.push(b);
                }
            }
            assert(consumed =~= all);
            proof {
                let t = target_str@;
                let q = |b: EvaluationBlock| b.metadata.id@ == t;
                assert(opt_str_view(id) == Some(t));
                assert(selected_blocks(b0, m0, with_metrics, opt_str_view(id)) == all.filter(q));
                assert(pred =~= q);
                assert(kept@ == all.filter(q));
            }
            kept
        },
        None => pool,
    };
    if blocks.len() == 0 {
        return Err(AppError::ConfigError("No evaluation blocks found".to_string()));
    }
    Ok(blocks)
}

/// One chat request of a run: a case of a block, and what to send for it.
#[derive(Debug)]
pub struct RunRequest {
    pub block_id: String,
    pub case_index: usize,
    pub model: String,
    pub messages: Vec<Message>,
    pub input: String,
    pub expected: Option<String>,
}

/// The request for case `i` of block `b`: the block's model, its system
/// prompt, then the case's input as the user's message.
pub open spec fn request_for(r: RunRequest, b: EvaluationBlock, i: int) -> bool {
    &&& r.block_id@ == b.metadata.id@
    &&& r.case_index == i
    &&& r.model@ == b.metadata.model@
    &&& r.input@ == b.dataset@[i].input@
    &&& opt_view(r.expected) == opt_view(b.dataset@[i].expected)
    &&& r.messages@.len() == 2
    &&& r.messages@[0].role@ == "system"@
    &&& r.messages@[0].content@ == b.prompts.system@
    &&& r.messages@[1].role@ == "user"@
    &&& r.messages@[1].content@ == b.dataset@[i].input@
}

/// The number of cases in the first `k` blocks.
pub open spec fn cases_before(blocks: Seq<EvaluationBlock>, k: int) -> int
    decreases k,
{
    if k <= 0 {
        0
    } else {
        cases_before(blocks, k - 1) + blocks[k - 1].dataset@.len()
    }
}

/// The requests of a run: one per case, block by block and case by case, the
/// case at index `i` of block `k` at position `cases_before(blocks, k) + i`.
pub fn plan_requests(blocks: &Vec<EvaluationBlock>) -> (reqs: Vec<RunRequest>)
    ensures
        reqs@.len() == cases_before(blocks@, blocks@.len() as int),
        forall|k: int, i: int|
            #![trigger blocks@[k].dataset@[i]]
            0 <= k < blocks@.len() && 0 <= i < blocks@[k].dataset@.len() ==> request_for(
                reqs@[cases_before(blocks@, k) + i],
                blocks@[k],
                i,
            ),
{
    let mut reqs: Vec<RunRequest> = Vec::new();
    let mut k: usize = 0;
    while k < blocks.len()
        invariant
            k <= blocks.len(),
            reqs@.len() == cases_before(blocks@, k as int),
            forall|kk: int, i: int|
                #![trigger blocks@[kk].dataset@[i]]
                0 <= kk < k && 0 <= i < blocks@[kk].dataset@.len() ==> request_for(
                    reqs@[cases_before(blocks@, kk) + i],
                    blocks@[kk],
                    i,
                ),
        decreases blocks.len() - k,
    {
        let block = &blocks[k];
        let mut i: usize = 0;
        while i < block.dataset.len()
            invariant
                k < blocks.len(),
                block == &blocks@[k as int],
                i <= block.dataset.len(),
                reqs@.len() == cases_before(blocks@, k as int) + i,
                forall|kk: int, j: int|
                    #![trigger blocks@[kk].dataset@[j]]
                    0 <= kk < k && 0 <= j < blocks@[kk].dataset@.len() ==> request_for(
                        reqs@[cases_before(blocks@, kk) + j],
                        blocks@[kk],
                        j,
                    ),
                forall|j: int|
                    #![trigger blocks@[k as int].dataset@[j]]
                    0 <= j < i ==> request_for(
                        reqs@[cases_before(blocks@, k as int) + j],
                        blocks@[k as int],
                        j,
                    ),
            decreases block.dataset.len() - i,
        {
            let case = &block.dataset[i];
            let mut messages: Vec<Message> = Vec::new();
            messages.push(Message { role: "system".to_string(), content: block.prompts.system.clone() });
            messages.push(Message { role: "user".to_string(), content: case.input.clone() });
            let req = RunRequest {
                block_id: block.metadata.id.clone(),
                case_index: i,
                model: block.metadata.model.clone(),
                messages,
                input: case.input.clone(),
                expected: clone_opt(&case.expected),
            };
            proof {
                assert(cases_before(blocks@, k as int) + i < cases_before(blocks@, k as int + 1)) by {
                    assert(cases_before(blocks@, k as int + 1) == cases_before(blocks@, k as int)
                        + blocks@[k as int].dataset@.len());
                }
            }
            let ghost old_reqs = reqs@;
            reqs.push(req);
            proof {
                let cb = cases_before(blocks@, k as int);
                lemma_cases_before_mono(blocks@, 0, k as int);
                assert(reqs@[cb + i] == req);
                assert(request_for(reqs@[cb + i], blocks@[k as int], i as int));
                assert forall|j: int|
                    #![trigger blocks@[k as int].dataset@[j]]
                    0 <= j < i + 1 implies request_for(
                        reqs@[cb + j],
                        blocks@[k as int],
                        j,
                    ) by {
                    if j < i {
                        assert(request_for(old_reqs[cb + j], blocks@[k as int], j));
                        assert(reqs@[cb + j] == old_reqs[cb + j]);
                    }
                }
                assert forall|kk: int, j: int|
                    #![trigger blocks@[kk].dataset@[j]]
                    0 <= kk < k && 0 <= j < blocks@[kk].dataset@.len() implies request_for(
                        reqs@[cases_before(blocks@, kk) + j],
                        blocks@[kk],
                        j,
                    ) by {
                    lemma_cases_before_mono(blocks@, kk + 1, k as int);
                    lemma_cases_before_mono(blocks@, 0, kk);
                    assert(cases_before(blocks@, kk + 1) == cases_before(blocks@, kk)
                        + blocks@[kk].dataset@.len());
                    assert(request_for(old_reqs[cases_before(blocks@, kk) + j], blocks@[kk], j));
                    assert(reqs@[cases_before(blocks@, kk) + j] == old_reqs[cases_before(blocks@, kk) + j]);
                }
            }
            i += 1;
        }
        proof {
            assert(cases_before(blocks@, k as int + 1) == cases_before(blocks@, k as int)
                + blocks@[k as int].dataset@.len());
            assert forall|kk: int, j: int|
                #![trigger blocks@[kk].dataset@[j]]
                0 <= kk < k + 1 && 0 <= j < blocks@[kk].dataset@.len() implies request_for(
                    reqs@[cases_before(blocks@, kk) + j],
                    blocks@[kk],
                    j,
                ) by {
                if kk == k {
                    let _ = blocks@[k as int].dataset@[j];
                    assert(request_for(
                        reqs@[cases_before(blocks@, k as int) + j],
                        blocks@[k as int],
                        j,
                    ));
                }
            }
        }
        k += 1;
    }
    reqs
}

/// The number of cases only grows with the number of blocks.
proof fn lemma_cases_before_mono(blocks: Seq<EvaluationBlock>, a: int, b: int)
    requires
        0 <= a <= b,
    ensures
        cases_before(blocks, a) <= cases_before(blocks, b),
    decreases b - a,
{
    if a < b {
        lemma_cases_before_mono(blocks, a, b - 1);
    }
}

/// What a run records as the output of a chat answer: its text, or the
/// error's text after `Error: `.
pub open spec fn recorded_output(reply: Result<Seq<char>, ErrorView>) -> Seq<char> {
    match reply {
        Ok(text) => text,
        Err(ErrorView::Io(_, m)) => "Error: "@ + m,
        Err(ErrorView::Config(m)) => "Error: "@ + m,
        Err(ErrorView::Network(m)) => "Error: "@ + m,
    }
}

/// The run log entry for a request and the chat service's answer to it,
/// stamped with `timestamp`, the time the answer came.
pub fn record_reply(req: RunRequest, reply: Result<String, AppError>, timestamp: String) -> (entry: RunEntry)
    ensures
        entry.timestamp == timestamp,
        entry.block_id@ == req.block_id@,
        entry.case_index == req.case_index,
        entry.input@ == req.input@,
        opt_view(entry.expected) == opt_view(req.expected),
        entry.output@ == recorded_output(string_result(reply)),
{
    let output = match reply {
        Ok(o) => o,
        Err(e) => concat("Error: ", e.message().as_str()),
    };
    RunEntry {
        block_id: req.block_id,
        case_index: req.case_index,
        input: req.input,
        expected: req.expected,
        output,
        timestamp,
    }
}

} // verus!
