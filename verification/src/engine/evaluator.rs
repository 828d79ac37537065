//! Judging a run: what the judge model is asked about each entry, how its
//! answer is read, and what the eval log records.

use vstd::prelude::*;
use crate::text::{opt_view};
use crate::error::{AppError, ErrorView};
use crate::gateway::Message;
use crate::model::{EvalEntry, RunEntry};
use crate::text::{
    chars_of, concat, string_from_chars, strip_prefixes, strip_prefixes_spec, strip_suffixes,
    strip_suffixes_spec, trim_chars, trim_spec,
};

verus! {

broadcast use vstd::string::group_string_axioms;

/// The model that judges the answers.
pub const JUDGE_MODEL: &'static str = "gpt-4";

/// The system prompt of the judge.
pub const JUDGE_SYSTEM_PROMPT: &'static str = "You are an AI Judge. Evaluate the actual output against the expected output/criteria. Respond in JSON format with `passed` (boolean) and `reason` (string).";

/// The judge's verdict, as its JSON answer states it.
#[derive(Debug)]
pub struct JudgeVerdict {
    pub passed: bool,
    pub reason: String,
}

/// What came of judging an entry.
#[derive(Debug)]
pub enum JudgeReply {
    /// The entry expects nothing, so the judge was not asked.
    Skipped,
    /// The judge could not be asked.
    CallFailed(AppError),
    /// The judge answered `response`; `parsed` is its cleaned answer read as
    /// a verdict, or the error reading it.
    Answered { response: String, parsed: Result<JudgeVerdict, String> },
}

/// What the judge is asked about an entry.
pub open spec fn judge_prompt(input: Seq<char>, expected: Seq<char>, output: Seq<char>) -> Seq<char> {
    "Input: "@ + input + "\nExpected Criteria/Answer: "@ + expected + "\nActual Output: "@ + output
        + "\n\nEvaluate if the Actual Output meets the Expected Criteria."@
}

/// Where the judge's question puts each field: the input right after
/// `Input: `, the expected text right after `Expected Criteria/Answer: `,
/// and the run's output right after `Actual Output: `, each label on a line
/// of its own after the field before it, and the question last.
pub proof fn lemma_judge_prompt_fields(input: Seq<char>, expected: Seq<char>, output: Seq<char>)
    ensures
        ({
            let q = judge_prompt(input, expected, output);
            let a: int = 7 + input.len() as int;
            let b: int = a + 27 + expected.len();
            let c: int = b + 16 + output.len();
            &&& q.subrange(0, 7) == seq!['I', 'n', 'p', 'u', 't', ':', ' ']
            &&& q.subrange(7, a) == input
            &&& q.subrange(a, a + 27) == seq!['\n'] + "Expected Criteria/Answer: "@
            &&& q.subrange(a + 27, b) == expected
            &&& q.subrange(b, b + 16) == seq!['\n'] + "Actual Output: "@
            &&& q.subrange(b + 16, c) == output
            &&& q.skip(c) == "\n\nEvaluate if the Actual Output meets the Expected Criteria."@
        }),
{
    reveal_strlit("Input: ");
    reveal_strlit("\nExpected Criteria/Answer: ");
    reveal_strlit("Expected Criteria/Answer: ");
    reveal_strlit("\nActual Output: ");
    reveal_strlit("Actual Output: ");
    let q = judge_prompt(input, expected, output);
    let a: int = 7 + input.len() as int;
    let b: int = a + 27 + expected.len();
    let c: int = b + 16 + output.len();
    let l1 = "Input: "@;
    let l2 = "\nExpected Criteria/Answer: "@;
    let l3 = "\nActual Output: "@;
    let tail = "\n\nEvaluate if the Actual Output meets the Expected Criteria."@;
    assert(q =~= l1 + input + l2 + expected + l3 + output + tail);
    assert(q.subrange(0, 7) =~= seq!['I', 'n', 'p', 'u', 't', ':', ' ']);
    assert(q.subrange(7, a) =~= input);
    assert(q.subrange(a, a + 27) =~= seq!['\n'] + "Expected Criteria/Answer: "@);
    assert(q.subrange(a + 27, b) =~= expected);
    assert(q.subrange(b, b + 16) =~= seq!['\n'] + "Actual Output: "@);
    assert(q.subrange(b + 16, c) =~= output);
    assert(q.skip(c) =~= tail);
}

/// The messages that ask the judge about `run`: none when it expects nothing;
/// otherwise the judge's system prompt and the question about its input,
/// expectation and output.
pub fn judge_messages(run: &RunEntry) -> (ms: Option<Vec<Message>>)
    ensures
        ms is None <==> run.expected is None,
        ms matches Some(v) ==> {
            &&& v@.len() == 2
            &&& v@[0].role@ == "system"@
            &&& v@[0].content@ == JUDGE_SYSTEM_PROMPT@
            &&& v@[1].role@ == "user"@
            &&& v@[1].content@ == judge_prompt(run.input@, run.expected->0@, run.output@)
        },
{
    match &run.expected {
        None => None,
        Some(expected) => {
            let mut q = concat("Input: ", run.input.as_str());
            q = concat(q.as_str(), "\nExpected Criteria/Answer: ");
            q = concat(q.as_str(), expected.as_str());
            q = concat(q.as_str(), "\nActual Output: ");
            q = concat(q.as_str(), run.output.as_str());
            q = concat(q.as_str(), "\n\nEvaluate if the Actual Output meets the Expected Criteria.");
            let mut v: Vec<Message> = Vec::new();
            v.push(Message { role: "system".to_string(), content: JUDGE_SYSTEM_PROMPT.to_string() });
            v.push(Message { role: "user".to_string(), content: q });
            Some(v)
        },
    }
}

/// The judge's answer without surrounding whitespace and Markdown code fences:
/// trimmed, then leading "```json" and "```" and trailing "```" removed, then
/// trimmed again.
pub open spec fn clean_spec(response: Seq<char>) -> Seq<char> {
    trim_spec(
        strip_suffixes_spec(
            strip_prefixes_spec(strip_prefixes_spec(trim_spec(response), "```json"@), "```"@),
            "```"@,
        ),
    )
}

/// The judge's answer, cleaned for reading as JSON.
pub fn clean_judge_response(response: &str) -> (r: String)
    ensures
        r@ == clean_spec(response@),
{
    let t = trim_chars(&chars_of(response));
    let t = strip_prefixes(&t, &chars_of("```json"));
    let fence = chars_of("```");
    let t = strip_prefixes(&t, &fence);
    let t = strip_suffixes(&t, &fence);
    let t = trim_chars(&t);
    string_from_chars(t.as_slice())
}

/// The view of a judge reply.
pub enum JudgeReplyView {
    Skipped,
    CallFailed(ErrorView),
    Answered(Seq<char>, Result<(bool, Seq<char>), Seq<char>>),
}

impl View for JudgeReply {
    type V = JudgeReplyView;

    open spec fn view(&self) -> JudgeReplyView {
        match self {
            JudgeReply::Skipped => JudgeReplyView::Skipped,
            JudgeReply::CallFailed(e) => JudgeReplyView::CallFailed(e@),
            JudgeReply::Answered { response, parsed } => JudgeReplyView::Answered(
                response@,
                match parsed {
                    Ok(v) => Ok((v.passed, v.reason@)),
                    Err(e) => Err(e@),
                },
            ),
        }
    }
}

/// The text that an error view displays as.
pub open spec fn error_text(e: ErrorView) -> Seq<char> {
    match e {
        ErrorView::Io(_, m) => m,
        ErrorView::Config(m) => m,
        ErrorView::Network(m) => m,
    }
}

/// Whether an entry passed, and why, given what came of judging it.
pub open spec fn verdict(reply: JudgeReplyView) -> (bool, Seq<char>) {
    match reply {
        JudgeReplyView::Skipped => (true, "No expectation provided."@),
        JudgeReplyView::CallFailed(e) => (false, "Judge API call failed: "@ + error_text(e)),
        JudgeReplyView::Answered(_, Ok((passed, reason))) => (passed, reason),
        JudgeReplyView::Answered(response, Err(e)) => (
            false,
            "Failed to parse judge response: "@ + e + ". Response was: "@ + response,
        ),
    }
}

/// The eval log entry for `run`, given what came of judging it.
pub fn evaluate_entry(run: RunEntry, reply: JudgeReply) -> (e: EvalEntry)
    ensures
        e.block_id@ == run.block_id@,
        e.case_index == run.case_index,
        opt_view(e.expected) == opt_view(run.expected),
        e.output@ == run.output@,
        e.passed == verdict(reply@).0,
        e.reason matches Some(r) && r@ == verdict(reply@).1,
{
    let (passed, reason) = match reply {
        JudgeReply::Skipped => (true, "No expectation provided.".to_string()),
        JudgeReply::CallFailed(err) => (
            false,
            concat("Judge API call failed: ", err.message().as_str()),
        ),
        JudgeReply::Answered { response, parsed } => match parsed {
            Ok(v) => (v.passed, v.reason),
            Err(err) => {
                let m = concat("Failed to parse judge response: ", err.as_str());
                let m = concat(m.as_str(), ". Response was: ");
                (false, concat(m.as_str(), response.as_str()))
            },
        },
    };
    EvalEntry {
        block_id: run.block_id,
        case_index: run.case_index,
        expected: run.expected,
        output: run.output,
        passed,
        reason: Some(reason),
    }
}

} // verus!
