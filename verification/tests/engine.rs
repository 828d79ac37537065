use tls::engine::add_item::AddItem;
use tls::engine::delete_item::DeleteItem;
use tls::engine::evaluator::{
    clean_judge_response, evaluate_entry, judge_messages, JudgeReply, JudgeVerdict, JUDGE_SYSTEM_PROMPT,
};
use tls::engine::list_items::ListItems;
use tls::engine::reporter::generate_report;
use tls::engine::runner::{plan_requests, record_reply, select_blocks, RunRequest};
use tls::engine::test_support::MockStorage;
use tls::engine::Execute;
use tls::error::{AppError, ErrorKind, IoError};
use tls::model::{BlockMetadata, EvalEntry, EvaluationBlock, Prompts, RunEntry, TestCase};

#[test]
fn add_item_forwards_to_storage() {
    let mut storage = MockStorage::default();
    let command = AddItem { id: "demo", content: "example" };

    command.execute(&mut storage).expect("execution should succeed");

    let calls = &storage.add_calls;
    assert_eq!(calls.len(), 1);
    assert_eq!(calls[0], ("demo".to_string(), "example".to_string()));
}

#[test]
fn delete_item_forwards_to_storage() {
    let mut storage = MockStorage::default();
    let command = DeleteItem { id: "demo" };

    command.execute(&mut storage).expect("execution should succeed");

    let calls = &storage.delete_calls;
    assert_eq!(calls.as_slice(), ["demo".to_string()]);
}

#[test]
fn list_items_returns_storage_values() {
    let mut storage = MockStorage::default();
    storage.set_list_items(&["first", "second"]);

    let items = ListItems.execute(&mut storage).expect("execution should succeed");
    assert_eq!(items, vec!["first".to_string(), "second".to_string()]);
}

fn block(id: &str, input: &str, expected: Option<&str>) -> EvaluationBlock {
    EvaluationBlock {
        metadata: BlockMetadata {
            id: id.to_string(),
            description: None,
            version: None,
            model: "llama3.2:3b".to_string(),
        },
        prompts: Prompts { system: "You are a helpful assistant.".to_string() },
        dataset: vec![TestCase { input: input.to_string(), expected: expected.map(|s| s.to_string()) }],
    }
}

fn ids(blocks: &[EvaluationBlock]) -> Vec<String> {
    blocks.iter().map(|b| b.metadata.id.clone()).collect()
}

fn run_entries(blocks: &Vec<EvaluationBlock>, answer: &str) -> Vec<RunEntry> {
    plan_requests(blocks)
        .into_iter()
        .map(|req| record_reply(req, Ok(answer.to_string()), "2024-01-01T00:00:00Z".to_string()))
        .collect()
}

#[test]
fn run_run_executes_benchmarks_only_by_default() {
    let blocks = select_blocks(
        vec![block("greeting", "hello", Some("echo: hello"))],
        vec![block("farewell", "bye", Some("echo: bye"))],
        false,
        None,
    )
    .expect("blocks should be selected");
    let entries = run_entries(&blocks, "echo: hello");
    assert!(entries.iter().all(|e| e.block_id == "greeting"));
    assert_eq!(entries.len(), 1);
}

#[test]
fn run_eval_report_run_executes_benchmarks_only_by_default() {
    let blocks = select_blocks(
        vec![block("greeting", "hello", Some("echo: hello"))],
        vec![block("farewell", "bye", Some("echo: bye"))],
        false,
        None,
    )
    .expect("blocks should be selected");
    assert_eq!(ids(&blocks), vec!["greeting".to_string()]);
}

fn bench_and_metric() -> (Vec<EvaluationBlock>, Vec<EvaluationBlock>) {
    (
        vec![block("bench", "hello", Some("echo: hello"))],
        vec![block("metric", "bye", Some("echo: bye"))],
    )
}

#[test]
fn run_run_can_include_metrics_and_filter_by_id() {
    let (b, m) = bench_and_metric();
    let blocks = select_blocks(b, m, true, None).expect("blocks should be selected");
    let ids_all: Vec<String> = run_entries(&blocks, "echo: hello").into_iter().map(|e| e.block_id).collect();
    assert!(ids_all.contains(&"bench".to_string()));
    assert!(ids_all.contains(&"metric".to_string()));

    let (b, m) = bench_and_metric();
    let blocks = select_blocks(b, m, false, Some("metric")).expect("blocks should be selected");
    let ids_one: Vec<String> = run_entries(&blocks, "echo: hello").into_iter().map(|e| e.block_id).collect();
    assert_eq!(ids_one, vec!["metric".to_string()]);
}

#[test]
fn run_eval_report_run_can_include_metrics_and_filter_by_id() {
    let (b, m) = bench_and_metric();
    let blocks = select_blocks(b, m, true, None).expect("blocks should be selected");
    assert_eq!(ids(&blocks), vec!["bench".to_string(), "metric".to_string()]);

    let (b, m) = bench_and_metric();
    let blocks = select_blocks(b, m, false, Some("metric")).expect("blocks should be selected");
    assert_eq!(ids(&blocks), vec!["metric".to_string()]);
}

#[test]
fn select_blocks_without_match_is_config_error() {
    let (b, m) = bench_and_metric();
    let err = select_blocks(b, m, true, Some("missing")).err().expect("no block has that id");
    assert_eq!(err.kind(), ErrorKind::InvalidInput);
    assert_eq!(err.message(), "No evaluation blocks found");
    let err = select_blocks(vec![], vec![block("m", "x", None)], false, None).err().expect("no benchmarks");
    assert_eq!(err.message(), "No evaluation blocks found");
}

#[test]
fn plan_requests_sends_system_prompt_then_input() {
    let mut second = block("b2", "first", None);
    second.dataset.push(TestCase { input: "second".to_string(), expected: Some("2".to_string()) });
    let blocks = vec![block("b1", "only", Some("1")), second];
    let reqs: Vec<RunRequest> = plan_requests(&blocks);
    assert_eq!(reqs.len(), 3);
    assert_eq!(reqs[0].block_id, "b1");
    assert_eq!(reqs[0].case_index, 0);
    assert_eq!(reqs[2].block_id, "b2");
    assert_eq!(reqs[2].case_index, 1);
    assert_eq!(reqs[2].input, "second");
    assert_eq!(reqs[2].expected, Some("2".to_string()));
    assert_eq!(reqs[2].model, "llama3.2:3b");
    assert_eq!(reqs[2].messages[0].role, "system");
    assert_eq!(reqs[2].messages[0].content, "You are a helpful assistant.");
    assert_eq!(reqs[2].messages[1].role, "user");
    assert_eq!(reqs[2].messages[1].content, "second");
}

#[test]
fn record_reply_writes_error_text_as_output() {
    let blocks = vec![block("b", "in", None)];
    let req = plan_requests(&blocks).pop().expect("one request");
    let entry = record_reply(req, Err(AppError::NetworkError("boom".to_string())), "2024-05-06T07:08:09.123Z".to_string());
    assert_eq!(entry.output, "Error: boom");
    assert_eq!(entry.input, "in");
    assert_eq!(entry.timestamp, "2024-05-06T07:08:09.123Z");
}

fn run_entry(expected: Option<&str>) -> RunEntry {
    RunEntry {
        block_id: "echo".to_string(),
        case_index: 0,
        input: "ping".to_string(),
        expected: expected.map(|s| s.to_string()),
        output: "echo: ping".to_string(),
        timestamp: "2024-01-01T00:00:00Z".to_string(),
    }
}

#[test]
fn eval_and_report_produce_outputs() {
    let run = run_entry(Some("echo: ping"));
    assert!(judge_messages(&run).is_some());
    let response = "```json\n{\"passed\": true, \"reason\": \"matches\"}\n```";
    assert_eq!(clean_judge_response(response), "{\"passed\": true, \"reason\": \"matches\"}");
    let eval = evaluate_entry(
        run,
        JudgeReply::Answered {
            response: response.to_string(),
            parsed: Ok(JudgeVerdict { passed: true, reason: "matches".to_string() }),
        },
    );
    let rows = vec![eval];
    assert!(rows.iter().all(|row| row.passed));

    let report = generate_report("run.jsonl", "eval.jsonl", &rows);
    assert!(report.contains("Total cases: 1"));
    assert!(report.contains("Passed: 1"));
}

#[test]
fn judge_messages_ask_about_input_expectation_and_output() {
    let run = run_entry(Some("echo: ping"));
    let messages = judge_messages(&run).expect("an expectation is judged");
    assert_eq!(messages.len(), 2);
    assert_eq!(messages[0].role, "system");
    assert_eq!(messages[0].content, JUDGE_SYSTEM_PROMPT);
    assert_eq!(messages[1].role, "user");
    assert_eq!(
        messages[1].content,
        "Input: ping\nExpected Criteria/Answer: echo: ping\nActual Output: echo: ping\n\nEvaluate if the Actual Output meets the Expected Criteria."
    );
    assert!(judge_messages(&run_entry(None)).is_none());
}

#[test]
fn clean_judge_response_strips_repeated_fences_and_whitespace() {
    assert_eq!(clean_judge_response("  ```json```{\"a\":1}``````  \n"), "{\"a\":1}");
    assert_eq!(clean_judge_response("plain"), "plain");
    assert_eq!(clean_judge_response("\u{3000}```\n x \n```\t"), "x");
}

#[test]
fn evaluate_entry_verdicts() {
    let skipped = evaluate_entry(run_entry(None), JudgeReply::Skipped);
    assert!(skipped.passed);
    assert_eq!(skipped.reason, Some("No expectation provided.".to_string()));

    let failed = evaluate_entry(
        run_entry(Some("x")),
        JudgeReply::CallFailed(AppError::NetworkError("down".to_string())),
    );
    assert!(!failed.passed);
    assert_eq!(failed.reason, Some("Judge API call failed: down".to_string()));

    let unreadable = evaluate_entry(
        run_entry(Some("x")),
        JudgeReply::Answered { response: "nope".to_string(), parsed: Err("expected value".to_string()) },
    );
    assert!(!unreadable.passed);
    assert_eq!(
        unreadable.reason,
        Some("Failed to parse judge response: expected value. Response was: nope".to_string())
    );

    let rejected = evaluate_entry(
        run_entry(Some("x")),
        JudgeReply::Answered {
            response: "{}".to_string(),
            parsed: Ok(JudgeVerdict { passed: false, reason: "wrong".to_string() }),
        },
    );
    assert!(!rejected.passed);
    assert_eq!(rejected.reason, Some("wrong".to_string()));
    assert_eq!(rejected.output, "echo: ping");
    assert_eq!(rejected.block_id, "echo");
}

#[test]
fn report_lists_failures_with_debug_expectations() {
    let rows = vec![
        EvalEntry {
            block_id: "a".to_string(),
            case_index: 0,
            expected: None,
            output: "o1".to_string(),
            passed: true,
            reason: None,
        },
        EvalEntry {
            block_id: "b".to_string(),
            case_index: 12,
            expected: Some("say \"hi\"\n".to_string()),
            output: "o2".to_string(),
            passed: false,
            reason: None,
        },
        EvalEntry {
            block_id: "c".to_string(),
            case_index: 3,
            expected: None,
            output: "o3".to_string(),
            passed: false,
            reason: None,
        },
    ];
    let report = generate_report("r.jsonl", "e.jsonl", &rows);
    assert_eq!(
        report,
        "# Telescope Report\n\nRun log: r.jsonl\nEval log: e.jsonl\n\nTotal cases: 3\nPassed: 1\nFailed: 2\n\n## Failures\n- b case 12: expected Some(\"say \\\"hi\\\"\\n\"), got o2\n- c case 3: expected None, got o3\n"
    );
}

#[test]
fn report_without_failures_has_no_failure_section() {
    let report = generate_report("r", "e", &vec![]);
    assert_eq!(
        report,
        "# Telescope Report\n\nRun log: r\nEval log: e\n\nTotal cases: 0\nPassed: 0\nFailed: 0\n\n"
    );
}

#[test]
fn app_error_kind_and_message() {
    let io = AppError::Io(IoError { kind: ErrorKind::NotFound, message: "gone".to_string() });
    assert_eq!(io.kind(), ErrorKind::NotFound);
    assert_eq!(io.message(), "gone");
    let config = AppError::ConfigError("bad".to_string());
    assert_eq!(config.kind(), ErrorKind::InvalidInput);
    assert_eq!(config.message(), "bad");
    let network = AppError::NetworkError("down".to_string());
    assert_eq!(network.kind(), ErrorKind::Other);
    assert_eq!(network.message(), "down");
}

fn eval_row(block_id: &str, case_index: usize, passed: bool) -> EvalEntry {
    EvalEntry {
        block_id: block_id.to_string(),
        case_index,
        expected: Some("x".to_string()),
        output: format!("out-{block_id}"),
        passed,
        reason: None,
    }
}

fn sorted_failure_lines(report: &str) -> Vec<String> {
    let mut lines: Vec<String> = report.lines().filter(|l| l.starts_with("- ")).map(|l| l.to_string()).collect();
    lines.sort();
    lines
}

#[test]
fn report_counts_and_failures_do_not_depend_on_entry_order() {
    let first = vec![eval_row("a", 0, true), eval_row("b", 1, false), eval_row("c", 2, false), eval_row("d", 3, true)];
    let second = vec![eval_row("c", 2, false), eval_row("d", 3, true), eval_row("a", 0, true), eval_row("b", 1, false)];
    let r1 = generate_report("r", "e", &first);
    let r2 = generate_report("r", "e", &second);
    for line in ["Total cases: 4", "Passed: 2", "Failed: 2"] {
        assert!(r1.lines().any(|l| l == line), "{line}");
        assert!(r2.lines().any(|l| l == line), "{line}");
    }
    assert_eq!(sorted_failure_lines(&r1), sorted_failure_lines(&r2));
    assert_eq!(sorted_failure_lines(&r1).len(), 2);
    assert_ne!(r1, r2);
}

#[test]
fn app_error_keeps_newer_io_kinds() {
    for kind in [ErrorKind::NotADirectory, ErrorKind::IsADirectory, ErrorKind::DirectoryNotEmpty, ErrorKind::StorageFull] {
        let err = AppError::Io(IoError { kind, message: "m".to_string() });
        assert_eq!(err.kind(), kind);
    }
}
