use zeroclaw_runtime::effect::{DeliveryFailure, EffectOutcome};
use zeroclaw_runtime::text::bounded;
use zeroclaw_runtime::turn::batch_failures::TerminalFailures;
use zeroclaw_runtime::turn::completion_repair::{append_instruction, is_initial_progress_only, INSTRUCTION};
use zeroclaw_runtime::turn::describe::{described, message, Message};
use zeroclaw_runtime::turn::error::{
    is_tool_loop_cancelled, Cause, CauseKind, DeadlineExceeded, Phase, TurnError,
};
use zeroclaw_runtime::turn::history_append::{
    append_tool_round_to_history, native_tool_result_content, ToolCall,
};
use zeroclaw_runtime::turn::message::ChatMessage;
use zeroclaw_runtime::turn::results_collect::{
    add_slot, admit_round, begin_tally, check_identical_output_abort, close_round,
    collect_tool_results, consult, history_results_fit, is_pending_delegate_wait,
    CollectedResults, Consult, LoopVerdict, RecoveryTrigger, ResultBudgetExceeded, SlotReport,
};
use zeroclaw_runtime::turn::tool::{
    batch_text, Elapsed, OrderedResults, ParsedToolCall, ToolExecutionOutcome, ToolFailureKind,
};

const MAX_BATCH_CALLS: usize = 128;
const ROUND_PAYLOAD_BYTES: usize = 65_536;
const RATE_LIMIT_ERR: &str = "Rate limit exceeded: too many actions in the last hour";

fn deadline() -> TurnError {
    TurnError::new(Cause::DeadlineExceeded(DeadlineExceeded {
        phase: Phase::Tool,
        started: true,
    }))
}

fn delivery() -> TurnError {
    TurnError::new(Cause::Delivery(DeliveryFailure {
        outcome: EffectOutcome::PossiblyApplied,
        chunk_index: 1,
        total_chunks: 2,
        confirmed_chunks: 1,
    }))
}

#[test]
fn maximum_batch_retains_original_positions_and_bounds_context_summary() {
    let mut failures = TerminalFailures::new();
    for call_index in 0..MAX_BATCH_CALLS - 1 {
        failures.push(call_index, deadline(), "fixture deadline".to_string());
    }
    let display = format!("{}token=fixture-private-value", "😀".repeat(1100));
    let mut summary = bounded(&display, 4096 - " [rest omitted]".len());
    summary.push_str(" [rest omitted]");
    failures.push(MAX_BATCH_CALLS - 1, delivery(), summary);
    let error = failures.into_error().unwrap();
    assert!(error.is(CauseKind::Delivery));
    assert!(error.is(CauseKind::RetainedToolFailures));
    let evidence = error
        .layers
        .iter()
        .find_map(|l| match &l.cause {
            Cause::RetainedToolFailures(r) => Some(r),
            _ => None,
        })
        .unwrap();
    assert_eq!(evidence.primary_call_index, MAX_BATCH_CALLS - 1);
    assert_eq!(evidence.siblings.len(), MAX_BATCH_CALLS - 1);
    for (position, (index, original)) in evidence.siblings.iter().enumerate() {
        assert_eq!(*index, position);
        let started = original.layers.iter().any(|l| match &l.cause {
            Cause::DeadlineExceeded(d) => d.started,
            _ => false,
        });
        assert!(started);
    }
    let shown = match message(&error) {
        Message::Text(text) => text,
        _ => unreachable!(),
    };
    assert!(shown.len() <= 4096);
    assert!(shown.contains("omitted"));
    assert!(!shown.contains("fixture-private-value"));
    let text = described(&error.layers[0].cause).unwrap();
    assert_eq!(text, "RetainedToolFailures { primary_call_index: 127, sibling_count: 127, .. }");
    assert!(text.len() < 200);
}

#[test]
fn empty_and_single_failure_keep_existing_routing_and_display() {
    assert!(TerminalFailures::new().into_error().is_none());
    let mut failures = TerminalFailures::new();
    failures.push(
        3,
        TurnError::new(Cause::ToolLoopCancelled),
        "fixture display projection".to_string(),
    );
    let error = failures.into_error().unwrap();
    assert!(is_tool_loop_cancelled(&error));
    assert_eq!(error.layers.len(), 1);
    assert!(matches!(error.layers[0].cause, Cause::ToolLoopCancelled));
    assert!(!error.is(CauseKind::RetainedToolFailures));
}

#[test]
fn delivery_failure_stands_for_the_batch_whenever_it_comes() {
    let mut failures = TerminalFailures::new();
    failures.push(5, delivery(), "first".to_string());
    failures.push(1, deadline(), "second".to_string());
    failures.push(0, TurnError::new(Cause::ToolLoopCancelled), "third".to_string());
    let error = failures.into_error().unwrap();
    assert!(error.is(CauseKind::Delivery));
    let siblings: Vec<usize> = error
        .layers
        .iter()
        .find_map(|l| match &l.cause {
            Cause::RetainedToolFailures(r) => {
                assert_eq!(r.primary_call_index, 5);
                assert_eq!(r.summary, "first");
                Some(r.siblings.iter().map(|s| s.0).collect())
            }
            _ => None,
        })
        .unwrap();
    assert_eq!(siblings, vec![0, 1]);
}

#[test]
fn only_unstarted_action_preambles_request_repair() {
    let checkpoint = "partial checkpoint";
    let history = || vec![ChatMessage::user("Please review the forms.")];
    for text in [
        "I’m checking the actual thread now. I’ll give you the reviewed forms and specific callouts, not another placeholder update.",
        "I’m doing the review now. First I’m retrieving the exact email thread.",
        "I'm checking the codebase and background tasks to see where things stand.",
        "I’m here. I dropped the follow-through. I’m doing the actual review now, starting with the attachments.",
    ] {
        assert!(is_initial_progress_only(text, &history(), checkpoint), "{text}");
    }
    for text in [
        "The forms are complete.",
        "I'm checking the forms. The signature is missing.",
        "I'm checking the forms but cannot access the attachment.",
        "I'm checking the forms. Which thread should I use?",
        "I'm checking the forms and already found the missing signature.",
        "I'll let you know as soon as there's a verified milestone.",
        "The sentence is: I'm checking the forms.",
        "I'm waiting for your approval.",
        "I'm looking forward to hearing from you.",
        "I'll look forward to it.",
        "I'm doing well, thanks.",
        "I'm reading this as a request for a plan.",
    ] {
        assert!(!is_initial_progress_only(text, &history(), checkpoint), "{text}");
    }
    for request in [
        "Rewrite this update in the first person.",
        "Give me a plan for reviewing forms.",
        "What are you doing?",
        "Translate this sentence.",
        "Respond with I'm checking the forms.",
        "Write an update saying you are checking the forms.",
    ] {
        assert!(!is_initial_progress_only(
            "I'm checking the forms.",
            &[ChatMessage::user(request)],
            checkpoint
        ));
    }
    for evidence in [
        ("tool", "result"),
        ("user", "[Tool results]\nresult"),
        ("assistant", r#"{"content":null,"tool_calls":[{"name":"send"}]}"#),
    ] {
        let mut attempted = history();
        attempted.push(ChatMessage::new(evidence.0, evidence.1));
        assert!(!is_initial_progress_only("I'm checking the forms.", &attempted, checkpoint));
        attempted.push(ChatMessage::user(checkpoint));
        assert!(
            !is_initial_progress_only("I'm checking the forms.", &attempted, checkpoint),
            "runtime checkpoint must not hide prior execution"
        );
    }
}

#[test]
fn upper_case_progress_is_read_in_lower_case() {
    let history = vec![ChatMessage::user("Please review the forms.")];
    assert!(is_initial_progress_only("I'M CHECKING THE FORMS.", &history, "checkpoint"));
    assert!(!is_initial_progress_only("I'M CHECKING THE FORMS. DONE.", &history, "checkpoint"));
}

#[test]
fn repair_instruction_joins_the_first_system_message() {
    let mut messages = vec![ChatMessage::user("hello")];
    append_instruction(&mut messages);
    assert_eq!(messages.len(), 2);
    assert_eq!(messages[0].role, "system");
    assert_eq!(messages[0].content, INSTRUCTION);
    assert_eq!(messages[1].content, "hello");
    append_instruction(&mut messages);
    assert_eq!(messages.len(), 2);
    assert_eq!(messages[0].content, format!("{INSTRUCTION}\n\n{INSTRUCTION}"));
}

fn outcome(output: &str, success: bool) -> ToolExecutionOutcome {
    ToolExecutionOutcome {
        output: output.to_string(),
        output_data: None,
        success,
        error_reason: if success { None } else { Some(output.to_string()) },
        failure_kind: if success { None } else { Some(ToolFailureKind::Ordinary) },
        duration: Elapsed { secs: 0, nanos: 1_000_000 },
        receipt: None,
    }
}

fn quiet() -> SlotReport {
    SlotReport { observed: None, verdict: LoopVerdict::Clear }
}

fn canonical_of(ordered: &OrderedResults) -> Vec<String> {
    ordered
        .iter()
        .map(|slot| match slot {
            Some((_, _, o)) => o.output.clone(),
            None => String::new(),
        })
        .collect()
}

fn collect_fixture(
    ordered: OrderedResults,
    limit: usize,
) -> Result<CollectedResults, ResultBudgetExceeded> {
    let canonical = canonical_of(&ordered);
    let reports = (0..ordered.len()).map(|_| quiet()).collect();
    collect_tool_results(ordered, &canonical, &[], &[], reports, limit, ROUND_PAYLOAD_BYTES, 0)
}

#[test]
fn oversized_source_fields_retain_original_evidence_in_terminal_error() {
    for field in ["name", "id", "error", "data", "receipt"] {
        let huge = "private-fixture\u{0001}😀".repeat(4000);
        let mut result = outcome("confirmed fixture", true);
        result.receipt = Some("fixture-receipt".into());
        let mut name = "fixture-tool".to_owned();
        let mut id = Some("fixture-id".to_owned());
        match field {
            "name" => name = huge.clone(),
            "id" => id = Some(huge.clone()),
            "error" => result.error_reason = Some(huge.clone()),
            "data" => {
                let mut map = serde_json::Map::new();
                map.insert("scope".to_string(), serde_json::Value::from(huge.clone()));
                result.output_data = Some(serde_json::Value::Object(map).to_string());
            }
            "receipt" => result.receipt = Some(huge.clone()),
            _ => unreachable!(),
        }
        let retained = collect_fixture(vec![Some((name, id, result))], 32768).err().unwrap();
        let (name, id, outcome) = retained.results[0].as_ref().unwrap();
        assert!(outcome.success);
        assert_eq!(outcome.output, "confirmed fixture");
        match field {
            "name" => assert_eq!(name, &huge),
            "id" => assert_eq!(id.as_deref(), Some(huge.as_str())),
            "error" => assert_eq!(outcome.error_reason.as_deref(), Some(huge.as_str())),
            "data" => {
                let data: serde_json::Value =
                    serde_json::from_str(outcome.output_data.as_ref().unwrap()).unwrap();
                assert_eq!(data["scope"], huge);
            }
            "receipt" => assert_eq!(outcome.receipt.as_deref(), Some(huge.as_str())),
            _ => unreachable!(),
        }
        let error = TurnError::new(Cause::ResultBudgetExceeded(retained));
        let text = described(&error.layers[0].cause).unwrap();
        assert!(!text.contains("private-fixture"));
        assert_eq!(text, "ResultBudgetExceeded { result_count: 1, error_count: 0, .. }");
        assert!(matches!(message(&error), Message::Key("turn-tool-result-budget-exceeded")));
    }
}

#[test]
fn tiny_configured_budget_is_not_silently_raised() {
    let mut result = outcome("confirmed fixture", true);
    result.receipt = Some("fixture-receipt".into());
    let evidence =
        collect_fixture(vec![Some(("fixture".into(), None, result))], 1).err().unwrap();
    assert_eq!(
        evidence.results[0].as_ref().unwrap().2.receipt.as_deref(),
        Some("fixture-receipt")
    );
}

fn encoded(history: &[ChatMessage]) -> usize {
    let list: Vec<serde_json::Value> = history
        .iter()
        .map(|m| {
            let mut map = serde_json::Map::new();
            map.insert("role".to_string(), serde_json::Value::from(m.role.as_str()));
            map.insert("content".to_string(), serde_json::Value::from(m.content.as_str()));
            serde_json::Value::Object(map)
        })
        .collect();
    serde_json::to_vec(&list).unwrap().len()
}

#[test]
fn actual_native_and_prompt_history_stay_within_round_budget() {
    let ordered = (0..MAX_BATCH_CALLS)
        .map(|i| {
            let mut result = outcome(&"😀\"\\\n".repeat(8), true);
            result.receipt = Some("fixture-receipt".into());
            Some(("file_read".into(), Some(format!("fixture-{i}")), result))
        })
        .collect();
    let collected = collect_fixture(ordered, 32768).ok().unwrap();
    for native in [false, true] {
        let mut history = Vec::new();
        append_tool_round_to_history(
            &mut history,
            String::new(),
            &[],
            &collected.individual_results,
            &collected.tool_results,
            native,
        );
        let size = encoded(&history[1..]);
        assert!(size <= ROUND_PAYLOAD_BYTES, "{size}");
        assert_eq!(collected.individual_results.len(), 128);
        assert!(history.last().unwrap().content.contains("fixture-receipt"));
    }
}

#[test]
fn nested_history_json_escaping_is_included_in_budget() {
    let result = vec![(Some("fixture-id".to_string()), "\u{0001}".repeat(100))];
    let raw = serde_json::to_vec(&result).unwrap().len();
    assert!(!history_results_fit(&result, "", raw, ROUND_PAYLOAD_BYTES));
    assert!(history_results_fit(&result, "", raw * 2, ROUND_PAYLOAD_BYTES));
}

#[test]
fn rejected_projection_does_not_mutate_history_or_receipt_collector() {
    let mut result = outcome(&"\\".repeat(120), true);
    result.receipt = Some("fixture-receipt".into());
    let ordered = vec![Some(("fixture".into(), Some("fixture-id".into()), result))];
    assert!(
        batch_text(&ordered).len() <= 512,
        "source fits; history escaping must reject"
    );
    let retained = collect_fixture(ordered, 512).err().unwrap();
    assert_eq!(retained.results.len(), 1);
    assert!(retained.errors.is_empty());
    let (name, id, kept) = retained.results[0].as_ref().unwrap();
    assert_eq!(name, "fixture");
    assert_eq!(id.as_deref(), Some("fixture-id"));
    assert_eq!(kept.output, "\\".repeat(120));
}

#[test]
fn aggregate_metadata_is_counted_even_when_each_result_fits() {
    let ordered = (0..128)
        .map(|i| {
            let mut result = outcome("ok", true);
            let mut map = serde_json::Map::new();
            map.insert("metadata".to_string(), serde_json::Value::from("x".repeat(512)));
            result.output_data = Some(serde_json::Value::Object(map).to_string());
            Some(("file_read".into(), Some(format!("fixture-{i}")), result))
        })
        .collect();
    let retained = collect_fixture(ordered, 32768).err().unwrap();
    assert_eq!(retained.results.len(), 128);
}

fn wait_output(missing: &str) -> String {
    format!(r#"{{"status":"timeout","pending":["worker"],"failed":[],"missing":[{missing}]}}"#)
}

#[test]
fn blocking_pending_waits_do_not_consume_loop_recovery() {
    let output = wait_output("");
    let args = r#"{"action":"await_sessions","timeout_ms":120000}"#;
    for iteration in 0..8 {
        let ordered: OrderedResults =
            vec![Some(("delegate".into(), Some("wait".into()), outcome(&output, true)))];
        let canonical = canonical_of(&ordered);
        let result = collect_tool_results(
            ordered,
            &canonical,
            &[ParsedToolCall {
                name: "delegate".into(),
                arguments: args.to_string(),
                tool_call_id: Some("wait".into()),
            }],
            &[],
            vec![SlotReport {
                observed: None,
                verdict: LoopVerdict::Break("a detector that was asked would stop".into()),
            }],
            32768,
            ROUND_PAYLOAD_BYTES,
            iteration,
        )
        .ok()
        .unwrap();
        assert!(result.recovery_trigger.is_none());
        assert!(result.detection_relevant_output.is_empty());
        assert!(result.tool_results.contains("worker"));
    }
    assert!(is_pending_delegate_wait("delegate", args, &outcome(&output, true)));
    assert!(!is_pending_delegate_wait(
        "delegate",
        r#"{"action":"await_sessions","timeout_ms":0}"#,
        &outcome(&output, true)
    ));
    assert!(!is_pending_delegate_wait("delegate", args, &outcome(&output, false)));
    assert!(!is_pending_delegate_wait("shell", args, &outcome(&output, true)));
    assert!(!is_pending_delegate_wait(
        "delegate",
        args,
        &outcome(&wait_output("\"unknown\""), true)
    ));
}

fn run(n: usize, output: &str, success: bool) -> CollectedResults {
    let mut tool_calls = Vec::new();
    let mut ordered: OrderedResults = Vec::new();
    let mut reports = Vec::new();
    for i in 0..n {
        tool_calls.push(ParsedToolCall {
            name: "file_read".to_string(),
            arguments: format!(r#"{{"path":"file_{i}.rs"}}"#),
            tool_call_id: None,
        });
        ordered.push(Some(("file_read".to_string(), None, outcome(output, success))));
        reports.push(SlotReport {
            observed: None,
            verdict: if i >= 4 {
                LoopVerdict::Break("identical results".into())
            } else {
                LoopVerdict::Clear
            },
        });
    }
    let canonical = canonical_of(&ordered);
    collect_tool_results(
        ordered,
        &canonical,
        &tool_calls,
        &[],
        reports,
        10_000,
        ROUND_PAYLOAD_BYTES,
        0,
    )
    .ok()
    .unwrap()
}

#[test]
fn failed_tool_results_do_not_trip_no_progress_breaker() {
    let collected = run(8, RATE_LIMIT_ERR, false);
    assert!(collected.recovery_trigger.is_none());
    assert_eq!(collected.individual_results.len(), 8);
    assert!(collected
        .individual_results
        .iter()
        .all(|(_, result)| result.contains(RATE_LIMIT_ERR)));
}

#[test]
fn successful_identical_results_still_trip_no_progress_breaker() {
    let collected = run(8, "byte-identical successful output", true);
    assert!(matches!(
        collected.recovery_trigger,
        Some(RecoveryTrigger::CircuitBreaker { .. })
    ));
}

fn run_hash_path(n: usize, output: &str, success: bool) -> bool {
    let mut consecutive = 0usize;
    let mut last: Option<u64> = None;
    for iteration in 0..n {
        let ordered: OrderedResults =
            vec![Some(("file_read".to_string(), None, outcome(output, success)))];
        let canonical = canonical_of(&ordered);
        let collected = collect_tool_results(
            ordered,
            &canonical,
            &[ParsedToolCall {
                name: "file_read".to_string(),
                arguments: format!(r#"{{"path":"file_{iteration}.rs"}}"#),
                tool_call_id: None,
            }],
            &[],
            vec![quiet()],
            10_000,
            ROUND_PAYLOAD_BYTES,
            iteration,
        )
        .ok()
        .unwrap();
        if check_identical_output_abort(
            &collected.detection_relevant_output,
            Elapsed { secs: 0, nanos: 0 },
            Some(0),
            &mut consecutive,
            &mut last,
            iteration,
        )
        .is_some()
        {
            return false;
        }
    }
    true
}

#[test]
fn failed_identical_outputs_do_not_trip_hash_based_abort() {
    assert!(run_hash_path(8, RATE_LIMIT_ERR, false));
}

#[test]
fn identical_successful_outputs_trip_the_hash_based_abort() {
    assert!(!run_hash_path(8, "byte-identical successful output", true));
}

#[test]
fn native_results_name_their_call() {
    let content = native_tool_result_content(&Some("call-1".to_string()), "a \"quoted\" result");
    let value: serde_json::Value = serde_json::from_str(&content).unwrap();
    assert_eq!(value["tool_call_id"], "call-1");
    assert_eq!(value["content"], "a \"quoted\" result");
    let mut history = Vec::new();
    append_tool_round_to_history(
        &mut history,
        "assistant text".to_string(),
        &[ToolCall {
            id: "call-1".to_string(),
            name: "shell".to_string(),
            arguments: "{}".to_string(),
        }],
        &[(Some("call-1".to_string()), "done".to_string())],
        "",
        true,
    );
    assert_eq!(history.len(), 2);
    assert_eq!(history[0].role, "assistant");
    assert_eq!(history[1].role, "tool");
}

#[test]
fn the_third_identical_output_stops_the_loop_and_another_starts_anew() {
    let mut count = 0usize;
    let mut last: Option<u64> = None;
    let look = |output: &str, count: &mut usize, last: &mut Option<u64>| {
        check_identical_output_abort(
            output,
            Elapsed { secs: 5, nanos: 0 },
            Some(5),
            count,
            last,
            7,
        )
    };
    for _ in 0..2 {
        assert!(look("same", &mut count, &mut last).is_none());
    }
    assert!(look("", &mut count, &mut last).is_none());
    assert_eq!(count, 2);
    assert!(matches!(
        look("same", &mut count, &mut last),
        Some(RecoveryTrigger::IdenticalOutput { count: 3, iteration: 7 })
    ));
    assert!(matches!(
        look("same", &mut count, &mut last),
        Some(RecoveryTrigger::IdenticalOutput { count: 4, iteration: 7 })
    ));
    assert!(look("other", &mut count, &mut last).is_none());
    assert_eq!(count, 1);
    assert!(look("same", &mut count, &mut last).is_none());
    assert!(check_identical_output_abort(
        "same",
        Elapsed { secs: 4, nanos: 999_999_999 },
        Some(5),
        &mut count,
        &mut last,
        7,
    )
    .is_none());
    assert_eq!(count, 1);
}

#[test]
fn the_tracker_is_asked_until_a_trigger_is_known_and_the_detector_about_successes() {
    let ordered: OrderedResults = vec![
        Some(("failing".to_string(), None, outcome("no", false))),
        None,
        Some(("reading".to_string(), None, outcome("one", true))),
        Some(("ignored".to_string(), None, outcome("two", true))),
    ];
    let canonical = canonical_of(&ordered);
    let round = admit_round(ordered, &canonical, 10_000, ROUND_PAYLOAD_BYTES).ok().unwrap();
    let mut tally = begin_tally();
    let mut asked = Vec::new();
    for i in 0..round.ordered.len() {
        asked.push(consult(&round, &tally, &[], &["ignored"], i));
        let report = SlotReport {
            observed: if i == 2 { Some(RecoveryTrigger::Observed("stuck".into())) } else { None },
            verdict: LoopVerdict::Break("loop".into()),
        };
        add_slot(&mut tally, &round, &[], &["ignored"], i, report, 4);
    }
    assert_eq!(
        asked,
        vec![
            Consult { tracker: true, detector: false },
            Consult { tracker: false, detector: false },
            Consult { tracker: true, detector: true },
            Consult { tracker: false, detector: false },
        ]
    );
    let collected = close_round(round, tally);
    assert_eq!(collected.detection_relevant_output, "one");
    assert_eq!(collected.individual_results.len(), 3);
    assert!(matches!(
        collected.recovery_trigger,
        Some(RecoveryTrigger::Observed(text)) if text == "stuck"
    ));
}

#[test]
fn rejections_stand_in_front_of_what_was_known_before() {
    let r = ResultBudgetExceeded::from_error(delivery());
    assert!(r.results.is_empty());
    assert_eq!(r.errors.len(), 1);
    let e = r.with_prior(Some(deadline()));
    assert!(e.is(CauseKind::ResultBudgetExceeded) && e.is(CauseKind::DeadlineExceeded));
    assert!(!e.mentions(CauseKind::Delivery));
    assert!(e.layers[0].context);
    let e = ResultBudgetExceeded::from_error(delivery()).with_prior(None);
    assert_eq!(e.layers.len(), 1);
    assert!(!e.layers[0].context);
}
