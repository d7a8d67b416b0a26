use zeroclaw_runtime::approval::async_cli::{
    read_line, write_prompt, LineEnd, LineReader, LineStep, WriteEvent, WriteStep,
    MAX_APPROVAL_LINE_BYTES, YIELD_INTERVAL,
};
use zeroclaw_runtime::turn::approval_gate::{
    await_approval, gate_tool_approval, whom_to_ask, ApprovalGateOutcome, ApprovalRequirement,
    ApprovalResponse, AttributedApprovalResponse, ChannelApprovalResponse, GateVerdict, Question,
    Reply,
};
use zeroclaw_runtime::turn::batch_failures::TerminalFailures;
use zeroclaw_runtime::turn::describe::{described, message, Message};
use zeroclaw_runtime::turn::error::{
    is_estop_interrupted, is_tool_loop_cancelled, Cause, CauseKind, DeadlineExceeded, Phase,
    SopPhase, TurnError,
};
use zeroclaw_runtime::turn::owned_cancellation::{
    check, completed_after_interruption, interrupted, is_terminal, run_turn, with_stop_cause,
    ReadyStops, StopRequest, StopSignals, TurnEnd,
};
use zeroclaw_runtime::turn::post_exec::{record_executed_outcomes, whole_millis};
use zeroclaw_runtime::turn::sop_settlement::{
    action_run_id, assemble, audit, audit_error, cancel_then_advance, cancel_unstarted,
    execute_step, interrupted as interrupted_drive, terminal_step_error, with_action,
    AdvanceAttempt, AssemblyEnd, AuditSettlement, CancelAttempt, QueuedSopAction, SopDriveEvidence,
    SopRunAction, SopStepResult, SopStepStatus, StepEnd, StepSettlement,
};
use zeroclaw_runtime::turn::tool::{
    Elapsed, OrderedResults, ParsedToolCall, ToolExecutionOutcome, ToolFailureKind,
};

const NO_TIME: Elapsed = Elapsed { secs: 0, nanos: 0 };

fn cancelled() -> TurnError {
    TurnError::new(Cause::ToolLoopCancelled)
}

fn stopped() -> TurnError {
    TurnError::new(Cause::EstopInterrupted)
}

fn late(started: bool) -> TurnError {
    TurnError::new(Cause::DeadlineExceeded(DeadlineExceeded { phase: Phase::Turn, started }))
}

fn other(text: &str) -> TurnError {
    TurnError::new(Cause::Other(text.into()))
}

fn kinds(e: &TurnError) -> Vec<(CauseKind, bool)> {
    e.layers.iter().map(|l| (l.cause.get_kind(), l.context)).collect()
}

fn answer(response: ChannelApprovalResponse) -> Reply {
    Reply::Channel(Ok(Some(AttributedApprovalResponse {
        response,
        decided_by: None,
        runtime_fail_closed: false,
    })))
}

fn gate(reply: Reply) -> Result<GateVerdict, TurnError> {
    gate_tool_approval(
        Some(ApprovalRequirement::Prompt),
        reply,
        "shell",
        "approval-fixture",
        "clean".into(),
    )
}

#[test]
fn only_a_policy_that_prompts_asks_somebody() {
    let prompt = Some(ApprovalRequirement::Prompt);
    assert_eq!(whom_to_ask(None, true, true), Question::Nobody);
    assert_eq!(whom_to_ask(Some(ApprovalRequirement::NotRequired), false, true), Question::Nobody);
    assert_eq!(whom_to_ask(Some(ApprovalRequirement::Approved), true, false), Question::Nobody);
    assert_eq!(whom_to_ask(prompt, true, true), Question::Channel);
    assert_eq!(whom_to_ask(prompt, true, false), Question::Unreachable);
    assert_eq!(whom_to_ask(prompt, false, true), Question::Terminal);
    assert_eq!(whom_to_ask(prompt, false, false), Question::Terminal);
}

#[test]
fn calls_without_a_prompt_proceed_as_the_policy_has_it() {
    for (requirement, expected) in [
        (None, false),
        (Some(ApprovalRequirement::NotRequired), false),
        (Some(ApprovalRequirement::Approved), true),
    ] {
        let v = gate_tool_approval(requirement, Reply::Unasked, "shell", "c", String::new())
            .ok()
            .unwrap();
        assert!(v.recorded.is_none() && v.status.is_none());
        assert!(
            matches!(v.outcome, ApprovalGateOutcome::Proceed { approved } if approved == expected)
        );
    }
}

#[test]
fn cancelled_channel_approval_drops_waiter_without_operator_decision() {
    let wait: Result<Option<AttributedApprovalResponse>, TurnError> = await_approval(
        Ok(Some(AttributedApprovalResponse {
            response: ChannelApprovalResponse::AlwaysApprove,
            decided_by: None,
            runtime_fail_closed: false,
        })),
        Ok(()),
        true,
    );
    let error = gate(Reply::Channel(wait)).err().expect("cancelled");
    assert!(is_tool_loop_cancelled(&error));
}

#[test]
fn channel_returned_estop_cause_is_preserved_without_operator_denial() {
    let wait: Result<Option<AttributedApprovalResponse>, TurnError> =
        await_approval(Err(stopped()), Ok(()), false);
    let error = gate(Reply::Channel(wait)).err().expect("terminal interruption");
    assert!(is_estop_interrupted(&error));
}

#[test]
fn tool_freeze_interrupts_pending_channel_approval_without_decision() {
    let wait: Result<Option<AttributedApprovalResponse>, TurnError> = await_approval(
        Ok(Some(AttributedApprovalResponse {
            response: ChannelApprovalResponse::Approve,
            decided_by: None,
            runtime_fail_closed: false,
        })),
        Err(stopped()),
        false,
    );
    let error = gate(Reply::Channel(wait)).err().expect("frozen");
    assert!(is_estop_interrupted(&error));
}

#[test]
fn an_emergency_stop_counts_before_a_cancellation() {
    assert_eq!(await_approval(Ok(7), Ok(()), false).ok(), Some(7));
    let e = await_approval(Ok(7), Err(stopped()), true).err().unwrap();
    assert!(is_estop_interrupted(&e));
    let e = await_approval::<u8>(Err(other("gone")), Err(stopped()), true).err().unwrap();
    assert_eq!(kinds(&e), vec![(CauseKind::Other, false)]);
    let e = await_approval(Ok(7), Ok(()), true).err().unwrap();
    assert_eq!(kinds(&e), vec![(CauseKind::ToolLoopCancelled, false)]);
}

#[test]
fn denials_say_whose_they_are() {
    let v = gate(answer(ChannelApprovalResponse::Deny)).ok().unwrap();
    let d = v.recorded.unwrap();
    assert!(matches!(d.response, ApprovalResponse::No));
    assert_eq!(d.channel, "approval-fixture");
    let told = "Denied by user. The operator was asked to approve 'shell' and declined, so the call did not run. Tell the user the request was declined. Do not retry this call and do not speculate about why it was declined.";
    assert_eq!(v.status.unwrap(), format!("\u{274c} shell: {told}\n"));
    match v.outcome {
        ApprovalGateOutcome::Deny(o) => {
            assert_eq!(o.output, told);
            assert_eq!(o.error_reason.as_deref(), Some(told));
            assert_eq!(o.failure_kind, Some(ToolFailureKind::OperatorDenied));
            assert!(!o.success);
        }
        _ => panic!("a denial was expected"),
    }
    let policy = "Tool call not executed: 'shell' requires approval and no operator decision was available, so the runtime denied it by policy. This was not a user's decision.";
    for reply in [
        Reply::Unasked,
        Reply::Channel(Ok(None)),
        Reply::Channel(Err(other("socket closed"))),
        Reply::Channel(Ok(Some(AttributedApprovalResponse {
            response: ChannelApprovalResponse::Deny,
            decided_by: None,
            runtime_fail_closed: true,
        }))),
        Reply::Terminal(Ok(Err("no terminal".into()))),
    ] {
        match gate(reply).ok().unwrap().outcome {
            ApprovalGateOutcome::Deny(o) => {
                assert_eq!(o.output, policy);
                assert_eq!(o.failure_kind, Some(ToolFailureKind::PolicyDenied));
            }
            _ => panic!("a denial was expected"),
        }
    }
}

#[test]
fn decisions_are_attributed_to_the_channel_that_made_them() {
    let v = gate(Reply::Channel(Ok(Some(AttributedApprovalResponse {
        response: ChannelApprovalResponse::AlwaysApprove,
        decided_by: Some("back".into()),
        runtime_fail_closed: false,
    }))))
    .ok()
    .unwrap();
    let d = v.recorded.unwrap();
    assert!(matches!(d.response, ApprovalResponse::Always));
    assert_eq!(d.channel, "back");
    assert!(v.status.is_none());
    assert!(matches!(v.outcome, ApprovalGateOutcome::Proceed { approved: true }));
    let v = gate(Reply::Terminal(Ok(Ok(ApprovalResponse::Yes)))).ok().unwrap();
    assert_eq!(v.recorded.unwrap().channel, "approval-fixture");
    assert!(matches!(v.outcome, ApprovalGateOutcome::Proceed { approved: true }));
    let e = gate(Reply::Terminal(Err(other("gone")))).err().unwrap();
    assert_eq!(kinds(&e), vec![(CauseKind::Other, false)]);
}

#[test]
fn replacements_are_recorded_raw_and_shown_clean() {
    let v = gate(answer(ChannelApprovalResponse::DenyWithEdit { replacement: "raw".into() }))
        .ok()
        .unwrap();
    assert!(
        matches!(v.recorded.unwrap().response, ApprovalResponse::ReplaceWith(s) if s == "raw")
    );
    assert_eq!(v.status.as_deref(), Some("\u{270f} shell: replaced by user\n"));
    match v.outcome {
        ApprovalGateOutcome::Replace(o) => {
            assert_eq!(o.output, "clean");
            assert!(o.success && o.error_reason.is_none() && o.failure_kind.is_none());
            assert_eq!(o.duration, NO_TIME);
        }
        _ => panic!("a replacement was expected"),
    }
}

#[test]
fn async_reader_bounds_input_and_treats_eof_as_unavailable() {
    let mut input = vec![b'a'; MAX_APPROVAL_LINE_BYTES + 1];
    input.extend_from_slice(b"rejected-tail\nyes\n");
    match read_line(&input) {
        LineEnd::Complete(step, n) => {
            assert!(matches!(step, LineStep::TooLong));
            match read_line(&input[n..]) {
                LineEnd::Complete(LineStep::Line(s), m) => {
                    assert_eq!(s, "yes\n");
                    assert_eq!(n + m, input.len());
                }
                _ => panic!("a line was expected"),
            }
        }
        _ => panic!("a line was expected"),
    }
    assert!(matches!(read_line(b""), LineEnd::Closed));
    assert!(matches!(read_line(b"yes"), LineEnd::Closed));
}

#[test]
fn lines_are_bounded_with_their_line_feed() {
    let mut fits = vec![b'a'; MAX_APPROVAL_LINE_BYTES - 1];
    fits.push(b'\n');
    assert!(
        matches!(read_line(&fits), LineEnd::Complete(LineStep::Line(s), n)
            if s.len() == MAX_APPROVAL_LINE_BYTES && n == MAX_APPROVAL_LINE_BYTES)
    );
    let mut long = vec![b'a'; MAX_APPROVAL_LINE_BYTES];
    long.push(b'\n');
    assert!(
        matches!(read_line(&long), LineEnd::Complete(LineStep::TooLong, n)
            if n == MAX_APPROVAL_LINE_BYTES + 1)
    );
    assert!(
        matches!(read_line(&[0xff, b'\n']), LineEnd::Complete(LineStep::NotText, n) if n == 2)
    );
}

#[test]
fn readers_let_others_run_and_start_afresh_after_a_line() {
    let mut reader = LineReader::new();
    for i in 1..=2 * YIELD_INTERVAL {
        let step = reader.feed(b'a');
        if i % YIELD_INTERVAL == 0 {
            assert!(matches!(step, LineStep::MoreAfterYield));
        } else {
            assert!(matches!(step, LineStep::More));
        }
    }
    assert!(
        matches!(reader.feed(b'\n'), LineStep::Line(s) if s.len() == 2 * YIELD_INTERVAL + 1)
    );
    assert!(matches!(reader.feed(b'y'), LineStep::More));
    assert!(matches!(reader.feed(b'\n'), LineStep::Line(s) if s == "y\n"));
}

#[test]
fn prompts_are_written_to_their_end() {
    assert!(
        matches!(write_prompt(b"abc", WriteEvent::Wrote(2)), WriteStep::More(rest) if rest == b"c")
    );
    assert!(matches!(write_prompt(b"abc", WriteEvent::Wrote(3)), WriteStep::Done));
    assert!(matches!(write_prompt(b"abc", WriteEvent::Wrote(0)), WriteStep::WriteZero));
    assert!(
        matches!(write_prompt(b"abc", WriteEvent::Interrupted), WriteStep::More(r) if r == b"abc")
    );
    assert!(
        matches!(write_prompt(b"abc", WriteEvent::NotReady), WriteStep::More(r) if r == b"abc")
    );
    assert!(matches!(write_prompt(b"abc", WriteEvent::Failed), WriteStep::Failed));
}

fn quiet() -> StopSignals {
    StopSignals {
        authority: None,
        invocation: None,
        deadline: None,
        now: 10,
        caller_cancelled: false,
    }
}

#[test]
fn the_emergency_stop_is_looked_for_first() {
    let (r, request) = check(quiet());
    assert!(r.is_ok() && request.is_none());
    let (r, request) = check(StopSignals {
        authority: Some(stopped()),
        invocation: Some(other("closed")),
        deadline: Some(1),
        caller_cancelled: true,
        ..quiet()
    });
    assert!(is_estop_interrupted(&r.err().unwrap()));
    assert_eq!(request, Some(StopRequest::Estop));
    let (r, request) = check(StopSignals {
        invocation: Some(other("closed")),
        deadline: Some(1),
        caller_cancelled: true,
        ..quiet()
    });
    assert_eq!(kinds(&r.err().unwrap()), vec![(CauseKind::Other, false)]);
    assert_eq!(request, None);
    let (r, request) =
        check(StopSignals { deadline: Some(10), caller_cancelled: true, ..quiet() });
    assert_eq!(kinds(&r.err().unwrap()), vec![(CauseKind::DeadlineExceeded, false)]);
    assert_eq!(request, Some(StopRequest::Deadline));
    let (r, request) =
        check(StopSignals { deadline: Some(11), caller_cancelled: true, ..quiet() });
    assert_eq!(kinds(&r.err().unwrap()), vec![(CauseKind::ToolLoopCancelled, false)]);
    assert_eq!(request, Some(StopRequest::User));
}

#[test]
fn of_several_stops_the_first_kind_counts() {
    let pick = |estop: bool, invocation: Option<TurnError>, deadline: bool, caller: bool| {
        interrupted(ReadyStops { estop, invocation, deadline, caller })
            .map(|(e, request)| (kinds(&e)[0].0, request))
    };
    assert_eq!(
        pick(true, Some(other("x")), true, true),
        Some((CauseKind::EstopInterrupted, Some(StopRequest::Estop)))
    );
    assert_eq!(pick(false, Some(other("x")), true, true), Some((CauseKind::Other, None)));
    assert_eq!(
        pick(false, None, true, true),
        Some((CauseKind::DeadlineExceeded, Some(StopRequest::Deadline)))
    );
    assert_eq!(
        pick(false, None, false, true),
        Some((CauseKind::ToolLoopCancelled, Some(StopRequest::User)))
    );
    assert_eq!(pick(false, None, false, false), None);
}

#[test]
fn turns_keep_their_output_when_they_are_stopped() {
    let out = || Ok::<String, TurnError>("done".into());
    assert_eq!(
        run_turn(TurnEnd::Finished { result: out(), after: Ok(()) }).ok().as_deref(),
        Some("done")
    );
    for end in [
        TurnEnd::Finished { result: out(), after: Err(cancelled()) },
        TurnEnd::Interrupted { cause: cancelled(), settled: Some(out()) },
    ] {
        let e = run_turn(end).err().unwrap();
        assert!(matches!(&e.layers[0].cause,
            Cause::TurnCompletedAfterInterruption(s) if s == "done"));
        assert!(is_tool_loop_cancelled(&e));
    }
    let e = run_turn(TurnEnd::Interrupted { cause: late(true), settled: None }).err().unwrap();
    assert_eq!(
        kinds(&e),
        vec![(CauseKind::TurnSettlementIncomplete, false), (CauseKind::DeadlineExceeded, false)]
    );
    let e = run_turn(TurnEnd::Refused(other("no"))).err().unwrap();
    assert_eq!(kinds(&e), vec![(CauseKind::Other, false)]);
    let e = completed_after_interruption("out".into(), stopped());
    assert!(is_estop_interrupted(&e));
}

#[test]
fn stopped_turns_name_the_stop_and_keep_their_error() {
    let e = run_turn(TurnEnd::Finished { result: Err(other("boom")), after: Err(stopped()) })
        .err()
        .unwrap();
    assert_eq!(kinds(&e), vec![(CauseKind::EstopInterrupted, true), (CauseKind::Other, false)]);
    let e = run_turn(TurnEnd::Interrupted { cause: late(true), settled: Some(Err(other("boom"))) })
        .err()
        .unwrap();
    assert_eq!(kinds(&e), vec![(CauseKind::DeadlineExceeded, true), (CauseKind::Other, false)]);
    let e = with_stop_cause(other("boom"), other("unknown"));
    assert_eq!(kinds(&e), vec![(CauseKind::ToolLoopCancelled, true), (CauseKind::Other, false)]);
    assert!(is_terminal(&e) && is_terminal(&late(false)) && !is_terminal(&other("boom")));
}

#[test]
fn sources_below_a_source_are_not_taken_for_the_error() {
    let e = cancelled().source_of(Cause::TurnSettlementIncomplete);
    assert!(!e.is(CauseKind::ToolLoopCancelled));
    assert!(e.has_source(CauseKind::ToolLoopCancelled));
    let hidden = cancelled().context(Cause::EstopInterrupted).source_of(Cause::Other("x".into()));
    assert!(!is_estop_interrupted(&hidden));
    assert!(is_tool_loop_cancelled(&hidden));
}

fn outcome(output: &str, success: bool, duration: Elapsed) -> ToolExecutionOutcome {
    ToolExecutionOutcome {
        output: output.into(),
        output_data: None,
        success,
        error_reason: None,
        failure_kind: None,
        duration,
        receipt: None,
    }
}

fn call(name: &str, id: Option<&str>) -> ParsedToolCall {
    ParsedToolCall {
        name: name.into(),
        arguments: "{}".into(),
        tool_call_id: id.map(str::to_owned),
    }
}

#[test]
fn executed_calls_fill_their_slots_and_are_told_of() {
    let mut slots: OrderedResults = vec![
        None,
        Some(("denied".into(), None, outcome("no", false, NO_TIME))),
        None,
    ];
    let list = record_executed_outcomes(
        &[2, 0],
        &[call("late", Some("b")), call("early", None)],
        &[true, false],
        vec![
            outcome("two", false, Elapsed { secs: 3, nanos: 999_999_999 }),
            outcome("zero", true, NO_TIME),
        ],
        &mut slots,
        1000,
        1000,
        true,
    )
    .ok()
    .unwrap();
    let names: Vec<&str> = slots.iter().map(|s| s.as_ref().unwrap().0.as_str()).collect();
    assert_eq!(names, vec!["early", "denied", "late"]);
    assert_eq!(slots[2].as_ref().unwrap().1.as_deref(), Some("b"));
    assert_eq!(list.len(), 2);
    assert_eq!((list[0].call, list[0].slot, list[0].success), (0, 2, false));
    assert_eq!((list[0].duration_ms, list[0].duration_secs), (3999, 3));
    assert!(list[0].auxiliary && list[0].completion);
    assert_eq!((list[1].call, list[1].slot, list[1].success), (1, 0, true));
    assert!(list[1].auxiliary && !list[1].completion);
}

#[test]
fn batches_that_end_the_turn_publish_nothing_auxiliary() {
    let mut slots: OrderedResults = vec![None];
    let list = record_executed_outcomes(
        &[0],
        &[call("shell", None)],
        &[true],
        vec![outcome("out", true, NO_TIME)],
        &mut slots,
        1000,
        1000,
        false,
    )
    .ok()
    .unwrap();
    assert_eq!(list.len(), 1);
    assert!(!list[0].auxiliary && !list[0].completion);
}

#[test]
fn batches_over_budget_move_into_the_error_unpublished() {
    let mut slots: OrderedResults = vec![None];
    let error = record_executed_outcomes(
        &[0],
        &[call("shell", None)],
        &[true],
        vec![outcome(&"x".repeat(2000), true, NO_TIME)],
        &mut slots,
        1000,
        1000,
        true,
    )
    .err()
    .unwrap();
    assert!(slots.is_empty());
    assert_eq!(error.results[0].as_ref().unwrap().2.output.len(), 2000);
    assert!(error.errors.is_empty());
}

#[test]
fn durations_are_counted_in_whole_milliseconds() {
    assert_eq!(whole_millis(NO_TIME), 0);
    assert_eq!(whole_millis(Elapsed { secs: 1, nanos: 1_999_999 }), 1001);
    assert_eq!(whole_millis(Elapsed { secs: u64::MAX, nanos: 0 }), u64::MAX);
}

fn step_of(run: &str) -> SopRunAction {
    SopRunAction::ExecuteStep { run_id: run.into(), detail: "{}".into() }
}

fn queued(run: &str) -> QueuedSopAction {
    QueuedSopAction { action: step_of(run), engine: 4, audited: true }
}

#[test]
fn interrupted_drives_account_for_every_action() {
    let step = StepSettlement {
        queued: queued("a"),
        result: SopStepResult { status: SopStepStatus::Completed, output: "ok".into() },
        persistence_error: Some(other("disk")),
        audit: AuditSettlement::Failed(other("audit").context(Cause::ToolLoopCancelled)),
    };
    let error = interrupted_drive(
        cancelled(),
        Some(queued("a")),
        vec![queued("b"), queued("c")],
        vec![step],
        vec![
            CancelAttempt::Busy,
            CancelAttempt::NotRequested(other("refused")),
            CancelAttempt::Finished(Ok(None)),
        ],
    );
    assert!(is_tool_loop_cancelled(&error));
    assert!(error.is(CauseKind::SopDriveInterrupted));
    let evidence: &SopDriveEvidence = match &error.layers[0].cause {
        Cause::SopDriveInterrupted(e) => e,
        _ => panic!("the evidence was expected in front"),
    };
    let runs: Vec<&str> = evidence.queued.iter().map(|q| action_run_id(&q.queued.action)).collect();
    assert_eq!(runs, vec!["a", "b", "c"]);
    assert!(matches!(&evidence.queued[0].cancellation, Err(e)
        if matches!(e.layers[0].cause, Cause::SopPhaseIncomplete(SopPhase::QueuedCancellation))));
    assert!(evidence.queued[1].cancellation.is_err());
    assert!(evidence.queued[2].cancellation.is_ok());
    let c = evidence.counts();
    assert_eq!((c.steps, c.completed_steps, c.persistence_failures), (1, 1, 1));
    assert_eq!((c.audit_failure_causes, c.owned_runs), (2, 3));
    assert_eq!((c.pending_cancellations, c.queued), (2, 3));
}

#[test]
fn cancelled_actions_stay_with_their_engine() {
    let s = cancel_unstarted(
        queued("a"),
        CancelAttempt::Finished(Ok(Some(SopRunAction::Cancelled {
            run_id: "a".into(),
            detail: "{}".into(),
        }))),
    );
    assert_eq!(s.queued.engine, 4);
    assert!(matches!(s.cancellation, Ok(Some(SopRunAction::Cancelled { .. }))));
    let next = with_action(&s.queued, step_of("z"));
    assert_eq!((action_run_id(&next.action), next.engine, next.audited), ("z", 4, true));
}

#[test]
fn assemblies_count_only_after_a_fresh_look() {
    assert_eq!(
        assemble(AssemblyEnd::Finished { result: Ok(1), after: Ok(()) }).ok(),
        Some(1)
    );
    let e = assemble(AssemblyEnd::Finished { result: Ok(1), after: Err(stopped()) }).err().unwrap();
    assert!(is_estop_interrupted(&e));
    let e = assemble::<u8>(AssemblyEnd::Interrupted(cancelled())).err().unwrap();
    assert_eq!(
        kinds(&e),
        vec![(CauseKind::SopPhaseIncomplete, true), (CauseKind::ToolLoopCancelled, false)]
    );
    let e = assemble::<u8>(AssemblyEnd::TimedOut).err().unwrap();
    assert!(matches!(e.layers[0].cause, Cause::SopPhaseIncomplete(SopPhase::Assembly)));
    let e = assemble::<u8>(AssemblyEnd::Refused(other("no"))).err().unwrap();
    assert_eq!(kinds(&e), vec![(CauseKind::Other, false)]);
}

#[test]
fn completed_steps_stay_completed() {
    assert_eq!(
        execute_step(StepEnd::Interrupted { cause: cancelled(), settled: Some(Ok("x".into())) })
            .ok()
            .as_deref(),
        Some("x")
    );
    assert_eq!(execute_step(StepEnd::Finished(Ok("y".into()))).ok().as_deref(), Some("y"));
    let e = execute_step(StepEnd::Interrupted {
        cause: stopped(),
        settled: Some(Err(other("boom"))),
    })
    .err()
    .unwrap();
    assert_eq!(kinds(&e), vec![(CauseKind::EstopInterrupted, true), (CauseKind::Other, false)]);
    let e = execute_step(StepEnd::Interrupted { cause: cancelled(), settled: None }).err().unwrap();
    assert!(matches!(e.layers[0].cause, Cause::SopPhaseIncomplete(SopPhase::NestedStep)));
    assert!(terminal_step_error(&e));
    assert!(terminal_step_error(&TurnError::new(Cause::SopPhaseIncomplete(SopPhase::Audit))));
    assert!(!terminal_step_error(&other("boom")));
    let e = execute_step(StepEnd::Refused(other("no"))).err().unwrap();
    assert_eq!(kinds(&e), vec![(CauseKind::Other, false)]);
}

#[test]
fn runs_are_handed_back_only_when_they_are_over() {
    let over = SopRunAction::Failed { run_id: "a".into(), detail: "{}".into() };
    let r = cancel_then_advance(AdvanceAttempt::Advanced { action: over, run: Some(9) });
    assert_eq!(r.ok().unwrap().1, Some(9));
    let r = cancel_then_advance(AdvanceAttempt::Advanced { action: step_of("a"), run: Some(9) });
    assert_eq!(r.ok().unwrap().1, None);
    let e = cancel_then_advance::<u8>(AdvanceAttempt::Busy).err().unwrap();
    assert!(matches!(e.layers[0].cause, Cause::SopPhaseIncomplete(SopPhase::StepCancellation)));
    assert!(cancel_then_advance::<u8>(AdvanceAttempt::NotRequested(other("x"))).is_err());
    assert!(cancel_then_advance::<u8>(AdvanceAttempt::NotAdvanced(other("x"))).is_err());
}

#[test]
fn audits_that_do_not_end_are_no_success() {
    assert!(matches!(audit(false, None), AuditSettlement::Complete));
    assert!(matches!(audit(true, Some(Ok(()))), AuditSettlement::Complete));
    assert!(matches!(audit(true, Some(Err(other("x")))), AuditSettlement::Failed(_)));
    assert!(matches!(audit(true, None), AuditSettlement::Incomplete));
    assert!(audit_error(&AuditSettlement::Complete).is_none());
    for open in [AuditSettlement::NotStarted, AuditSettlement::Incomplete] {
        let e = audit_error(&open).unwrap();
        assert!(matches!(e.layers[0].cause, Cause::SopPhaseIncomplete(SopPhase::Audit)));
    }
}

#[test]
fn evidence_is_described_by_counts() {
    let text = |c: &Cause| described(c).unwrap();
    assert_eq!(
        text(&Cause::SopPhaseIncomplete(SopPhase::NestedStep)),
        "SopPhaseIncomplete { phase: \"nested step\" }"
    );
    assert_eq!(text(&Cause::TurnSettlementIncomplete), "TurnSettlementIncomplete");
    assert_eq!(
        text(&Cause::TurnCompletedAfterInterruption("h\u{e9}llo".into())),
        "TurnCompletedAfterInterruption { output_bytes: 6, .. }"
    );
    let mut failures = TerminalFailures::new();
    failures.push(2, other("secret"), "first".into());
    failures.push(5, other("hidden"), "second".into());
    let error = failures.into_error().unwrap();
    let retained = error
        .layers
        .iter()
        .find(|l| l.cause.get_kind() == CauseKind::RetainedToolFailures)
        .unwrap();
    assert_eq!(
        text(&retained.cause),
        "RetainedToolFailures { primary_call_index: 2, sibling_count: 1, .. }"
    );
    let drive = interrupted_drive(
        cancelled(),
        Some(queued("secret")),
        vec![queued("secret")],
        vec![],
        vec![CancelAttempt::Busy, CancelAttempt::Finished(Ok(None))],
    );
    assert_eq!(
        text(&drive.layers[0].cause),
        "SopDriveInterrupted { steps: 0, completed_steps: 0, persistence_failures: 0, audit_failure_causes: 0, owned_runs: 1, pending_cancellations: 1, queued: 2, .. }"
    );
    assert!(described(&Cause::ToolLoopCancelled).is_none());
}

#[test]
fn interruptions_speak_for_the_evidence_above_them() {
    let e = completed_after_interruption("secret".into(), other("stop"));
    assert!(matches!(message(&e), Message::Text("stop")));
    let e = completed_after_interruption("secret".into(), stopped());
    assert!(matches!(message(&e), Message::Own(CauseKind::EstopInterrupted)));
    let e = cancelled().source_of(Cause::TurnSettlementIncomplete);
    assert!(matches!(message(&e), Message::Key("turn-settlement-incomplete")));
    let e = assemble::<u8>(AssemblyEnd::TimedOut).err().unwrap();
    assert!(matches!(message(&e), Message::Key("sop-settlement-incomplete")));
    let mut slots: OrderedResults = vec![None];
    let budget = record_executed_outcomes(
        &[0],
        &[call("shell", None)],
        &[true],
        vec![outcome(&"x".repeat(2000), true, NO_TIME)],
        &mut slots,
        1000,
        1000,
        true,
    )
    .err()
    .unwrap();
    let cause = Cause::ResultBudgetExceeded(budget);
    assert_eq!(
        described(&cause).unwrap(),
        "ResultBudgetExceeded { result_count: 1, error_count: 0, .. }"
    );
    let e = TurnError::new(cause);
    assert!(matches!(message(&e), Message::Key("turn-tool-result-budget-exceeded")));
    assert!(matches!(message(&TurnError { layers: vec![] }), Message::Nothing));
}
