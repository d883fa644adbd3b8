use loopgen::engine::{
    append_state, apply_verify, claude_args, compose_prompt, extract_result_text,
    invocation_line, judge, raw_status_lines, report_line, summary_line, ClaudeJson,
    LoopEngine, LoopOutcome, Step,
};
use loopgen::harness::{render_harness, Config};
use loopgen::status::{LoopStatus, Status};

/// What a reply's stdout parses to, read the way the runner reads it: an
/// object whose optional `result` is a string.
fn envelope(stdout: &str) -> Option<ClaudeJson> {
    let v: serde_json::Value = serde_json::from_str(stdout).ok()?;
    let obj = v.as_object()?;
    match obj.get("result") {
        None | Some(serde_json::Value::Null) => Some(ClaudeJson { result: None }),
        Some(serde_json::Value::String(s)) => Some(ClaudeJson {
            result: Some(s.clone()),
        }),
        Some(_) => None,
    }
}

fn config(max: u32, verify: Option<&str>) -> Config {
    Config {
        goal: "demo goal".to_string(),
        max,
        verify: verify.map(|v| v.to_string()),
        dod: None,
        model: None,
        dry_run: false,
        max_state_chars: 4000,
        claude_bin: "agent".to_string(),
        verbose: false,
    }
}

#[test]
fn exit_code_mapping() {
    assert_eq!(LoopOutcome::Done.exit_code(), 0);
    assert_eq!(LoopOutcome::Blocked.exit_code(), 2);
    assert_eq!(LoopOutcome::MaxReached.exit_code(), 3);
}

#[test]
fn extract_result_from_json() {
    let stdout = r#"{"result": "hello world", "type": "result"}"#;
    assert_eq!(extract_result_text(stdout, envelope(stdout)), "hello world");
}

#[test]
fn extract_result_falls_back_to_raw() {
    let stdout = "not json at all";
    assert_eq!(extract_result_text(stdout, envelope(stdout)), "not json at all");
}

#[test]
fn extract_result_missing_field_falls_back() {
    let stdout = r#"{"type": "result"}"#;
    assert_eq!(extract_result_text(stdout, envelope(stdout)), stdout.trim());
}

#[test]
fn extract_result_raw_is_trimmed_but_json_result_is_not() {
    assert_eq!(extract_result_text("  \n raw text \n", None), "raw text");
    assert_eq!(
        extract_result_text(
            "ignored",
            Some(ClaudeJson {
                result: Some("  kept as is ".to_string())
            })
        ),
        "  kept as is "
    );
}

#[test]
fn compose_prompt_includes_parts() {
    let p = compose_prompt("HARNESS", "STATE", 2, 8);
    assert!(p.starts_with("HARNESS"));
    assert!(p.contains("## Running state (prior iterations)\nSTATE"));
    assert!(p.contains("This is iteration 2 of 8."));
}

#[test]
fn compose_prompt_exact_text() {
    assert_eq!(
        compose_prompt("H", "S", 10, 205),
        "H\n\n## Running state (prior iterations)\nS\n\n## This is iteration 10 of 205. Do ONE increment, then emit the LOOP_STATUS line."
    );
}

#[test]
fn append_state_grows_and_marks_iteration() {
    let mut state = String::new();
    append_state(&mut state, 1, "did a thing", 4000);
    assert!(state.contains("[iteration 1] did a thing"));
    append_state(&mut state, 2, "did another", 4000);
    assert!(state.contains("[iteration 2] did another"));
}

#[test]
fn append_state_caps_to_tail() {
    let mut state = String::new();
    let big = "x".repeat(100);
    append_state(&mut state, 1, &big, 20);
    assert!(state.chars().count() <= 20 + "…(truncated)…".chars().count());
    assert!(state.starts_with("…(truncated)…"));
    assert!(state.ends_with('x'));
}

#[test]
fn append_state_exact_text() {
    let mut state = String::new();
    append_state(&mut state, 1, "  first \n", 4000);
    assert_eq!(state, "[iteration 1] first");
    append_state(&mut state, 12, "second", 4000);
    assert_eq!(state, "[iteration 1] first\n\n[iteration 12] second");
}

#[test]
fn append_state_keeps_exactly_the_tail() {
    let mut state = String::new();
    append_state(&mut state, 1, "abcdefghijklmnopqrstuvwxyz", 20);
    // "[iteration 1] abc...xyz" is 40 characters; 20 remain, the marker first.
    assert_eq!(state, "…(truncated)…tuvwxyz");
    assert_eq!(state.chars().count(), 20);
    let mut state = "abcdef".to_string();
    append_state(&mut state, 3, "xyz", 5);
    // A cap shorter than the marker keeps the bare tail.
    assert_eq!(state, "] xyz");
    let mut state = String::new();
    append_state(&mut state, 1, "ééé", 17);
    assert_eq!(state, "[iteration 1] ééé");
    append_state(&mut state, 1, "", 0);
    assert_eq!(state, "");
}

#[test]
fn claude_arguments() {
    assert_eq!(
        claude_args("do it", &None),
        vec!["-p", "do it", "--output-format", "json"]
    );
    assert_eq!(
        claude_args("do it", &Some("opus".to_string())),
        vec!["-p", "do it", "--output-format", "json", "--model", "opus"]
    );
}

#[test]
fn invocation_echo() {
    assert_eq!(
        invocation_line("agent", "héllo", &None),
        "+ agent -p <prompt 5 chars> --output-format json"
    );
    assert_eq!(
        invocation_line("/bin/c", "", &Some("m".to_string())),
        "+ /bin/c -p <prompt 0 chars> --output-format json --model m"
    );
}

#[test]
fn missing_status_counts_as_continue() {
    let (status, note) = judge(None);
    assert_eq!(status, Status::Continue);
    assert_eq!(note, "(no status line emitted)");
    let (status, note) = judge(Some(LoopStatus {
        status: Status::Blocked,
        note: "why".to_string(),
    }));
    assert_eq!(status, Status::Blocked);
    assert_eq!(note, "why");
}

#[test]
fn verify_gate_downgrades_done() {
    let (s, n) = apply_verify(Status::Done, "ok".to_string(), Some(0));
    assert_eq!((s, n.as_str()), (Status::Done, "ok"));
    let (s, n) = apply_verify(Status::Done, "ok".to_string(), Some(101));
    assert_eq!((s, n.as_str()), (Status::Continue, "verify failed (exit 101)"));
    let (s, n) = apply_verify(Status::Done, "ok".to_string(), Some(-7));
    assert_eq!((s, n.as_str()), (Status::Continue, "verify failed (exit -7)"));
    let (s, n) = apply_verify(Status::Done, "ok".to_string(), None);
    assert_eq!(
        (s, n.as_str()),
        (Status::Continue, "verify failed (terminated by signal)")
    );
}

#[test]
fn report_and_summary_lines() {
    assert_eq!(
        report_line(2, 8, Status::Done, "all tests pass"),
        "[iter 2/8] DONE — all tests pass"
    );
    assert_eq!(
        summary_line(LoopOutcome::Done),
        "✓ loop complete: goal reported DONE."
    );
    assert_eq!(
        summary_line(LoopOutcome::Blocked),
        "■ loop stopped: BLOCKED — a decision or input is needed."
    );
    assert_eq!(
        summary_line(LoopOutcome::MaxReached),
        "✗ loop ended: reached --max without DONE (partial state above)."
    );
}

#[test]
fn raw_status_lines_in_verbose_mode() {
    let text = "intro\r\n  loop_status: done | iter 1/2 | x  \r\nLOOP-STATUS nope\nLoOp_StAtUs\n";
    assert_eq!(
        raw_status_lines(text),
        vec!["loop_status: done | iter 1/2 | x", "LoOp_StAtUs"]
    );
    assert!(raw_status_lines("").is_empty());
}

fn report(step: Step) -> String {
    match step {
        Step::Report(line) => line,
        Step::Verify(cmd) => panic!("unexpected verify step: {cmd}"),
    }
}

#[test]
fn engine_runs_until_done() {
    let cfg = config(8, None);
    let mut eng = LoopEngine::new(&cfg);
    let harness = render_harness(&cfg);
    let p = eng.prompt().unwrap();
    assert_eq!(
        p,
        compose_prompt(&harness, "(none — first iteration).", 1, 8)
    );
    assert_eq!(eng.iteration(), 1);
    let r = eng.on_reply("worked\nLOOP_STATUS: CONTINUE | iter 1/8 | more to do");
    assert!(!r.status_missing);
    assert_eq!(report(r.step), "[iter 1/8] CONTINUE — more to do");
    assert_eq!(eng.outcome(), None);
    assert_eq!(
        eng.state(),
        "(none — first iteration).\n\n[iteration 1] worked\nLOOP_STATUS: CONTINUE | iter 1/8 | more to do"
    );
    assert_eq!(eng.iteration(), 2);
    assert_eq!(
        eng.prompt().unwrap(),
        compose_prompt(&harness, eng.state(), 2, 8)
    );
    // Without a verify command, a DONE claim ends the run at once.
    let r = eng.on_reply("LOOP_STATUS: DONE | iter 2/8 | finished");
    assert_eq!(report(r.step), "[iter 2/8] DONE — finished");
    assert_eq!(eng.outcome(), Some(LoopOutcome::Done));
    assert!(eng.prompt().is_none());
}

#[test]
fn engine_stops_at_max() {
    let cfg = config(2, None);
    let mut eng = LoopEngine::new(&cfg);
    let r = eng.on_reply("no status here");
    assert!(r.status_missing);
    assert_eq!(report(r.step), "[iter 1/2] CONTINUE — (no status line emitted)");
    assert!(eng.prompt().is_some());
    eng.on_reply("still nothing");
    assert_eq!(eng.outcome(), Some(LoopOutcome::MaxReached));
    assert!(eng.prompt().is_none());
    assert_eq!(eng.outcome().unwrap().exit_code(), 3);
}

#[test]
fn engine_stops_on_blocked() {
    let mut eng = LoopEngine::new(&config(5, Some("cargo test")));
    let r = eng.on_reply("LOOP_STATUS: BLOCKED | iter 1/5 | need a key");
    // BLOCKED never runs the verify command.
    assert_eq!(report(r.step), "[iter 1/5] BLOCKED — need a key");
    assert_eq!(eng.outcome(), Some(LoopOutcome::Blocked));
    assert!(eng.prompt().is_none());
}

#[test]
fn engine_with_zero_max_never_prompts() {
    let eng = LoopEngine::new(&config(0, None));
    assert!(eng.prompt().is_none());
    assert_eq!(eng.outcome(), Some(LoopOutcome::MaxReached));
}

#[test]
fn engine_verify_gate_only_on_done() {
    let mut eng = LoopEngine::new(&config(3, Some("cargo test")));
    let r = eng.on_reply("LOOP_STATUS: CONTINUE | iter 1/3 | going");
    assert_eq!(report(r.step), "[iter 1/3] CONTINUE — going");
    let r = eng.on_reply("LOOP_STATUS: DONE | iter 2/3 | all green");
    match r.step {
        Step::Verify(cmd) => assert_eq!(cmd, "cargo test"),
        Step::Report(line) => panic!("expected a verify step, got {line}"),
    }
    // While the exit code is awaited no prompt is handed out.
    assert!(eng.prompt().is_none());
    assert_eq!(eng.outcome(), None);
    assert_eq!(eng.on_verify(Some(0)), "[iter 2/3] DONE — all green");
    assert_eq!(eng.outcome(), Some(LoopOutcome::Done));
}

#[test]
fn failed_verify_keeps_the_loop_going() {
    let mut eng = LoopEngine::new(&config(3, Some("false")));
    let reply = "work\nLOOP_STATUS: DONE | iter 1/3 | claimed";
    let r = eng.on_reply(reply);
    assert!(matches!(r.step, Step::Verify(_)));
    assert_eq!(eng.on_verify(Some(1)), "[iter 1/3] CONTINUE — verify failed (exit 1)");
    assert_eq!(eng.outcome(), None);
    assert_eq!(eng.iteration(), 2);
    eng.on_reply("LOOP_STATUS: DONE | iter 2/3 | again");
    assert_eq!(
        eng.on_verify(None),
        "[iter 2/3] CONTINUE — verify failed (terminated by signal)"
    );
    eng.on_reply("LOOP_STATUS: DONE | iter 3/3 | last try");
    assert_eq!(eng.on_verify(Some(2)), "[iter 3/3] CONTINUE — verify failed (exit 2)");
    assert_eq!(eng.outcome(), Some(LoopOutcome::MaxReached));
}

#[test]
fn trimming_is_idempotent_on_parsed_notes() {
    let s = loopgen::status::parse_status("LOOP_STATUS: DONE | iter 1/1 |   padded note \t\r\nnext")
        .unwrap();
    assert_eq!(s.note, "padded note");
    assert_eq!(s.note.trim(), s.note);
    assert!(!s.note.contains('\n'));
}
