use loopgen::harness::{definition_of_done, render_harness, slugify, Config};

fn base_config(goal: &str) -> Config {
    Config {
        goal: goal.to_string(),
        max: 8,
        verify: None,
        dod: None,
        model: None,
        dry_run: false,
        max_state_chars: 4000,
        claude_bin: "agent".to_string(),
        verbose: false,
    }
}

#[test]
fn slug_basic() {
    assert_eq!(slugify("Get the tests green"), "get-the-tests-green");
}

#[test]
fn slug_limits_to_six_words() {
    assert_eq!(
        slugify("one two three four five six seven eight"),
        "one-two-three-four-five-six"
    );
}

#[test]
fn slug_collapses_non_alphanumerics() {
    assert_eq!(slugify("Fix:  the!!! bug__now"), "fix-the-bug-now");
}

#[test]
fn slug_fallback() {
    assert_eq!(slugify("!!! ???"), "loop");
    assert_eq!(slugify(""), "loop");
}

#[test]
fn slug_non_ascii_letters_separate_words() {
    assert_eq!(slugify("Café  Déjà-vu 42"), "caf-d-j-vu-42");
}

#[test]
fn slug_shape_on_examples() {
    for goal in ["  --Weird__Goal--  ", "a", "ÄÖÜ", "x-y-z-w-v-u-t-s", "123 456"] {
        let s = slugify(goal);
        assert!(!s.is_empty());
        assert!(!s.starts_with('-') && !s.ends_with('-'));
        assert!(s
            .chars()
            .all(|c| c.is_ascii_lowercase() || c.is_ascii_digit() || c == '-'));
        assert!(s.split('-').count() <= 6);
    }
}

#[test]
fn verify_lines_present_with_verify() {
    let mut cfg = base_config("ship it");
    cfg.verify = Some("cargo test".to_string());
    let out = render_harness(&cfg);
    assert!(out.contains("Run: cargo test"));
    assert!(out.contains("It MUST exit 0 before you may report DONE."));
}

#[test]
fn verify_lines_absent_without_verify() {
    let cfg = base_config("ship it");
    let out = render_harness(&cfg);
    assert!(!out.contains("Run:"));
    assert!(!out.contains("It MUST exit 0"));
}

#[test]
fn dod_auto_without_verify() {
    let cfg = base_config("ship it");
    assert_eq!(
        definition_of_done(&cfg),
        "The stated goal is fully achieved, with concrete evidence cited for each success criterion."
    );
}

#[test]
fn dod_auto_with_verify() {
    let mut cfg = base_config("ship it");
    cfg.verify = Some("cargo test".to_string());
    assert_eq!(
        definition_of_done(&cfg),
        "The stated goal is achieved and the verify command (`cargo test`) exits 0."
    );
}

#[test]
fn dod_explicit_overrides() {
    let mut cfg = base_config("ship it");
    cfg.verify = Some("cargo test".to_string());
    cfg.dod = Some("custom done".to_string());
    assert_eq!(definition_of_done(&cfg), "custom done");
    assert!(render_harness(&cfg).contains("custom done"));
}

#[test]
fn harness_contains_core_sections() {
    let cfg = base_config("demo goal");
    let out = render_harness(&cfg);
    assert!(out.starts_with("# AGENTIC LOOP — demo-goal"));
    assert!(out.contains("## Goal\ndemo goal"));
    assert!(out.contains("LOOP_STATUS: <DONE|CONTINUE|BLOCKED>"));
    assert!(out.contains("Max iterations: 8."));
    assert!(out.trim_end().ends_with("Start at iteration 1."));
}

fn expected_harness(slug: &str, goal: &str, verify: Option<&str>, dod: &str, max: u32) -> String {
    let verify_block = match verify {
        Some(cmd) => format!(
            "\n          Run: {cmd}\n          It MUST exit 0 before you may report DONE."
        ),
        None => String::new(),
    };
    format!(
        "# AGENTIC LOOP — {slug}

## Goal
{goal}

## Role
You are the loop CONTROLLER. Execute this as an ITERATIVE loop, not a single pass.

## Cycle (repeat each iteration)
1. PLAN   — state the smallest next increment toward the goal.
2. ACT    — do it. For non-trivial work spawn a worker; otherwise act directly.
3. VERIFY — check progress against the Definition of Done.{verify_block}
4. REPORT — emit exactly one line, this format:
          LOOP_STATUS: <DONE|CONTINUE|BLOCKED> | iter <n>/{max} | <one-line note>
5. CARRY  — update a running STATE summary: what is done, what remains, key decisions.

## Definition of Done
{dod}

## Termination
- Continue while status == CONTINUE and iter < {max}.
- Stop on DONE, BLOCKED, or iter == {max} (then report partial state — do not silently continue).

## Constraints (hard)
- Max iterations: {max}.
- Do NOT modify or delete files without explicit confirmation.
- Do NOT send any message (email/Slack/GitHub/etc.) without per-action confirmation.
- Infra changes (Terraform/K8s/CI): always dry-run / plan before apply.
- Never log or print secrets.
- If BLOCKED (needs a decision, missing credential, or ambiguity): stop and surface the specific question — do not guess.

## Begin
Start at iteration 1."
    )
}

#[test]
fn harness_matches_the_full_template_without_verify() {
    let cfg = base_config("demo goal");
    assert_eq!(
        render_harness(&cfg),
        expected_harness(
            "demo-goal",
            "demo goal",
            None,
            "The stated goal is fully achieved, with concrete evidence cited for each success criterion.",
            8
        )
    );
}

#[test]
fn harness_matches_the_full_template_with_verify() {
    let mut cfg = base_config("Get tests GREEN!");
    cfg.verify = Some("cargo test".to_string());
    cfg.max = 123;
    assert_eq!(
        render_harness(&cfg),
        expected_harness(
            "get-tests-green",
            "Get tests GREEN!",
            Some("cargo test"),
            "The stated goal is achieved and the verify command (`cargo test`) exits 0.",
            123
        )
    );
}

#[test]
fn slug_of_a_slug_is_itself() {
    for goal in ["Get the tests green", "!!!", "one two three four five six seven", "A--b"] {
        let s = slugify(goal);
        assert_eq!(slugify(&s), s);
        assert!(!s.contains("--"));
        assert!(s.matches('-').count() <= 5);
    }
}
