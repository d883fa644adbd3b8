//! The loop engine: per-iteration prompts, the verify gate, the running
//! state, and the termination rules. Running the agent CLI and the verify command
//! is left to the caller, which feeds the results back in.

use vstd::prelude::*;

use crate::harness::{harness_of, render_harness, Config};
use crate::status::{
    parse_status, regex_captures, status_from, status_label, status_pattern, LoopStatus, Status,
};
use crate::text::{
    ascii_upper, chars_of, decimal, push_chars, push_decimal, push_signed_decimal, signed_decimal,
    to_ascii_upper, trim, trim_bounds, trim_str,
};

verus! {

/// Terminal result of a completed loop, mapped to a process exit code.
#[derive(Debug, Clone, Copy, PartialEq, Eq, Structural)]
pub enum LoopOutcome {
    /// Goal reported DONE (and verified, if a verify command was supplied).
    Done,
    /// Loop stopped because the model reported BLOCKED.
    Blocked,
    /// Hit `--max` without reaching DONE.
    MaxReached,
}

/// The process exit code of each outcome.
pub open spec fn outcome_code(o: LoopOutcome) -> i32 {
    match o {
        LoopOutcome::Done => 0,
        LoopOutcome::Blocked => 2,
        LoopOutcome::MaxReached => 3,
    }
}

impl LoopOutcome {
    /// Map the outcome to its process exit code.
    ///
    /// `0` = DONE, `2` = BLOCKED, `3` = reached `--max` without DONE.
    /// (`1` is reserved for internal/setup errors.)
    pub fn exit_code(self) -> (res: i32)
        ensures
            res == outcome_code(self),
    {
        match self {
            LoopOutcome::Done => 0,
            LoopOutcome::Blocked => 2,
            LoopOutcome::MaxReached => 3,
        }
    }
}

pub const PROMPT_STATE: &'static str = "\n\n## Running state (prior iterations)\n";

pub const PROMPT_ITER: &'static str = "\n\n## This is iteration ";

pub const PROMPT_OF: &'static str = " of ";

pub const PROMPT_END: &'static str = ". Do ONE increment, then emit the LOOP_STATUS line.";

/// The prompt sent on iteration `iter` of `max`.
pub open spec fn prompt_text(harness: Seq<char>, state: Seq<char>, iter: nat, max: nat) -> Seq<
    char,
> {
    harness + PROMPT_STATE@ + state + PROMPT_ITER@ + decimal(iter) + PROMPT_OF@ + decimal(max)
        + PROMPT_END@
}

/// Compose the per-iteration prompt from the harness, running state, and the
/// current iteration counter.
pub fn compose_prompt(harness: &str, state: &str, iter: u32, max: u32) -> (res: String)
    ensures
        res@ == prompt_text(harness@, state@, iter as nat, max as nat),
{
    let mut res = String::from_str(harness);
    res.append(PROMPT_STATE);
    res.append(state);
    res.append(PROMPT_ITER);
    push_decimal(&mut res, iter as u64);
    res.append(PROMPT_OF);
    push_decimal(&mut res, max as u64);
    res.append(PROMPT_END);
    res
}

/// The part of the agent's `--output-format json` reply that the loop reads.
#[derive(Debug, Clone)]
pub struct ClaudeJson {
    pub result: Option<String>,
}

/// The result text of one reply: the `result` field of the JSON envelope
/// when stdout parsed as one and the field is present, otherwise stdout
/// trimmed.
pub open spec fn result_text(stdout: Seq<char>, envelope: Option<Option<Seq<char>>>) -> Seq<char> {
    match envelope {
        Some(Some(text)) => text,
        _ => trim(stdout),
    }
}

/// Pull the assistant result text out of the agent's stdout, given what stdout
/// parsed to (`None` when it is not valid JSON of the expected shape).
/// Prefers the `result` field; falls back to the raw stdout, trimmed.
pub fn extract_result_text(stdout: &str, envelope: Option<ClaudeJson>) -> (res: String)
    ensures
        res@ == result_text(
            stdout@,
            match envelope {
                Some(j) => Some(j.result.deep_view()),
                None => None,
            },
        ),
{
    match envelope {
        Some(ClaudeJson { result: Some(text) }) => text,
        _ => trim_str(stdout),
    }
}

/// Marks a running state whose head was cut off.
pub const TRUNCATED: &'static str = "…(truncated)…";

pub const STATE_SEPARATOR: &'static str = "\n\n";

pub const STATE_ITER_OPEN: &'static str = "[iteration ";

pub const STATE_ITER_CLOSE: &'static str = "] ";

/// `state` with the summary of iteration `iter` appended.
pub open spec fn appended_state(state: Seq<char>, iter: nat, result_text: Seq<char>) -> Seq<char> {
    (if state.len() == 0 {
        state
    } else {
        state + STATE_SEPARATOR@
    }) + STATE_ITER_OPEN@ + decimal(iter) + STATE_ITER_CLOSE@ + trim(result_text)
}

/// `s` held to `cap` characters: when longer, its tail behind the
/// truncation marker, the two together exactly `cap` long; when the cap
/// leaves no room for the marker, the bare last `cap` characters.
pub open spec fn capped(s: Seq<char>, cap: nat) -> Seq<char> {
    if s.len() <= cap {
        s
    } else if cap >= TRUNCATED@.len() {
        TRUNCATED@ + s.subrange(s.len() - (cap - TRUNCATED@.len()), s.len() as int)
    } else {
        s.subrange(s.len() - cap, s.len() as int)
    }
}

/// The running state after iteration `iter` produced `result_text`.
pub open spec fn next_state(state: Seq<char>, iter: nat, result_text: Seq<char>, cap: nat) -> Seq<
    char,
> {
    capped(appended_state(state, iter, result_text), cap)
}

/// Append a trimmed summary of an iteration's result to the running state,
/// capping the total length at `cap` characters (keeping the tail when over).
pub fn append_state(state: &mut String, iter: u32, result_text: &str, cap: usize)
    ensures
        final(state)@ == next_state(old(state)@, iter as nat, result_text@, cap as nat),
{
    let summary = trim_str(result_text);
    if !state.as_str().is_empty() {
        state.append(STATE_SEPARATOR);
    }
    state.append(STATE_ITER_OPEN);
    push_decimal(state, iter as u64);
    state.append(STATE_ITER_CLOSE);
    state.append(summary.as_str());
    assert(state@ =~= appended_state(old(state)@, iter as nat, result_text@));
    let cs = chars_of(state.as_str());
    if cs.len() > cap {
        let marker_len = chars_of(TRUNCATED).len();
        if cap >= marker_len {
            let mut cut = String::from_str(TRUNCATED);
            push_chars(&mut cut, &cs, cs.len() - (cap - marker_len), cs.len());
            *state = cut;
        } else {
            let mut cut = String::new();
            push_chars(&mut cut, &cs, cs.len() - cap, cs.len());
            *state = cut;
        }
    }
}

/// The arguments the agent CLI is run with for one prompt.
pub open spec fn claude_argv(prompt: Seq<char>, model: Option<Seq<char>>) -> Seq<Seq<char>> {
    let base = seq!["-p"@, prompt, "--output-format"@, "json"@];
    match model {
        Some(m) => base + seq!["--model"@, m],
        None => base,
    }
}

/// The arguments `-p <prompt> --output-format json [--model <m>]`.
pub fn claude_args(prompt: &str, model: &Option<String>) -> (res: Vec<String>)
    ensures
        res.deep_view() == claude_argv(prompt@, model.deep_view()),
{
    let mut res: Vec<String> = Vec::new();
    res.push(String::from_str("-p"));
    res.push(String::from_str(prompt));
    res.push(String::from_str("--output-format"));
    res.push(String::from_str("json"));
    match model {
        Some(m) => {
            res.push(String::from_str("--model"));
            res.push(String::from_str(m.as_str()));
        },
        None => {},
    }
    assert(res.deep_view() =~= claude_argv(prompt@, model.deep_view()));
    res
}

/// The echo of one agent invocation in verbose mode: the prompt is shown
/// only by its length in characters.
pub open spec fn invocation_text(bin: Seq<char>, prompt: Seq<char>, model: Option<Seq<char>>) -> Seq<
    char,
> {
    "+ "@ + bin + " -p <prompt "@ + decimal(prompt.len()) + " chars> --output-format json"@ + match model {
        Some(m) => " --model "@ + m,
        None => Seq::empty(),
    }
}

/// The line echoed before an invocation of the agent CLI in verbose mode.
pub fn invocation_line(bin: &str, prompt: &str, model: &Option<String>) -> (res: String)
    ensures
        res@ == invocation_text(bin@, prompt@, model.deep_view()),
{
    let n = chars_of(prompt).len();
    let mut res = String::from_str("+ ");
    res.append(bin);
    res.append(" -p <prompt ");
    push_decimal(&mut res, n as u64);
    res.append(" chars> --output-format json");
    match model {
        Some(m) => {
            res.append(" --model ");
            res.append(m.as_str());
        },
        None => {},
    }
    res
}

pub const NO_STATUS_NOTE: &'static str = "(no status line emitted)";

/// The status and note an iteration reports before the verify gate: a
/// missing status line counts as `CONTINUE`.
pub open spec fn judged(parsed: Option<(Status, Seq<char>)>) -> (Status, Seq<char>) {
    match parsed {
        Some(p) => p,
        None => (Status::Continue, NO_STATUS_NOTE@),
    }
}

/// The status and note of an iteration from its parsed status line.
pub fn judge(parsed: Option<LoopStatus>) -> (res: (Status, String))
    ensures
        (res.0, res.1@) == judged(parsed.deep_view()),
{
    match parsed {
        Some(ls) => (ls.status, ls.note),
        None => (Status::Continue, String::from_str(NO_STATUS_NOTE)),
    }
}

pub const VERIFY_EXIT_HEAD: &'static str = "verify failed (exit ";

pub const VERIFY_EXIT_TAIL: &'static str = ")";

pub const VERIFY_SIGNAL_NOTE: &'static str = "verify failed (terminated by signal)";

/// The status and note after the verify command ran with exit code `code`
/// (`None` when a signal ended it): only exit code 0 lets them stand.
pub open spec fn verified(status: Status, note: Seq<char>, code: Option<i32>) -> (Status, Seq<char>) {
    match code {
        Some(c) => if c == 0 {
            (status, note)
        } else {
            (Status::Continue, VERIFY_EXIT_HEAD@ + signed_decimal(c as int) + VERIFY_EXIT_TAIL@)
        },
        None => (Status::Continue, VERIFY_SIGNAL_NOTE@),
    }
}

/// Apply the outcome of the verify command to a `DONE` claim: a non-zero
/// exit, or an end by signal, downgrades it to `CONTINUE` with a note.
pub fn apply_verify(status: Status, note: String, code: Option<i32>) -> (res: (Status, String))
    ensures
        (res.0, res.1@) == verified(status, note@, code),
{
    match code {
        Some(c) => {
            if c == 0 {
                (status, note)
            } else {
                let mut n = String::from_str(VERIFY_EXIT_HEAD);
                push_signed_decimal(&mut n, c);
                n.append(VERIFY_EXIT_TAIL);
                (Status::Continue, n)
            }
        },
        None => (Status::Continue, String::from_str(VERIFY_SIGNAL_NOTE)),
    }
}

/// The line printed for each iteration: `[iter n/max] STATUS — note`.
pub open spec fn report_text(iter: nat, max: nat, status: Status, note: Seq<char>) -> Seq<char> {
    "[iter "@ + decimal(iter) + "/"@ + decimal(max) + "] "@ + status_label(status) + " — "@ + note
}

/// The concise line printed for one iteration.
pub fn report_line(iter: u32, max: u32, status: Status, note: &str) -> (res: String)
    ensures
        res@ == report_text(iter as nat, max as nat, status, note@),
{
    let mut res = String::from_str("[iter ");
    push_decimal(&mut res, iter as u64);
    res.append("/");
    push_decimal(&mut res, max as u64);
    res.append("] ");
    let label = status.label();
    res.append(label.as_str());
    res.append(" — ");
    res.append(note);
    res
}

pub const SUMMARY_DONE: &'static str = "✓ loop complete: goal reported DONE.";

pub const SUMMARY_BLOCKED: &'static str = "■ loop stopped: BLOCKED — a decision or input is needed.";

pub const SUMMARY_MAX: &'static str = "✗ loop ended: reached --max without DONE (partial state above).";

/// The final line printed for each outcome.
pub open spec fn summary_text(o: LoopOutcome) -> Seq<char> {
    match o {
        LoopOutcome::Done => SUMMARY_DONE@,
        LoopOutcome::Blocked => SUMMARY_BLOCKED@,
        LoopOutcome::MaxReached => SUMMARY_MAX@,
    }
}

/// The final summary line of a run.
pub fn summary_line(o: LoopOutcome) -> (res: String)
    ensures
        res@ == summary_text(o),
{
    match o {
        LoopOutcome::Done => String::from_str(SUMMARY_DONE),
        LoopOutcome::Blocked => String::from_str(SUMMARY_BLOCKED),
        LoopOutcome::MaxReached => String::from_str(SUMMARY_MAX),
    }
}

/// What the engine knows at any point of a run.
pub ghost struct EngineView {
    pub harness: Seq<char>,
    pub state: Seq<char>,
    /// Iterations finished so far.
    pub completed: nat,
    pub max: nat,
    pub verify: Option<Seq<char>>,
    pub cap: nat,
    /// `Some` once the loop has stopped.
    pub outcome: Option<LoopOutcome>,
    /// The reply text of an iteration whose `DONE` claim waits for the
    /// verify command's exit code.
    pub pending: Option<Seq<char>>,
}

/// The running state before the first iteration.
pub const INITIAL_STATE: &'static str = "(none — first iteration).";

/// The outcome after an iteration with `status` finished as iteration
/// `iter` of `max`; `None` means the loop goes on.
pub open spec fn outcome_after(status: Status, iter: nat, max: nat) -> Option<LoopOutcome> {
    match status {
        Status::Done => Some(LoopOutcome::Done),
        Status::Blocked => Some(LoopOutcome::Blocked),
        Status::Continue => if iter == max {
            Some(LoopOutcome::MaxReached)
        } else {
            None
        },
    }
}

/// The status and note a reply's text reports, before the verify gate: its
/// parsed status line, or `CONTINUE` when it has none.
pub open spec fn reply_reading(reply: Seq<char>) -> (Status, Seq<char>) {
    judged(status_from(regex_captures(status_pattern(), reply)))
}

/// The verify command runs for a `DONE` claim, and only when one is set.
pub open spec fn needs_verify(claimed: Status, verify: Option<Seq<char>>) -> bool {
    claimed == Status::Done && verify is Some
}

/// The final status and note of an iteration whose reply is `reply`; `code`
/// is the verify command's exit code, read only when the command runs.
pub open spec fn iteration_result(reply: Seq<char>, verify: Option<Seq<char>>, code: Option<i32>) -> (
    Status,
    Seq<char>,
) {
    let (s, n) = reply_reading(reply);
    if needs_verify(s, verify) {
        verified(s, n, code)
    } else {
        (s, n)
    }
}

/// The engine after one whole iteration: reply `reply`, verify exit code
/// `code` (read only when the command runs).
pub open spec fn engine_step(v: EngineView, reply: Seq<char>, code: Option<i32>) -> EngineView {
    EngineView {
        harness: v.harness,
        state: next_state(v.state, v.completed + 1, reply, v.cap),
        completed: v.completed + 1,
        max: v.max,
        verify: v.verify,
        cap: v.cap,
        outcome: outcome_after(iteration_result(reply, v.verify, code).0, v.completed + 1, v.max),
        pending: None,
    }
}

/// The engine's invariant: it never runs past the cap, it is still running
/// only while iterations remain, and only a `DONE` claim with a verify
/// command set waits for an exit code.
pub open spec fn engine_inv(v: EngineView) -> bool {
    &&& v.completed <= v.max
    &&& v.outcome is None ==> v.completed < v.max
    &&& v.pending matches Some(r) ==> v.outcome is None && needs_verify(
        reply_reading(r).0,
        v.verify,
    )
}

/// What the caller does after handing a reply to the engine.
pub enum Step {
    /// Run this verify command and hand its exit code to `on_verify`.
    Verify(String),
    /// The iteration is over; print this line.
    Report(String),
}

/// The engine's answer to one reply.
pub struct Reply {
    /// The reply held no status line (it counts as `CONTINUE`).
    pub status_missing: bool,
    pub step: Step,
}

/// Drives the loop: hands out prompts, reads the replies, gates `DONE` on
/// the verify command, carries the running state and decides when the loop
/// stops.
pub struct LoopEngine {
    harness: String,
    state: String,
    completed: u32,
    max: u32,
    verify: Option<String>,
    cap: usize,
    outcome: Option<LoopOutcome>,
    /// Note and reply text of a `DONE` claim awaiting the verify command.
    pending: Option<(String, String)>,
}

impl View for LoopEngine {
    type V = EngineView;

    closed spec fn view(&self) -> EngineView {
        EngineView {
            harness: self.harness@,
            state: self.state@,
            completed: self.completed as nat,
            max: self.max as nat,
            verify: self.verify.deep_view(),
            cap: self.cap as nat,
            outcome: self.outcome,
            pending: match self.pending {
                Some(p) => Some(p.1@),
                None => None,
            },
        }
    }
}

impl LoopEngine {
    /// Well-formed: the invariant holds, and a waiting claim keeps the note
    /// its reply reported.
    pub closed spec fn wf(&self) -> bool {
        &&& engine_inv(self@)
        &&& self.pending matches Some(p) ==> p.0@ == reply_reading(p.1@).1
    }

    /// A fresh engine for `cfg`: nothing run yet, the harness rendered.
    pub fn new(cfg: &Config) -> (res: LoopEngine)
        ensures
            res.wf(),
            res@.harness == harness_of(*cfg),
            res@.state == INITIAL_STATE@,
            res@.completed == 0,
            res@.max == cfg.max,
            res@.verify == cfg.verify.deep_view(),
            res@.cap == cfg.max_state_chars,
            res@.outcome == (if cfg.max == 0 {
                Some(LoopOutcome::MaxReached)
            } else {
                None
            }),
            res@.pending is None,
    {
        let verify = match &cfg.verify {
            Some(v) => Some(String::from_str(v.as_str())),
            None => None,
        };
        LoopEngine {
            harness: render_harness(cfg),
            state: String::from_str(INITIAL_STATE),
            completed: 0,
            max: cfg.max,
            verify,
            cap: cfg.max_state_chars,
            outcome: if cfg.max == 0 {
                Some(LoopOutcome::MaxReached)
            } else {
                None
            },
            pending: None,
        }
    }

    /// The number of the iteration under way.
    pub fn iteration(&self) -> (res: u32)
        requires
            self.wf(),
            self@.outcome is None,
        ensures
            res == self@.completed + 1,
    {
        self.completed + 1
    }

    /// The iteration cap.
    pub fn max(&self) -> (res: u32)
        ensures
            res == self@.max,
    {
        self.max
    }

    /// The running state carried between iterations.
    pub fn state(&self) -> (res: &str)
        ensures
            res@ == self@.state,
    {
        self.state.as_str()
    }

    /// How the loop ended, once it has.
    pub fn outcome(&self) -> (res: Option<LoopOutcome>)
        ensures
            res == self@.outcome,
    {
        self.outcome
    }

    /// The prompt for the next iteration; `None` once the loop has stopped
    /// (or while a verify exit code is awaited).
    pub fn prompt(&self) -> (res: Option<String>)
        requires
            self.wf(),
        ensures
            res is None <==> (self@.outcome is Some || self@.pending is Some),
            res matches Some(p) ==> p@ == prompt_text(
                self@.harness,
                self@.state,
                self@.completed + 1,
                self@.max,
            ),
    {
        if self.outcome.is_some() || self.pending.is_some() {
            None
        } else {
            Some(
                compose_prompt(self.harness.as_str(), self.state.as_str(), self.completed + 1, self.max),
            )
        }
    }

    /// Close the running iteration with final status `status`, folding
    /// `reply` into the running state.
    fn finish(&mut self, status: Status, reply: &str)
        requires
            engine_inv(old(self)@),
            old(self)@.outcome is None,
        ensures
            final(self)@.completed == old(self)@.completed + 1,
            final(self)@.state == next_state(
                old(self)@.state,
                old(self)@.completed + 1,
                reply@,
                old(self)@.cap,
            ),
            final(self)@.outcome == outcome_after(status, old(self)@.completed + 1, old(self)@.max),
            final(self)@.harness == old(self)@.harness,
            final(self)@.max == old(self)@.max,
            final(self)@.verify == old(self)@.verify,
            final(self)@.cap == old(self)@.cap,
            final(self)@.pending is None,
            final(self).pending is None,
    {
        let iter = self.completed + 1;
        append_state(&mut self.state, iter, reply, self.cap);
        self.completed = iter;
        self.pending = None;
        self.outcome = match status {
            Status::Done => Some(LoopOutcome::Done),
            Status::Blocked => Some(LoopOutcome::Blocked),
            Status::Continue => if iter == self.max {
                Some(LoopOutcome::MaxReached)
            } else {
                None
            },
        };
    }

    /// Hand the engine the result text of the running iteration's reply.
    /// A `DONE` claim with a verify command set waits for the command's
    /// exit code (`Step::Verify`); any other reply ends the iteration at
    /// once (`Step::Report`, with the line to print).
    pub fn on_reply(&mut self, reply: &str) -> (res: Reply)
        requires
            old(self).wf(),
            old(self)@.outcome is None,
            old(self)@.pending is None,
        ensures
            final(self).wf(),
            res.status_missing == (status_from(regex_captures(status_pattern(), reply@)) is None),
            needs_verify(reply_reading(reply@).0, old(self)@.verify) ==> {
                &&& final(self)@ == EngineView { pending: Some(reply@), ..old(self)@ }
                &&& res.step matches Step::Verify(cmd) && Some(cmd@) == old(self)@.verify
            },
            !needs_verify(reply_reading(reply@).0, old(self)@.verify) ==> {
                &&& final(self)@ == engine_step(old(self)@, reply@, None)
                &&& res.step matches Step::Report(line) && line@ == report_text(
                    old(self)@.completed + 1,
                    old(self)@.max,
                    reply_reading(reply@).0,
                    reply_reading(reply@).1,
                )
            },
    {
        let parsed = parse_status(reply);
        let status_missing = parsed.is_none();
        let (status, note) = judge(parsed);
        if status == Status::Done && self.verify.is_some() {
            let cmd = match &self.verify {
                Some(v) => String::from_str(v.as_str()),
                None => String::new(),
            };
            self.pending = Some((note, String::from_str(reply)));
            Reply { status_missing, step: Step::Verify(cmd) }
        } else {
            let line = report_line(self.completed + 1, self.max, status, note.as_str());
            self.finish(status, reply);
            Reply { status_missing, step: Step::Report(line) }
        }
    }

    /// Hand the engine the verify command's exit code (`None` when a signal
    /// ended it) for the waiting `DONE` claim: exit code 0 lets it stand,
    /// anything else downgrades it to `CONTINUE`. Ends the iteration and
    /// returns the line to print.
    pub fn on_verify(&mut self, code: Option<i32>) -> (line: String)
        requires
            old(self).wf(),
            old(self)@.pending is Some,
        ensures
            final(self).wf(),
            final(self)@ == engine_step(
                EngineView { pending: None, ..old(self)@ },
                old(self)@.pending->0,
                code,
            ),
            line@ == report_text(
                old(self)@.completed + 1,
                old(self)@.max,
                iteration_result(old(self)@.pending->0, old(self)@.verify, code).0,
                iteration_result(old(self)@.pending->0, old(self)@.verify, code).1,
            ),
    {
        let (note, reply) = match self.pending.take() {
            Some(p) => p,
            None => (String::new(), String::new()),
        };
        let (status, note) = apply_verify(Status::Done, note, code);
        let line = report_line(self.completed + 1, self.max, status, note.as_str());
        self.finish(status, reply.as_str());
        line
    }
}

/// `line` without one trailing carriage return.
pub open spec fn strip_cr(line: Seq<char>) -> Seq<char> {
    if line.len() > 0 && line.last() == '\r' {
        line.drop_last()
    } else {
        line
    }
}

/// Scans `s` left to right: the lines ended by `\n` so far (without their
/// `\n` and one `\r` before it) and the unterminated rest.
pub open spec fn scan_lines(s: Seq<char>) -> (Seq<Seq<char>>, Seq<char>)
    decreases s.len(),
{
    if s.len() == 0 {
        (seq![], seq![])
    } else {
        let (ls, cur) = scan_lines(s.drop_last());
        if s.last() == '\n' {
            (ls.push(strip_cr(cur)), seq![])
        } else {
            (ls, cur.push(s.last()))
        }
    }
}

/// The lines of `s`, as `str::lines` yields them: a last line without a
/// terminator counts only when it is not empty.
pub open spec fn text_lines(s: Seq<char>) -> Seq<Seq<char>> {
    let (ls, cur) = scan_lines(s);
    if cur.len() > 0 {
        ls.push(cur)
    } else {
        ls
    }
}

/// `pat` occurs in `s` as a contiguous run.
pub open spec fn has_infix(s: Seq<char>, pat: Seq<char>) -> bool {
    exists|i: int| 0 <= i && i + pat.len() <= s.len() && #[trigger] s.subrange(i, i + pat.len()) == pat
}

/// A line that mentions `LOOP_STATUS`, in any ASCII case.
pub open spec fn mentions_status(line: Seq<char>) -> bool {
    has_infix(line.map_values(|c: char| ascii_upper(c)), "LOOP_STATUS"@)
}

/// The trimmed lines that mention `LOOP_STATUS`, in order.
pub open spec fn status_mentions(ls: Seq<Seq<char>>) -> Seq<Seq<char>>
    decreases ls.len(),
{
    if ls.len() == 0 {
        seq![]
    } else if mentions_status(ls.last()) {
        status_mentions(ls.drop_last()).push(trim(ls.last()))
    } else {
        status_mentions(ls.drop_last())
    }
}

fn split_lines(cs: &Vec<char>) -> (res: Vec<Vec<char>>)
    ensures
        res.deep_view() == text_lines(cs@),
{
    let mut ls: Vec<Vec<char>> = Vec::new();
    let mut cur: Vec<char> = Vec::new();
    let n = cs.len();
    let mut i: usize = 0;
    assert(cs@.take(0) =~= Seq::<char>::empty());
    while i < n
        invariant
            i <= n == cs@.len(),
            (ls.deep_view(), cur@) == scan_lines(cs@.take(i as int)),
        decreases n - i,
    {
        let c = cs[i];
        assert(cs@.take(i + 1).drop_last() =~= cs@.take(i as int));
        if c == '\n' {
            let ghost before = ls.deep_view();
            let ghost whole = cur@;
            let mut line = cur;
            if line.len() > 0 && line[line.len() - 1] == '\r' {
                line.pop();
            }
            assert(line@ == strip_cr(whole));
            assert(line.deep_view() =~= line@);
            ls.push(line);
            assert(ls.deep_view() =~= before.push(strip_cr(whole)));
            cur = Vec::new();
        } else {
            cur.push(c);
        }
        i = i + 1;
    }
    assert(cs@.take(n as int) =~= cs@);
    if cur.len() > 0 {
        let ghost before = ls.deep_view();
        let line = cur;
        assert(line.deep_view() =~= line@);
        ls.push(line);
        assert(ls.deep_view() =~= before.push(line@));
    }
    ls
}

fn infix_at(s: &Vec<char>, pat: &Vec<char>, i: usize) -> (res: bool)
    requires
        i + pat@.len() <= s@.len(),
    ensures
        res == (s@.subrange(i as int, i + pat@.len()) == pat@),
{
    let n = s.len();
    let mut j: usize = 0;
    while j < pat.len()
        invariant
            n == s@.len(),
            j <= pat@.len(),
            i + pat@.len() <= s@.len(),
            forall|k: int| 0 <= k < j ==> s@[i + k] == pat@[k],
        decreases pat@.len() - j,
    {
        if s[i + j] != pat[j] {
            assert(s@.subrange(i as int, i + pat@.len())[j as int] != pat@[j as int]);
            return false;
        }
        j = j + 1;
    }
    assert(s@.subrange(i as int, i + pat@.len()) =~= pat@);
    true
}

fn find_infix(s: &Vec<char>, pat: &Vec<char>) -> (res: bool)
    ensures
        res == has_infix(s@, pat@),
{
    if pat.len() > s.len() {
        return false;
    }
    let last = s.len() - pat.len();
    let mut i: usize = 0;
    loop
        invariant
            last + pat@.len() == s@.len(),
            i <= last,
            forall|k: int| 0 <= k < i ==> #[trigger] s@.subrange(k, k + pat@.len()) != pat@,
        decreases last - i,
    {
        if infix_at(s, pat, i) {
            return true;
        }
        if i == last {
            return false;
        }
        i = i + 1;
    }
}

/// The lines of a reply that mention `LOOP_STATUS` in any ASCII case,
/// trimmed: what verbose mode echoes as raw status lines.
pub fn raw_status_lines(text: &str) -> (res: Vec<String>)
    ensures
        res.deep_view() == status_mentions(text_lines(text@)),
{
    let cs = chars_of(text);
    let ls = split_lines(&cs);
    let pat = chars_of("LOOP_STATUS");
    let mut res: Vec<String> = Vec::new();
    let mut k: usize = 0;
    let ghost all = text_lines(text@);
    assert(all.take(0) =~= Seq::<Seq<char>>::empty());
    while k < ls.len()
        invariant
            k <= ls@.len(),
            ls.deep_view() == all,
            pat@ == "LOOP_STATUS"@,
            res.deep_view() == status_mentions(all.take(k as int)),
        decreases ls@.len() - k,
    {
        let line = &ls[k];
        assert(line.deep_view() =~= line@);
        assert(line@ == all[k as int]);
        assert(all.take(k + 1).drop_last() =~= all.take(k as int));
        let mut up: Vec<char> = Vec::new();
        let mut j: usize = 0;
        while j < line.len()
            invariant
                j <= line@.len(),
                up@ == line@.take(j as int).map_values(|c: char| ascii_upper(c)),
            decreases line@.len() - j,
        {
            up.push(to_ascii_upper(line[j]));
            assert(line@.take(j + 1).map_values(|c: char| ascii_upper(c)) =~= line@.take(
                j as int,
            ).map_values(|c: char| ascii_upper(c)).push(ascii_upper(line@[j as int])));
            j = j + 1;
        }
        assert(line@.take(j as int) =~= line@);
        if find_infix(&up, &pat) {
            let (a, b) = trim_bounds(line);
            let mut t = String::new();
            push_chars(&mut t, line, a, b);
            let ghost before = res.deep_view();
            res.push(t);
            assert(res.deep_view() =~= before.push(trim(line@)));
        }
        k = k + 1;
    }
    assert(all.take(ls@.len() as int) =~= all);
    res
}

} // verus!
