//! The run configuration and the harness prompt rendered from it.

use vstd::prelude::*;

use crate::text::{
    ascii_lower, chars_of, decimal, is_ascii_alnum, is_ascii_alphanumeric, push_char, push_decimal,
    to_ascii_lower,
};

verus! {

/// Settings of one run of the loop.
#[derive(Debug, Clone)]
pub struct Config {
    /// The outcome to drive toward.
    pub goal: String,
    /// Hard iteration cap (safety rail).
    pub max: u32,
    /// Shell command; `DONE` is only accepted if it exits 0.
    pub verify: Option<String>,
    /// Explicit Definition of Done; otherwise auto-derived.
    pub dod: Option<String>,
    /// Model name forwarded to the agent CLI as `--model`.
    pub model: Option<String>,
    /// Render the harness, print it, and exit 0 (no agent calls).
    pub dry_run: bool,
    /// Cap on running state carried between iterations.
    pub max_state_chars: usize,
    /// The agent CLI binary to run.
    pub claude_bin: String,
    /// Echo each invocation and raw status lines.
    pub verbose: bool,
}

/// Scans `s` left to right: the words completed so far (maximal runs of
/// ASCII alphanumerics) and the run in progress at the end of `s`.
pub open spec fn scan_words(s: Seq<char>) -> (Seq<Seq<char>>, Seq<char>)
    decreases s.len(),
{
    if s.len() == 0 {
        (seq![], seq![])
    } else {
        let (ws, cur) = scan_words(s.drop_last());
        let c = s.last();
        if is_ascii_alnum(c) {
            (ws, cur.push(c))
        } else if cur.len() > 0 {
            (ws.push(cur), seq![])
        } else {
            (ws, seq![])
        }
    }
}

/// The words of `s`: its maximal runs of ASCII alphanumeric characters, in
/// order.
pub open spec fn words(s: Seq<char>) -> Seq<Seq<char>> {
    let (ws, cur) = scan_words(s);
    if cur.len() > 0 {
        ws.push(cur)
    } else {
        ws
    }
}

/// `ws` joined with `sep` between consecutive elements.
pub open spec fn join(ws: Seq<Seq<char>>, sep: char) -> Seq<char>
    decreases ws.len(),
{
    if ws.len() == 0 {
        seq![]
    } else if ws.len() == 1 {
        ws[0]
    } else {
        join(ws.drop_last(), sep).push(sep) + ws.last()
    }
}

/// A word in ASCII lower case.
pub open spec fn lower_word(w: Seq<char>) -> Seq<char> {
    w.map_values(|c: char| ascii_lower(c))
}

/// The first (at most) six words of the goal, lower-cased.
pub open spec fn slug_words(goal: Seq<char>) -> Seq<Seq<char>> {
    let ws = words(goal);
    let first = if ws.len() > 6 {
        ws.take(6)
    } else {
        ws
    };
    first.map_values(|w: Seq<char>| lower_word(w))
}

/// The slug of a goal: its first six words, lower-cased, joined by `-`;
/// `loop` when the goal has no word.
pub open spec fn slug(goal: Seq<char>) -> Seq<char> {
    let ws = slug_words(goal);
    if ws.len() == 0 {
        "loop"@
    } else {
        join(ws, '-')
    }
}

proof fn lemma_join_step(ws: Seq<Seq<char>>, k: int, sep: char)
    requires
        0 < k < ws.len(),
    ensures
        join(ws.take(k + 1), sep) == join(ws.take(k), sep).push(sep) + ws[k],
{
    assert(ws.take(k + 1).drop_last() =~= ws.take(k));
}

/// Splits `cs` into its words.
fn split_words(cs: &Vec<char>) -> (res: Vec<Vec<char>>)
    ensures
        res.deep_view() == words(cs@),
{
    let mut ws: Vec<Vec<char>> = Vec::new();
    let mut cur: Vec<char> = Vec::new();
    let n = cs.len();
    let mut i: usize = 0;
    assert(cs@.take(0) =~= Seq::<char>::empty());
    while i < n
        invariant
            i <= n == cs@.len(),
            (ws.deep_view(), cur@) == scan_words(cs@.take(i as int)),
        decreases n - i,
    {
        let c = cs[i];
        assert(cs@.take(i + 1).drop_last() =~= cs@.take(i as int));
        if is_ascii_alphanumeric(c) {
            cur.push(c);
        } else if cur.len() > 0 {
            let ghost before = ws.deep_view();
            let w = cur;
            assert(w.deep_view() =~= w@);
            ws.push(w);
            assert(ws.deep_view() =~= before.push(w@));
            cur = Vec::new();
        }
        i = i + 1;
    }
    assert(cs@.take(n as int) =~= cs@);
    if cur.len() > 0 {
        let ghost before = ws.deep_view();
        let w = cur;
        assert(w.deep_view() =~= w@);
        ws.push(w);
        assert(ws.deep_view() =~= before.push(w@));
    }
    ws
}

/// Derive a short slug from the goal: lowercase, non-alphanumerics collapsed to
/// `-`, first ~6 words. Falls back to `loop` when nothing usable remains.
pub fn slugify(goal: &str) -> (res: String)
    ensures
        res@ == slug(goal@),
{
    let cs = chars_of(goal);
    let ws = split_words(&cs);
    let m: usize = if ws.len() > 6 {
        6
    } else {
        ws.len()
    };
    let ghost all = words(goal@);
    let ghost first = if all.len() > 6 {
        all.take(6)
    } else {
        all
    };
    let ghost lw = slug_words(goal@);
    assert(first.len() == m);
    assert(lw.len() == m);
    if m == 0 {
        return String::from_str("loop");
    }
    let mut res = String::new();
    let mut k: usize = 0;
    assert(lw.take(0) =~= Seq::<Seq<char>>::empty());
    while k < m
        invariant
            0 < m <= ws@.len(),
            k <= m,
            m == lw.len(),
            ws.deep_view() == all,
            lw == first.map_values(|w: Seq<char>| lower_word(w)),
            first == all.take(m as int),
            res@ == join(lw.take(k as int), '-'),
        decreases m - k,
    {
        let ghost before = res@;
        if k > 0 {
            push_char(&mut res, '-');
        }
        let ghost mid = res@;
        let w = &ws[k];
        assert(w.deep_view() =~= w@);
        assert(w@ == all[k as int]);
        assert(lw[k as int] == lower_word(w@));
        let mut j: usize = 0;
        while j < w.len()
            invariant
                j <= w@.len(),
                res@ == mid + lower_word(w@.take(j as int)),
            decreases w@.len() - j,
        {
            push_char(&mut res, to_ascii_lower(w[j]));
            assert(lower_word(w@.take(j + 1)) =~= lower_word(w@.take(j as int)).push(
                ascii_lower(w@[j as int]),
            ));
            j = j + 1;
        }
        assert(w@.take(j as int) =~= w@);
        proof {
            if k > 0 {
                lemma_join_step(lw, k as int, '-');
            } else {
                assert(lw.take(1) =~= seq![lw[0]]);
                assert(res@ =~= join(lw.take(1), '-'));
            }
        }
        k = k + 1;
    }
    assert(lw.take(m as int) =~= lw);
    res
}

/// Definition of Done used when none is given and there is no verify command.
pub const DOD_AUTO: &'static str = "The stated goal is fully achieved, with concrete evidence cited for each success criterion.";

/// Text before the verify command in the auto-derived Definition of Done.
pub const DOD_VERIFY_HEAD: &'static str = "The stated goal is achieved and the verify command (`";

/// Text after the verify command in the auto-derived Definition of Done.
pub const DOD_VERIFY_TAIL: &'static str = "`) exits 0.";

/// The Definition of Done for `dod` and `verify`: an explicit one wins,
/// otherwise it is derived from whether a verify command is present.
pub open spec fn dod_text(dod: Option<Seq<char>>, verify: Option<Seq<char>>) -> Seq<char> {
    match dod {
        Some(d) => d,
        None => match verify {
            Some(cmd) => DOD_VERIFY_HEAD@ + cmd + DOD_VERIFY_TAIL@,
            None => DOD_AUTO@,
        },
    }
}

/// Resolve the Definition of Done: explicit `--dod` wins, otherwise auto-derive
/// based on whether a `--verify` command is present.
pub fn definition_of_done(cfg: &Config) -> (res: String)
    ensures
        res@ == dod_text(cfg.dod.deep_view(), cfg.verify.deep_view()),
{
    match &cfg.dod {
        Some(dod) => {
            return String::from_str(dod.as_str());
        },
        None => {},
    }
    match &cfg.verify {
        Some(cmd) => {
            let mut res = String::from_str(DOD_VERIFY_HEAD);
            res.append(cmd.as_str());
            res.append(DOD_VERIFY_TAIL);
            res
        },
        None => String::from_str(DOD_AUTO),
    }
}

pub const HARNESS_TITLE: &'static str = "# AGENTIC LOOP — ";

pub const HARNESS_GOAL: &'static str = "\n\n## Goal\n";

pub const HARNESS_CYCLE: &'static str = "\n\n## Role
You are the loop CONTROLLER. Execute this as an ITERATIVE loop, not a single pass.

## Cycle (repeat each iteration)
1. PLAN   — state the smallest next increment toward the goal.
2. ACT    — do it. For non-trivial work spawn a worker; otherwise act directly.
3. VERIFY — check progress against the Definition of Done.";

pub const HARNESS_RUN: &'static str = "\n          Run: ";

pub const HARNESS_MUST_EXIT: &'static str = "\n          It MUST exit 0 before you may report DONE.";

pub const HARNESS_REPORT: &'static str = "
4. REPORT — emit exactly one line, this format:
          LOOP_STATUS: <DONE|CONTINUE|BLOCKED> | iter <n>/";

pub const HARNESS_DOD: &'static str = " | <one-line note>
5. CARRY  — update a running STATE summary: what is done, what remains, key decisions.

## Definition of Done
";

pub const HARNESS_TERMINATION: &'static str = "

## Termination
- Continue while status == CONTINUE and iter < ";

pub const HARNESS_STOP: &'static str = ".
- Stop on DONE, BLOCKED, or iter == ";

pub const HARNESS_CONSTRAINTS: &'static str = " (then report partial state — do not silently continue).

## Constraints (hard)
- Max iterations: ";

pub const HARNESS_END: &'static str = ".
- Do NOT modify or delete files without explicit confirmation.
- Do NOT send any message (email/Slack/GitHub/etc.) without per-action confirmation.
- Infra changes (Terraform/K8s/CI): always dry-run / plan before apply.
- Never log or print secrets.
- If BLOCKED (needs a decision, missing credential, or ambiguity): stop and surface the specific question — do not guess.

## Begin
Start at iteration 1.";

/// The two verify lines of the cycle: present exactly when a verify command
/// is given.
pub open spec fn verify_block(verify: Option<Seq<char>>) -> Seq<char> {
    match verify {
        Some(cmd) => HARNESS_RUN@ + cmd + HARNESS_MUST_EXIT@,
        None => Seq::empty(),
    }
}

/// The harness prompt for a goal, iteration cap, verify command and
/// Definition of Done.
pub open spec fn harness_text(
    goal: Seq<char>,
    max: nat,
    verify: Option<Seq<char>>,
    dod: Seq<char>,
) -> Seq<char> {
    HARNESS_TITLE@ + slug(goal) + HARNESS_GOAL@ + goal + HARNESS_CYCLE@ + verify_block(verify)
        + HARNESS_REPORT@ + decimal(max) + HARNESS_DOD@ + dod + HARNESS_TERMINATION@ + decimal(max)
        + HARNESS_STOP@ + decimal(max) + HARNESS_CONSTRAINTS@ + decimal(max) + HARNESS_END@
}

/// The harness prompt that `cfg` renders to.
pub open spec fn harness_of(cfg: Config) -> Seq<char> {
    harness_text(
        cfg.goal@,
        cfg.max as nat,
        cfg.verify.deep_view(),
        dod_text(cfg.dod.deep_view(), cfg.verify.deep_view()),
    )
}

/// Render the full harness prompt. When `--verify` is absent, the two
/// `Run:` / `It MUST exit 0` lines are omitted entirely.
pub fn render_harness(cfg: &Config) -> (res: String)
    ensures
        res@ == harness_of(*cfg),
{
    let slug = slugify(cfg.goal.as_str());
    let dod = definition_of_done(cfg);
    let max = cfg.max as u64;
    let mut res = String::from_str(HARNESS_TITLE);
    res.append(slug.as_str());
    res.append(HARNESS_GOAL);
    res.append(cfg.goal.as_str());
    res.append(HARNESS_CYCLE);
    match &cfg.verify {
        Some(cmd) => {
            res.append(HARNESS_RUN);
            res.append(cmd.as_str());
            res.append(HARNESS_MUST_EXIT);
        },
        None => {},
    }
    res.append(HARNESS_REPORT);
    push_decimal(&mut res, max);
    res.append(HARNESS_DOD);
    res.append(dod.as_str());
    res.append(HARNESS_TERMINATION);
    push_decimal(&mut res, max);
    res.append(HARNESS_STOP);
    push_decimal(&mut res, max);
    res.append(HARNESS_CONSTRAINTS);
    push_decimal(&mut res, max);
    res.append(HARNESS_END);
    assert(res@ =~= harness_of(*cfg));
    res
}

} // verus!
