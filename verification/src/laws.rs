//! Properties of the loop as a whole, proved over the specifications that
//! the functions' contracts use.

use vstd::prelude::*;

use crate::engine::{
    appended_state, engine_inv, engine_step, iteration_result, judged, needs_verify, next_state,
    outcome_after, outcome_code, prompt_text, reply_reading, verified, EngineView, LoopOutcome,
    TRUNCATED,
};
use crate::harness::{
    dod_text, harness_of, harness_text, join, lower_word, scan_words, slug, slug_words,
    verify_block, words, Config, HARNESS_CYCLE, HARNESS_GOAL, HARNESS_MUST_EXIT, HARNESS_RUN,
    HARNESS_TITLE,
};
use crate::engine::{
    has_infix, NO_STATUS_NOTE, PROMPT_STATE, VERIFY_EXIT_HEAD, VERIFY_EXIT_TAIL, VERIFY_SIGNAL_NOTE,
};
use crate::status::{regex_captures, status_from, status_label, status_of_word, status_pattern, Status};
use crate::text::{decimal, digit_char, is_ascii_alnum, is_ws, signed_decimal, trim};
use crate::engine::{claude_argv, report_text, result_text};
use crate::harness::{DOD_AUTO, DOD_VERIFY_HEAD, DOD_VERIFY_TAIL, HARNESS_DOD};
use crate::text::{ascii_lower, ascii_upper};

verus! {

/// Each outcome has its own exit code, and none of them is `1`, the code
/// kept for internal errors.
pub proof fn law_exit_codes_distinct(a: LoopOutcome, b: LoopOutcome)
    ensures
        outcome_code(a) == outcome_code(b) <==> a == b,
        outcome_code(a) != 1,
{
}

/// When several status lines match, the last one wins: matches before the
/// last have no effect on the parsed status line.
pub proof fn law_last_match_wins(
    earlier: Seq<(Seq<char>, Seq<char>)>,
    later: Seq<(Seq<char>, Seq<char>)>,
)
    requires
        later.len() > 0,
    ensures
        status_from(earlier + later) == status_from(later),
{
    assert((earlier + later).last() == later.last());
}

/// Text with no status line parses to nothing.
pub proof fn law_no_match_is_none()
    ensures
        status_from(Seq::empty()) is None,
{
}

/// The status word is read without regard to ASCII case.
pub proof fn law_status_word_case_insensitive(w: Seq<char>)
    ensures
        status_of_word(w) == status_of_word(w.map_values(|c: char| ascii_lower(c))),
        status_of_word(w) == status_of_word(w.map_values(|c: char| ascii_upper(c))),
{
    let up = |c: char| ascii_upper(c);
    let lo = |c: char| ascii_lower(c);
    assert(w.map_values(lo).map_values(up) =~= w.map_values(up));
    assert(w.map_values(up).map_values(up) =~= w.map_values(up));
}

/// An explicit Definition of Done overrides the derived one, whatever the
/// verify command.
pub proof fn law_explicit_dod_wins(dod: Seq<char>, verify: Option<Seq<char>>)
    ensures
        dod_text(Some(dod), verify) == dod,
{
}

/// A `DONE` claim survives the verify gate exactly when the verify command
/// exits 0; otherwise the iteration counts as `CONTINUE`.
pub proof fn law_done_needs_passing_verify(note: Seq<char>, code: Option<i32>)
    ensures
        verified(Status::Done, note, code).0 == Status::Done <==> code == Some(0i32),
        code != Some(0i32) ==> verified(Status::Done, note, code).0 == Status::Continue,
{
}

/// A reply without a status line never stops the loop before the cap.
pub proof fn law_missing_status_continues(iter: nat, max: nat)
    requires
        iter < max,
    ensures
        judged(None).0 == Status::Continue,
        outcome_after(judged(None).0, iter, max) is None,
{
}

/// The loop stops on `DONE` and on `BLOCKED`, and keeps going on `CONTINUE`
/// until the cap.
pub proof fn law_termination_rules(status: Status, iter: nat, max: nat)
    requires
        1 <= iter <= max,
    ensures
        status == Status::Done ==> outcome_after(status, iter, max) == Some(LoopOutcome::Done),
        status == Status::Blocked ==> outcome_after(status, iter, max) == Some(
            LoopOutcome::Blocked,
        ),
        status == Status::Continue ==> (outcome_after(status, iter, max) is None <==> iter < max),
        status == Status::Continue && iter == max ==> outcome_after(status, iter, max) == Some(
            LoopOutcome::MaxReached,
        ),
{
}

/// A running engine never exceeds the iteration cap, and the iteration
/// that reaches the cap always ends the loop.
pub proof fn law_iteration_cap(v: EngineView, status: Status)
    requires
        engine_inv(v),
    ensures
        v.completed <= v.max,
        v.outcome is None ==> v.completed + 1 <= v.max,
        v.outcome is None && v.completed + 1 == v.max ==> outcome_after(
            status,
            v.completed + 1,
            v.max,
        ) is Some,
{
}

/// The running state never grows past the cap. When the appended state
/// fits, it is kept whole; otherwise what stays is the truncation marker
/// followed by the tail of the appended state, exactly `cap` characters in
/// all (or the bare tail, when the cap is shorter than the marker).
pub proof fn law_state_capped(state: Seq<char>, iter: nat, result_text: Seq<char>, cap: nat)
    ensures
        next_state(state, iter, result_text, cap).len() <= cap,
        appended_state(state, iter, result_text).len() <= cap ==> next_state(
            state,
            iter,
            result_text,
            cap,
        ) == appended_state(state, iter, result_text),
        appended_state(state, iter, result_text).len() > cap ==> next_state(
            state,
            iter,
            result_text,
            cap,
        ).len() == cap,
        ({
            let a = appended_state(state, iter, result_text);
            let n = next_state(state, iter, result_text, cap);
            a.len() > cap && cap >= TRUNCATED@.len() ==> n == TRUNCATED@ + a.subrange(
                a.len() - (cap - TRUNCATED@.len()),
                a.len() as int,
            )
        }),
        ({
            let a = appended_state(state, iter, result_text);
            let n = next_state(state, iter, result_text, cap);
            a.len() > cap && cap < TRUNCATED@.len() ==> n == a.subrange(
                a.len() - cap,
                a.len() as int,
            )
        }),
{
}

/// A character that may appear in a slug.
pub open spec fn slug_char(c: char) -> bool {
    ||| 'a' <= c <= 'z'
    ||| '0' <= c <= '9'
    ||| c == '-'
}

/// A non-empty run of ASCII alphanumerics.
pub open spec fn alnum_word(w: Seq<char>) -> bool {
    &&& w.len() > 0
    &&& forall|i: int| 0 <= i < w.len() ==> #[trigger] crate::text::is_ascii_alnum(w[i])
}

proof fn lemma_scan_words_alnum(s: Seq<char>)
    ensures
        forall|k: int| 0 <= k < scan_words(s).0.len() ==> alnum_word(#[trigger] scan_words(s).0[k]),
        forall|i: int|
            0 <= i < scan_words(s).1.len() ==> crate::text::is_ascii_alnum(
                #[trigger] scan_words(s).1[i],
            ),
    decreases s.len(),
{
    if s.len() > 0 {
        lemma_scan_words_alnum(s.drop_last());
        let (ws, cur) = scan_words(s.drop_last());
        let c = s.last();
        let (ws2, cur2) = scan_words(s);
        if crate::text::is_ascii_alnum(c) {
            assert(ws2 == ws && cur2 == cur.push(c));
            assert forall|i: int| 0 <= i < cur2.len() implies crate::text::is_ascii_alnum(
                #[trigger] cur2[i],
            ) by {
                if i < cur.len() {
                    assert(cur2[i] == cur[i]);
                }
            }
        } else if cur.len() > 0 {
            assert(ws2 == ws.push(cur) && cur2.len() == 0);
            assert forall|k: int| 0 <= k < ws2.len() implies alnum_word(#[trigger] ws2[k]) by {
                if k < ws.len() {
                    assert(ws2[k] == ws[k]);
                } else {
                    assert(ws2[k] == cur);
                    assert forall|i: int| 0 <= i < cur.len() implies #[trigger] crate::text::is_ascii_alnum(cur[i]) by {}
                }
            }
        } else {
            assert(ws2 == ws && cur2.len() == 0);
        }
    }
}

proof fn lemma_words_alnum(s: Seq<char>)
    ensures
        forall|k: int| 0 <= k < words(s).len() ==> alnum_word(#[trigger] words(s)[k]),
{
    lemma_scan_words_alnum(s);
}

/// A word of lower-case ASCII letters and digits.
pub open spec fn lower_alnum_word(w: Seq<char>) -> bool {
    &&& w.len() > 0
    &&& forall|i: int|
        0 <= i < w.len() ==> ('a' <= #[trigger] w[i] <= 'z' || '0' <= w[i] <= '9')
}

/// How many times `c` occurs in `s`.
pub open spec fn count_char(s: Seq<char>, c: char) -> nat
    decreases s.len(),
{
    if s.len() == 0 {
        0
    } else {
        count_char(s.drop_last(), c) + if s.last() == c {
            1nat
        } else {
            0nat
        }
    }
}

/// `s` has two `-` in a row at position `i`.
pub open spec fn double_dash_at(s: Seq<char>, i: int) -> bool {
    s[i] == '-' && s[i + 1] == '-'
}

proof fn lemma_count_add(a: Seq<char>, b: Seq<char>, c: char)
    ensures
        count_char(a + b, c) == count_char(a, c) + count_char(b, c),
    decreases b.len(),
{
    if b.len() == 0 {
        assert(a + b =~= a);
    } else {
        lemma_count_add(a, b.drop_last(), c);
        assert((a + b).drop_last() =~= a + b.drop_last());
    }
}

proof fn lemma_count_absent(w: Seq<char>, c: char)
    requires
        forall|i: int| 0 <= i < w.len() ==> #[trigger] w[i] != c,
    ensures
        count_char(w, c) == 0,
    decreases w.len(),
{
    if w.len() > 0 {
        lemma_count_absent(w.drop_last(), c);
    }
}

proof fn lemma_join_chars(ws: Seq<Seq<char>>)
    requires
        ws.len() > 0,
        forall|k: int| 0 <= k < ws.len() ==> lower_alnum_word(#[trigger] ws[k]),
    ensures
        join(ws, '-').len() > 0,
        forall|i: int| 0 <= i < join(ws, '-').len() ==> slug_char(#[trigger] join(ws, '-')[i]),
        join(ws, '-')[0] != '-',
        join(ws, '-').last() != '-',
        forall|i: int| 0 <= i < join(ws, '-').len() - 1 ==> !#[trigger] double_dash_at(join(ws, '-'), i),
        count_char(join(ws, '-'), '-') == ws.len() - 1,
    decreases ws.len(),
{
    let j = join(ws, '-');
    let w = ws.last();
    assert(lower_alnum_word(ws[0]));
    assert(lower_alnum_word(w));
    lemma_count_absent(w, '-');
    if ws.len() > 1 {
        let p = ws.drop_last();
        assert forall|k: int| 0 <= k < p.len() implies lower_alnum_word(#[trigger] p[k]) by {
            assert(p[k] == ws[k]);
        }
        lemma_join_chars(p);
        let jp = join(p, '-');
        assert(j == jp.push('-') + w);
        assert forall|i: int| 0 <= i < j.len() implies slug_char(#[trigger] j[i]) by {
            if i < jp.len() {
                assert(j[i] == jp[i]);
            } else if i == jp.len() {
                assert(j[i] == '-');
            } else {
                assert(j[i] == w[i - jp.len() - 1]);
            }
        }
        assert forall|i: int| 0 <= i < j.len() - 1 implies !#[trigger] double_dash_at(j, i) by {
            if i < jp.len() - 1 {
                assert(j[i] == jp[i] && j[i + 1] == jp[i + 1]);
                assert(!double_dash_at(jp, i));
            } else if i == jp.len() - 1 {
                assert(j[i] == jp.last());
            } else {
                assert(j[i + 1] == w[i + 1 - jp.len() - 1]);
            }
        }
        assert(j[0] == jp[0]);
        assert(j.last() == w.last());
        lemma_count_add(jp.push('-'), w, '-');
        assert(count_char(jp.push('-'), '-') == count_char(jp, '-') + 1) by {
            assert(jp.push('-').drop_last() =~= jp);
        }
    } else {
        assert(j == w);
        assert forall|i: int| 0 <= i < j.len() - 1 implies !#[trigger] double_dash_at(j, i) by {}
    }
}

proof fn lemma_slug_words_lower(goal: Seq<char>)
    ensures
        slug_words(goal).len() <= 6,
        forall|k: int|
            0 <= k < slug_words(goal).len() ==> lower_alnum_word(#[trigger] slug_words(goal)[k]),
{
    let ws = slug_words(goal);
    lemma_words_alnum(goal);
    let all = words(goal);
    let first = if all.len() > 6 {
        all.take(6)
    } else {
        all
    };
    assert forall|k: int| 0 <= k < ws.len() implies lower_alnum_word(#[trigger] ws[k]) by {
        assert(alnum_word(all[k]));
        assert(first[k] == all[k]);
        let w = all[k];
        assert(ws[k] == lower_word(w));
        assert forall|i: int| 0 <= i < ws[k].len() implies ('a' <= #[trigger] ws[k][i] <= 'z' || '0'
            <= ws[k][i] <= '9') by {
            assert(crate::text::is_ascii_alnum(w[i]));
            assert(ws[k][i] == ascii_lower(w[i]));
        }
    }
}

/// The slug of a goal is never empty, holds only lower-case ASCII letters,
/// digits and `-`, neither starts nor ends with `-`, never holds `--`, and
/// joins at most six words, so it holds at most five `-`.
pub proof fn law_slug_shape(goal: Seq<char>)
    ensures
        slug_words(goal).len() <= 6,
        slug(goal).len() > 0,
        forall|i: int| 0 <= i < slug(goal).len() ==> slug_char(#[trigger] slug(goal)[i]),
        slug(goal)[0] != '-',
        slug(goal).last() != '-',
        forall|i: int| 0 <= i < slug(goal).len() - 1 ==> !#[trigger] double_dash_at(slug(goal), i),
        count_char(slug(goal), '-') <= 5,
{
    let ws = slug_words(goal);
    lemma_slug_words_lower(goal);
    if ws.len() == 0 {
        reveal_strlit("loop");
        let l = "loop"@;
        assert(slug(goal) == l);
        assert(lower_alnum_word(l));
        lemma_join_chars(seq![l]);
        assert(join(seq![l], '-') == l);
    } else {
        lemma_join_chars(ws);
    }
}

proof fn lemma_scan_append_word(p: Seq<char>, w: Seq<char>)
    requires
        forall|i: int| 0 <= i < w.len() ==> crate::text::is_ascii_alnum(#[trigger] w[i]),
    ensures
        scan_words(p + w) == (scan_words(p).0, scan_words(p).1 + w),
    decreases w.len(),
{
    if w.len() == 0 {
        assert(p + w =~= p);
        assert(scan_words(p).1 + w =~= scan_words(p).1);
    } else {
        lemma_scan_append_word(p, w.drop_last());
        assert((p + w).drop_last() =~= p + w.drop_last());
        assert((scan_words(p).1 + w.drop_last()).push(w.last()) =~= scan_words(p).1 + w);
    }
}

proof fn lemma_scan_join(ws: Seq<Seq<char>>)
    requires
        ws.len() > 0,
        forall|k: int| 0 <= k < ws.len() ==> alnum_word(#[trigger] ws[k]),
    ensures
        scan_words(join(ws, '-')) == (ws.drop_last(), ws.last()),
    decreases ws.len(),
{
    let w = ws.last();
    assert(alnum_word(w));
    if ws.len() == 1 {
        lemma_scan_append_word(Seq::empty(), w);
        assert(Seq::<char>::empty() + w =~= w);
        assert(Seq::<char>::empty() + w == join(ws, '-'));
        assert(ws.drop_last() =~= Seq::<Seq<char>>::empty());
        assert(scan_words(Seq::<char>::empty()) == (Seq::<Seq<char>>::empty(), Seq::<char>::empty()));
    } else {
        let p = ws.drop_last();
        assert forall|k: int| 0 <= k < p.len() implies alnum_word(#[trigger] p[k]) by {
            assert(p[k] == ws[k]);
        }
        lemma_scan_join(p);
        let jp = join(p, '-');
        let x = jp.push('-');
        assert(x.drop_last() =~= jp);
        assert(alnum_word(p.last()));
        assert(scan_words(x) == (p.drop_last().push(p.last()), Seq::<char>::empty()));
        assert(p.drop_last().push(p.last()) =~= p);
        lemma_scan_append_word(x, w);
        assert(Seq::<char>::empty() + w =~= w);
    }
}

/// Slugifying a slug gives it back.
pub proof fn law_slug_idempotent(goal: Seq<char>)
    ensures
        slug(slug(goal)) == slug(goal),
{
    let ws = slug_words(goal);
    lemma_slug_words_lower(goal);
    let ws2 = if ws.len() == 0 {
        reveal_strlit("loop");
        let l = "loop"@;
        assert(lower_alnum_word(l));
        seq![l]
    } else {
        ws
    };
    assert(forall|k: int| 0 <= k < ws2.len() ==> lower_alnum_word(#[trigger] ws2[k]));
    assert(slug(goal) == join(ws2, '-')) by {
        if ws.len() == 0 {
            reveal_strlit("loop");
        }
    }
    assert forall|k: int| 0 <= k < ws2.len() implies alnum_word(#[trigger] ws2[k]) by {
        assert(lower_alnum_word(ws2[k]));
        assert forall|i: int| 0 <= i < ws2[k].len() implies crate::text::is_ascii_alnum(
            #[trigger] ws2[k][i],
        ) by {}
    }
    lemma_scan_join(ws2);
    let sl = slug(goal);
    assert(words(sl) =~= ws2);
    assert forall|k: int| 0 <= k < ws2.len() implies lower_word(#[trigger] ws2[k]) == ws2[k] by {
        assert(lower_alnum_word(ws2[k]));
        assert(lower_word(ws2[k]) =~= ws2[k]);
    }
    assert(slug_words(sl) =~= ws2);
}


/// With a verify command set, the loop can end as `DONE` only on an
/// iteration whose model claimed `DONE` and whose verify command exited 0.
pub proof fn law_done_outcome_is_verified(
    claimed: Status,
    note: Seq<char>,
    code: Option<i32>,
    iter: nat,
    max: nat,
)
    ensures
        outcome_after(verified(claimed, note, code).0, iter, max) == Some(LoopOutcome::Done)
            ==> claimed == Status::Done && code == Some(0i32),
{
}

/// The cycle carries the `Run:` / `It MUST exit 0` lines exactly when a
/// verify command is given; without one the harness has nothing between the
/// `VERIFY` step and the `REPORT` step.
pub proof fn law_verify_lines_only_with_verify(
    goal: Seq<char>,
    max: nat,
    cmd: Seq<char>,
    dod: Seq<char>,
)
    ensures
        verify_block(None) == Seq::<char>::empty(),
        verify_block(Some(cmd)) == HARNESS_RUN@ + cmd + HARNESS_MUST_EXIT@,
        harness_text(goal, max, Some(cmd), dod).len() == harness_text(goal, max, None, dod).len()
            + HARNESS_RUN@.len() + cmd.len() + HARNESS_MUST_EXIT@.len(),
{
}

/// The engine after the first `k` whole iterations of a run from `v0`, with
/// replies `replies` and verify exit codes `codes` (the code of an
/// iteration is read only when its verify command runs).
pub open spec fn run_after(
    v0: EngineView,
    replies: Seq<Seq<char>>,
    codes: Seq<Option<i32>>,
    k: nat,
) -> EngineView
    decreases k,
{
    if k == 0 {
        v0
    } else {
        engine_step(run_after(v0, replies, codes, (k - 1) as nat), replies[k - 1], codes[k - 1])
    }
}

/// The running state after the first `k` iterations, starting from `s0`.
pub open spec fn states_after(s0: Seq<char>, replies: Seq<Seq<char>>, cap: nat, k: nat) -> Seq<char>
    decreases k,
{
    if k == 0 {
        s0
    } else {
        next_state(states_after(s0, replies, cap, (k - 1) as nat), k, replies[k - 1], cap)
    }
}

/// The outcome of a run whose last iteration ended with `status`.
pub open spec fn final_outcome(status: Status) -> LoopOutcome {
    match status {
        Status::Done => LoopOutcome::Done,
        Status::Blocked => LoopOutcome::Blocked,
        Status::Continue => LoopOutcome::MaxReached,
    }
}

proof fn lemma_run_prefix(
    v0: EngineView,
    replies: Seq<Seq<char>>,
    codes: Seq<Option<i32>>,
    n: nat,
    j: nat,
)
    requires
        engine_inv(v0),
        v0.completed == 0,
        v0.outcome is None,
        v0.pending is None,
        1 <= n <= v0.max,
        replies.len() >= n,
        codes.len() >= n,
        forall|i: int|
            0 <= i < n - 1 ==> #[trigger] iteration_result(replies[i], v0.verify, codes[i]).0
                == Status::Continue,
        n < v0.max ==> iteration_result(replies[n - 1], v0.verify, codes[n - 1]).0
            != Status::Continue,
        j <= n,
    ensures
        run_after(v0, replies, codes, j).completed == j,
        run_after(v0, replies, codes, j).harness == v0.harness,
        run_after(v0, replies, codes, j).max == v0.max,
        run_after(v0, replies, codes, j).verify == v0.verify,
        run_after(v0, replies, codes, j).cap == v0.cap,
        run_after(v0, replies, codes, j).pending is None,
        run_after(v0, replies, codes, j).state == states_after(v0.state, replies, v0.cap, j),
        j < n ==> run_after(v0, replies, codes, j).outcome is None,
        j == n ==> run_after(v0, replies, codes, j).outcome == Some(
            final_outcome(iteration_result(replies[n - 1], v0.verify, codes[n - 1]).0),
        ),
    decreases j,
{
    if j > 0 {
        lemma_run_prefix(v0, replies, codes, n, (j - 1) as nat);
        let i = j - 1;
        let st = iteration_result(replies[i], v0.verify, codes[i]).0;
        if j < n {
            assert(st == Status::Continue);
        }
    }
}

/// A whole run. Iteration `i` (from 1) reads `replies[i - 1]`, and its
/// verify command, when it runs, exits with `codes[i - 1]`. If iterations
/// 1 to `n - 1` all end `CONTINUE` and iteration `n` ends otherwise or is
/// the last one the cap allows, then the engine hands out exactly `n`
/// prompts, the prompt of iteration `j + 1` is built from the rendered
/// harness and the running state after `j` iterations (the initial state
/// folded with each earlier reply), and the run ends with the outcome that
/// iteration `n`'s final status names.
pub proof fn law_whole_run(
    v0: EngineView,
    replies: Seq<Seq<char>>,
    codes: Seq<Option<i32>>,
    n: nat,
)
    requires
        engine_inv(v0),
        v0.completed == 0,
        v0.outcome is None,
        v0.pending is None,
        1 <= n <= v0.max,
        replies.len() >= n,
        codes.len() >= n,
        forall|i: int|
            0 <= i < n - 1 ==> #[trigger] iteration_result(replies[i], v0.verify, codes[i]).0
                == Status::Continue,
        n < v0.max ==> iteration_result(replies[n - 1], v0.verify, codes[n - 1]).0
            != Status::Continue,
    ensures
        forall|j: nat|
            j < n ==> (#[trigger] run_after(v0, replies, codes, j)).outcome is None
                && run_after(v0, replies, codes, j).pending is None && prompt_text(
                run_after(v0, replies, codes, j).harness,
                run_after(v0, replies, codes, j).state,
                run_after(v0, replies, codes, j).completed + 1,
                run_after(v0, replies, codes, j).max,
            ) == prompt_text(
                v0.harness,
                states_after(v0.state, replies, v0.cap, j),
                j + 1,
                v0.max,
            ),
        run_after(v0, replies, codes, n).completed == n,
        run_after(v0, replies, codes, n).outcome == Some(
            final_outcome(iteration_result(replies[n - 1], v0.verify, codes[n - 1]).0),
        ),
{
    assert forall|j: nat| j < n implies (#[trigger] run_after(v0, replies, codes, j)).outcome is None
        && run_after(v0, replies, codes, j).pending is None && prompt_text(
        run_after(v0, replies, codes, j).harness,
        run_after(v0, replies, codes, j).state,
        run_after(v0, replies, codes, j).completed + 1,
        run_after(v0, replies, codes, j).max,
    ) == prompt_text(v0.harness, states_after(v0.state, replies, v0.cap, j), j + 1, v0.max) by {
        lemma_run_prefix(v0, replies, codes, n, j);
    }
    lemma_run_prefix(v0, replies, codes, n, n);
}

/// The verify command runs only for an iteration whose reply claims
/// `DONE`, and only when one is set; an iteration whose command does not
/// run ignores any exit code; an iteration ends `DONE` only when its reply
/// claims it and, with a verify command set, the command exits 0.
pub proof fn law_verify_only_on_done(reply: Seq<char>, verify: Option<Seq<char>>, code: Option<
    i32,
>)
    ensures
        needs_verify(reply_reading(reply).0, verify) ==> reply_reading(reply).0 == Status::Done
            && verify is Some,
        reply_reading(reply).0 != Status::Done ==> iteration_result(reply, verify, code)
            == reply_reading(reply),
        verify is None ==> iteration_result(reply, verify, code) == reply_reading(reply),
        !needs_verify(reply_reading(reply).0, verify) ==> iteration_result(reply, verify, code)
            == iteration_result(reply, verify, None),
        iteration_result(reply, verify, code).0 == Status::Done ==> reply_reading(reply).0
            == Status::Done && (verify is Some ==> code == Some(0i32)),
{
}

/// An iteration reads its reply exactly as `parse_status` reads the whole
/// reply text: the status line found anywhere in it (the last one when
/// several match), and, with none found, `CONTINUE` with the note that no
/// status line was emitted.
pub proof fn law_reply_read_as_whole_text(reply: Seq<char>)
    ensures
        status_from(regex_captures(status_pattern(), reply)) matches Some(p) ==> reply_reading(reply)
            == p,
        status_from(regex_captures(status_pattern(), reply)) is None ==> reply_reading(reply) == (
            Status::Continue,
            NO_STATUS_NOTE@,
        ),
{
}

/// For a `DONE` claim that goes through the verify command: exit code 0
/// keeps the claim and its note; any other exit code, or an end by signal,
/// makes the iteration `CONTINUE` with a note naming the failure, so the
/// loop goes on unless this was the last iteration the cap allows.
pub proof fn law_failed_verify_is_continue(v: EngineView, reply: Seq<char>, code: Option<i32>)
    requires
        needs_verify(reply_reading(reply).0, v.verify),
    ensures
        code == Some(0i32) ==> iteration_result(reply, v.verify, code) == reply_reading(reply),
        code != Some(0i32) ==> iteration_result(reply, v.verify, code).0 == Status::Continue,
        code matches Some(c) ==> (c != 0 ==> iteration_result(reply, v.verify, code).1
            == VERIFY_EXIT_HEAD@ + signed_decimal(c as int) + VERIFY_EXIT_TAIL@),
        code is None ==> iteration_result(reply, v.verify, code).1 == VERIFY_SIGNAL_NOTE@,
        code != Some(0i32) ==> engine_step(v, reply, code).outcome == (if v.completed + 1 == v.max {
            Some(LoopOutcome::MaxReached)
        } else {
            None
        }),
{
}

/// Whenever a verify command is set, the harness carries its `Run:` and
/// `It MUST exit 0` lines, whatever the Definition of Done.
pub proof fn law_verify_lines_whenever_verify(cfg: Config)
    ensures
        cfg.verify matches Some(cmd) ==> has_infix(
            harness_of(cfg),
            HARNESS_RUN@ + cmd@ + HARNESS_MUST_EXIT@,
        ),
{
    if let Some(cmd) = cfg.verify {
        let h = harness_of(cfg);
        let block = HARNESS_RUN@ + cmd@ + HARNESS_MUST_EXIT@;
        let p = HARNESS_TITLE@ + slug(cfg.goal@) + HARNESS_GOAL@ + cfg.goal@ + HARNESS_CYCLE@;
        assert(verify_block(cfg.verify.deep_view()) == block);
        let i = p.len() as int;
        assert(h.subrange(i, i + block.len()) =~= block);
    }
}

/// The running state stands verbatim in the prompt, right after the
/// harness and the running-state header, on every iteration, the last one
/// included: prompts that differ only in the state differ in the state.
pub proof fn law_prompt_carries_state(
    harness: Seq<char>,
    s1: Seq<char>,
    s2: Seq<char>,
    iter: nat,
    max: nat,
)
    ensures
        prompt_text(harness, s1, iter, max).len() >= harness.len() + PROMPT_STATE@.len() + s1.len(),
        prompt_text(harness, s1, iter, max).subrange(0, (harness.len() + PROMPT_STATE@.len()) as int)
            == harness + PROMPT_STATE@,
        prompt_text(harness, s1, iter, max).subrange(
            (harness.len() + PROMPT_STATE@.len()) as int,
            (harness.len() + PROMPT_STATE@.len() + s1.len()) as int,
        ) == s1,
        prompt_text(harness, s1, iter, max) == prompt_text(harness, s2, iter, max) ==> s1 == s2,
{
    let a: int = (harness.len() + PROMPT_STATE@.len()) as int;
    let p1 = prompt_text(harness, s1, iter, max);
    let p2 = prompt_text(harness, s2, iter, max);
    assert(p1.subrange(0, a) =~= harness + PROMPT_STATE@);
    assert(p1.subrange(a, a + s1.len()) =~= s1);
    if p1 == p2 {
        assert(p2.subrange(a, a + s2.len()) =~= s2);
        if s1.len() < s2.len() {
            assert(p1.len() < p2.len());
        } else if s1.len() > s2.len() {
            assert(p1.len() > p2.len());
        }
        assert(s1 =~= s2);
    }
}

/// A goal that is one word of ASCII letters and digits slugs to that word
/// with each upper-case ASCII letter lowered and every other character
/// kept: no ASCII letter or digit is a separator.
pub proof fn law_slug_of_one_word(w: Seq<char>)
    requires
        w.len() > 0,
        w.len() < 1000000,
        forall|i: int|
            0 <= i < w.len() ==> ('0' <= #[trigger] w[i] <= '9' || 'A' <= w[i] <= 'Z' || 'a' <= w[i]
                <= 'z'),
    ensures
        slug(w).len() == w.len(),
        forall|i: int|
            0 <= i < w.len() ==> #[trigger] slug(w)[i] == (if 'A' <= w[i] <= 'Z' {
                ((w[i] as u32) + 32) as char
            } else {
                w[i]
            }),
{
    assert forall|i: int| 0 <= i < w.len() implies crate::text::is_ascii_alnum(#[trigger] w[i]) by {}
    lemma_scan_append_word(Seq::empty(), w);
    assert(Seq::<char>::empty() + w =~= w);
    assert(scan_words(Seq::<char>::empty()) == (Seq::<Seq<char>>::empty(), Seq::<char>::empty()));
    assert(Seq::<char>::empty() + w =~= w);
    assert(words(w) =~= seq![w]);
    assert(slug_words(w) =~= seq![lower_word(w)]);
    assert(slug(w) == lower_word(w));
}

/// The value of a string of decimal digits.
pub open spec fn digits_value(s: Seq<char>) -> nat
    decreases s.len(),
{
    if s.len() == 0 {
        0
    } else {
        digits_value(s.drop_last()) * 10 + ((s.last() as u32) - ('0' as u32)) as nat
    }
}

proof fn lemma_digit_char(d: nat)
    requires
        d < 10,
    ensures
        '0' <= digit_char(d) <= '9',
        (digit_char(d) as u32) - ('0' as u32) == d,
{
    assert(d == 0 || d == 1 || d == 2 || d == 3 || d == 4 || d == 5 || d == 6 || d == 7 || d == 8
        || d == 9);
}

/// Numbers are written in plain decimal: only digits, no leading zero, and
/// the digits read back as the number.
pub proof fn law_decimal_reads_back(n: nat)
    ensures
        decimal(n).len() > 0,
        forall|i: int| 0 <= i < decimal(n).len() ==> '0' <= #[trigger] decimal(n)[i] <= '9',
        decimal(n).len() > 1 ==> decimal(n)[0] != '0',
        digits_value(decimal(n)) == n,
        n >= 10 ==> decimal(n).len() >= 2,
    decreases n,
{
    if n < 10 {
        lemma_digit_char(n);
        assert(decimal(n) == seq![digit_char(n)]);
        assert(seq![digit_char(n)].drop_last() =~= Seq::<char>::empty());
        assert(digits_value(Seq::<char>::empty()) == 0);
        assert(digits_value(decimal(n)) == digits_value(Seq::<char>::empty()) * 10 + ((digit_char(
            n,
        ) as u32) - ('0' as u32)) as nat);
    } else {
        law_decimal_reads_back(n / 10);
        lemma_digit_char(n % 10);
        let p = decimal(n / 10);
        let d = decimal(n);
        assert(d == p.push(digit_char(n % 10)));
        assert(d.drop_last() =~= p);
        assert forall|i: int| 0 <= i < d.len() implies '0' <= #[trigger] d[i] <= '9' by {
            if i < p.len() {
                assert(d[i] == p[i]);
            }
        }
        assert(d[0] == p[0]);
        if n / 10 < 10 {
            assert(p == seq![digit_char(n / 10)]);
            lemma_digit_char(n / 10);
            assert(n / 10 != 0);
            assert(p[0] != '0');
        }
        assert(digits_value(d) == digits_value(p) * 10 + n % 10);
        assert((n / 10) * 10 + n % 10 == n) by (nonlinear_arith);
    }
}

/// Only exit code 0 means success, and only a `DONE` outcome gets it;
/// `BLOCKED` exits with 2 and a run that hit the cap with 3.
pub proof fn law_exit_code_meaning(o: LoopOutcome)
    ensures
        outcome_code(o) == 0 <==> o == LoopOutcome::Done,
        outcome_code(o) == 2 <==> o == LoopOutcome::Blocked,
        outcome_code(o) == 3 <==> o == LoopOutcome::MaxReached,
{
}

/// Trimming cuts a contiguous piece out of the text: everything cut is
/// whitespace (spaces, tabs, line breaks among it), and what is kept begins
/// and ends with a non-whitespace character; ASCII letters and digits are
/// never whitespace.
pub proof fn law_trim_cuts_only_whitespace(s: Seq<char>, c: char)
    ensures
        is_ascii_alnum(c) ==> !is_ws(c),
        c == ' ' || c == '\t' || c == '\n' || c == '\r' ==> is_ws(c),
        exists|a: int, b: int|
            0 <= a <= b <= s.len() && trim(s) == s.subrange(a, b) && (forall|i: int|
                0 <= i < a ==> is_ws(#[trigger] s[i])) && (forall|i: int|
                b <= i < s.len() ==> is_ws(#[trigger] s[i])),
        trim(s).len() > 0 ==> !is_ws(trim(s)[0]) && !is_ws(trim(s).last()),
{
    lemma_trim_parts(s);
}

proof fn lemma_trim_start_parts(s: Seq<char>)
    ensures
        trim_start_cut(s) <= s.len(),
        crate::text::trim_start(s) == s.subrange(trim_start_cut(s) as int, s.len() as int),
        forall|i: int| 0 <= i < trim_start_cut(s) ==> is_ws(#[trigger] s[i]),
        crate::text::trim_start(s).len() > 0 ==> !is_ws(crate::text::trim_start(s)[0]),
    decreases s.len(),
{
    if s.len() > 0 && is_ws(s[0]) {
        lemma_trim_start_parts(s.drop_first());
        assert forall|i: int| 0 <= i < trim_start_cut(s) implies is_ws(#[trigger] s[i]) by {
            if i > 0 {
                assert(s[i] == s.drop_first()[i - 1]);
            }
        }
        assert(s.drop_first().subrange(
            trim_start_cut(s.drop_first()) as int,
            s.len() - 1,
        ) =~= s.subrange(trim_start_cut(s) as int, s.len() as int));
    } else {
        assert(s.subrange(0, s.len() as int) =~= s);
    }
}

/// How many characters trimming cuts from the front of `s`.
pub open spec fn trim_start_cut(s: Seq<char>) -> nat
    decreases s.len(),
{
    if s.len() > 0 && is_ws(s[0]) {
        trim_start_cut(s.drop_first()) + 1
    } else {
        0
    }
}

/// How many characters trimming keeps from the front of `s` at its end.
pub open spec fn trim_end_keep(s: Seq<char>) -> nat
    decreases s.len(),
{
    if s.len() > 0 && is_ws(s.last()) {
        trim_end_keep(s.drop_last())
    } else {
        s.len()
    }
}

proof fn lemma_trim_end_parts(s: Seq<char>)
    ensures
        trim_end_keep(s) <= s.len(),
        crate::text::trim_end(s) == s.subrange(0, trim_end_keep(s) as int),
        forall|i: int| trim_end_keep(s) <= i < s.len() ==> is_ws(#[trigger] s[i]),
        crate::text::trim_end(s).len() > 0 ==> !is_ws(crate::text::trim_end(s).last()),
    decreases s.len(),
{
    if s.len() > 0 && is_ws(s.last()) {
        lemma_trim_end_parts(s.drop_last());
        assert forall|i: int| trim_end_keep(s) <= i < s.len() implies is_ws(#[trigger] s[i]) by {
            if i < s.len() - 1 {
                assert(s[i] == s.drop_last()[i]);
            }
        }
        assert(s.drop_last().subrange(0, trim_end_keep(s) as int) =~= s.subrange(
            0,
            trim_end_keep(s) as int,
        ));
    } else {
        assert(s.subrange(0, s.len() as int) =~= s);
    }
}

proof fn lemma_trim_parts(s: Seq<char>)
    ensures
        exists|a: int, b: int|
            0 <= a <= b <= s.len() && trim(s) == s.subrange(a, b) && (forall|i: int|
                0 <= i < a ==> is_ws(#[trigger] s[i])) && (forall|i: int|
                b <= i < s.len() ==> is_ws(#[trigger] s[i])),
        trim(s).len() > 0 ==> !is_ws(trim(s)[0]) && !is_ws(trim(s).last()),
{
    lemma_trim_start_parts(s);
    let a = trim_start_cut(s) as int;
    let t = crate::text::trim_start(s);
    lemma_trim_end_parts(t);
    let k = trim_end_keep(t) as int;
    let b = a + k;
    assert(trim(s) =~= s.subrange(a, b));
    assert forall|i: int| b <= i < s.len() implies is_ws(#[trigger] s[i]) by {
        assert(s[i] == t[i - a]);
    }
    if trim(s).len() > 0 {
        assert(trim(s)[0] == t[0]);
    }
}

/// The running state grows by appending: the old state stays in front
/// (followed by a blank line when it was not empty), and the trimmed reply
/// comes last.
pub proof fn law_state_appends(state: Seq<char>, iter: nat, reply: Seq<char>)
    ensures
        appended_state(state, iter, reply).len() >= state.len() + trim(reply).len(),
        appended_state(state, iter, reply).subrange(0, state.len() as int) == state,
        appended_state(state, iter, reply).subrange(
            appended_state(state, iter, reply).len() - trim(reply).len(),
            appended_state(state, iter, reply).len() as int,
        ) == trim(reply),
{
    let a = appended_state(state, iter, reply);
    assert(a.subrange(0, state.len() as int) =~= state);
    assert(a.subrange(a.len() - trim(reply).len(), a.len() as int) =~= trim(reply));
}

/// A `result` field in the JSON reply is used verbatim, whatever the rest
/// of stdout; without one, stdout itself is used, trimmed.
pub proof fn law_result_text_choice(stdout: Seq<char>, other: Seq<char>, text: Seq<char>)
    ensures
        result_text(stdout, Some(Some(text))) == result_text(other, Some(Some(text))),
        result_text(stdout, Some(Some(text))) == text,
        result_text(stdout, None) == trim(stdout),
        result_text(stdout, Some(None)) == result_text(stdout, None),
{
}

proof fn lemma_upper_is(c: char, up: char)
    requires
        'A' <= up <= 'Z',
    ensures
        ascii_upper(c) == up <==> (c == up || (c as u32) == (up as u32) + 32),
{
    if 'a' <= c <= 'z' {
        let x = (c as u32) - 32;
        assert((x as char) as u32 == x);
    }
}

/// The status word names `DONE` exactly when it spells `done` in any ASCII
/// case, `BLOCKED` exactly when it spells `blocked` in any ASCII case, and
/// `CONTINUE` otherwise.
pub proof fn law_status_word_spelling(w: Seq<char>)
    ensures
        status_of_word(w) == Status::Done <==> (w.len() == 4 && (w[0] == 'd' || w[0] == 'D') && (
        w[1] == 'o' || w[1] == 'O') && (w[2] == 'n' || w[2] == 'N') && (w[3] == 'e' || w[3]
            == 'E')),
        status_of_word(w) == Status::Blocked <==> (w.len() == 7 && (w[0] == 'b' || w[0] == 'B') && (
        w[1] == 'l' || w[1] == 'L') && (w[2] == 'o' || w[2] == 'O') && (w[3] == 'c' || w[3]
            == 'C') && (w[4] == 'k' || w[4] == 'K') && (w[5] == 'e' || w[5] == 'E') && (w[6]
            == 'd' || w[6] == 'D')),
{
    let u = w.map_values(|c: char| ascii_upper(c));
    assert(u.len() == w.len());
    assert(status_label(Status::Done).len() == 4);
    assert(status_label(Status::Blocked).len() == 7);
    if w.len() == 4 {
        lemma_upper_is(w[0], 'D');
        lemma_upper_is(w[1], 'O');
        lemma_upper_is(w[2], 'N');
        lemma_upper_is(w[3], 'E');
        assert('d' as u32 == ('D' as u32) + 32);
        assert((w[0] == 'd' || w[0] == 'D') <==> ascii_upper(w[0]) == 'D');
        assert(u[0] == ascii_upper(w[0]) && u[1] == ascii_upper(w[1]) && u[2] == ascii_upper(w[2])
            && u[3] == ascii_upper(w[3]));
        if u == seq!['D', 'O', 'N', 'E'] {
            assert(u[0] == 'D' && u[1] == 'O' && u[2] == 'N' && u[3] == 'E');
        } else {
            assert(!(u[0] == 'D' && u[1] == 'O' && u[2] == 'N' && u[3] == 'E')) by {
                if u[0] == 'D' && u[1] == 'O' && u[2] == 'N' && u[3] == 'E' {
                    assert(u =~= seq!['D', 'O', 'N', 'E']);
                }
            }
        }
    }
    if w.len() == 7 {
        lemma_upper_is(w[0], 'B');
        lemma_upper_is(w[1], 'L');
        lemma_upper_is(w[2], 'O');
        lemma_upper_is(w[3], 'C');
        lemma_upper_is(w[4], 'K');
        lemma_upper_is(w[5], 'E');
        lemma_upper_is(w[6], 'D');
        assert(u[0] == ascii_upper(w[0]) && u[1] == ascii_upper(w[1]) && u[2] == ascii_upper(w[2])
            && u[3] == ascii_upper(w[3]) && u[4] == ascii_upper(w[4]) && u[5] == ascii_upper(w[5])
            && u[6] == ascii_upper(w[6]));
        let b = seq!['B', 'L', 'O', 'C', 'K', 'E', 'D'];
        if u == b {
            assert(u[0] == 'B' && u[1] == 'L' && u[2] == 'O' && u[3] == 'C' && u[4] == 'K' && u[5]
                == 'E' && u[6] == 'D');
        } else {
            assert(!(u[0] == 'B' && u[1] == 'L' && u[2] == 'O' && u[3] == 'C' && u[4] == 'K' && u[5]
                == 'E' && u[6] == 'D')) by {
                if u[0] == 'B' && u[1] == 'L' && u[2] == 'O' && u[3] == 'C' && u[4] == 'K' && u[5]
                    == 'E' && u[6] == 'D' {
                    assert(u =~= b);
                }
            }
        }
    }
}

/// The harness opens with its title and the goal's slug, then states the
/// goal verbatim, and carries the Definition of Done verbatim.
pub proof fn law_harness_parts(cfg: Config)
    ensures
        ({
            let p = HARNESS_TITLE@ + slug(cfg.goal@) + HARNESS_GOAL@ + cfg.goal@;
            harness_of(cfg).len() >= p.len() && harness_of(cfg).subrange(0, p.len() as int) == p
        }),
        has_infix(
            harness_of(cfg),
            HARNESS_DOD@ + dod_text(cfg.dod.deep_view(), cfg.verify.deep_view()),
        ),
{
    let h = harness_of(cfg);
    let p = HARNESS_TITLE@ + slug(cfg.goal@) + HARNESS_GOAL@ + cfg.goal@;
    assert(h.subrange(0, p.len() as int) =~= p);
    let dod = dod_text(cfg.dod.deep_view(), cfg.verify.deep_view());
    let q = p + HARNESS_CYCLE@ + verify_block(cfg.verify.deep_view()) + crate::harness::HARNESS_REPORT@
        + decimal(cfg.max as nat);
    let block = HARNESS_DOD@ + dod;
    let i = q.len() as int;
    assert(h.subrange(i, i + block.len()) =~= block);
}

/// The Definition of Done: an explicit one is used as given; otherwise,
/// with a verify command, it names the command verbatim, and without one
/// it is the same text for every run.
pub proof fn law_dod_choice(
    dod: Option<Seq<char>>,
    cmd: Seq<char>,
    other: Seq<char>,
)
    ensures
        dod matches Some(d) ==> dod_text(dod, Some(cmd)) == d && dod_text(dod, None) == d,
        dod is None ==> has_infix(dod_text(dod, Some(cmd)), cmd),
        dod is None ==> dod_text(dod, Some(cmd)).len() == DOD_VERIFY_HEAD@.len() + cmd.len()
            + DOD_VERIFY_TAIL@.len(),
        dod_text(None, None) == DOD_AUTO@,
{
    if dod is None {
        let t = dod_text(dod, Some(cmd));
        let i = DOD_VERIFY_HEAD@.len() as int;
        assert(t.subrange(i, i + cmd.len()) =~= cmd);
    }
}

/// The parsed status line depends only on the last match: its status on
/// the matched word alone, its note on the matched note alone, trimmed.
pub proof fn law_status_from_last_match(
    caps: Seq<(Seq<char>, Seq<char>)>,
    word: Seq<char>,
    note: Seq<char>,
)
    ensures
        status_from(caps.push((word, note))) == Some((status_of_word(word), trim(note))),
        status_from(caps) is Some <==> caps.len() > 0,
{
}

/// The line printed for an iteration ends with its note and names its
/// status; different statuses print differently.
pub proof fn law_report_line(iter: nat, max: nat, s1: Status, s2: Status, note: Seq<char>)
    ensures
        report_text(iter, max, s1, note).len() >= note.len(),
        report_text(iter, max, s1, note).subrange(
            report_text(iter, max, s1, note).len() - note.len(),
            report_text(iter, max, s1, note).len() as int,
        ) == note,
        has_infix(report_text(iter, max, s1, note), status_label(s1)),
        s1 != s2 ==> report_text(iter, max, s1, note) != report_text(iter, max, s2, note),
{
    let r = report_text(iter, max, s1, note);
    assert(r.subrange(r.len() - note.len(), r.len() as int) =~= note);
    let pre = "[iter "@ + decimal(iter) + "/"@ + decimal(max) + "] "@;
    let i = pre.len() as int;
    assert(r.subrange(i, i + status_label(s1).len()) =~= status_label(s1));
    if s1 != s2 {
        let r2 = report_text(iter, max, s2, note);
        if r == r2 {
            if status_label(s1).len() == status_label(s2).len() {
                assert(r.subrange(i, i + status_label(s1).len()) == r2.subrange(
                    i,
                    i + status_label(s2).len(),
                ));
                assert(r2.subrange(i, i + status_label(s2).len()) =~= status_label(s2));
                assert(status_label(s1)[0] != status_label(s2)[0]);
            } else {
                assert(r.len() != r2.len());
            }
        }
    }
}

/// The agent is run as `-p <prompt> --output-format json`, plus
/// `--model <m>` exactly when a model is given.
pub proof fn law_agent_arguments(prompt: Seq<char>, model: Option<Seq<char>>)
    ensures
        claude_argv(prompt, model).len() == (if model is Some {
            6int
        } else {
            4int
        }),
        claude_argv(prompt, model)[1] == prompt,
        model matches Some(m) ==> claude_argv(prompt, model)[5] == m,
{
}

} // verus!
