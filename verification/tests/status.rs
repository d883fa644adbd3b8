use loopgen::status::{parse_status, status_from_captures, status_of, LoopStatus, Status};

#[test]
fn parses_done() {
    let s = parse_status("LOOP_STATUS: DONE | iter 3/8 | all green").unwrap();
    assert_eq!(s.status, Status::Done);
    assert_eq!(s.note, "all green");
}

#[test]
fn parses_continue() {
    let s = parse_status("LOOP_STATUS: CONTINUE | iter 1/8 | made progress").unwrap();
    assert_eq!(s.status, Status::Continue);
    assert_eq!(s.note, "made progress");
}

#[test]
fn parses_blocked() {
    let s = parse_status("LOOP_STATUS: BLOCKED | iter 2/8 | need a credential").unwrap();
    assert_eq!(s.status, Status::Blocked);
    assert_eq!(s.note, "need a credential");
}

#[test]
fn case_insensitive() {
    let s = parse_status("loop_status: done | ITER 4/8 | finished").unwrap();
    assert_eq!(s.status, Status::Done);
    assert_eq!(s.note, "finished");
}

#[test]
fn last_match_wins() {
    let text = "LOOP_STATUS: CONTINUE | iter 1/8 | early\n\
                some chatter\n\
                LOOP_STATUS: DONE | iter 2/8 | finally";
    let s = parse_status(text).unwrap();
    assert_eq!(s.status, Status::Done);
    assert_eq!(s.note, "finally");
}

#[test]
fn no_match_returns_none() {
    assert!(parse_status("the model said nothing useful").is_none());
    assert!(parse_status("LOOP_STATUS without the right shape").is_none());
}

#[test]
fn tolerates_extra_iter_text() {
    let s = parse_status("LOOP_STATUS: CONTINUE | iter 5 of 8 | note here").unwrap();
    assert_eq!(s.status, Status::Continue);
    assert_eq!(s.note, "note here");
}

#[test]
fn empty_note_ok() {
    let s = parse_status("LOOP_STATUS: DONE | iter 1/1 |").unwrap();
    assert_eq!(s.status, Status::Done);
    assert_eq!(s.note, "");
}

#[test]
fn status_labels() {
    assert_eq!(Status::Done.label(), "DONE");
    assert_eq!(Status::Continue.label(), "CONTINUE");
    assert_eq!(Status::Blocked.label(), "BLOCKED");
}

#[test]
fn status_word_ignores_ascii_case() {
    assert_eq!(status_of("dOnE"), Status::Done);
    assert_eq!(status_of("blocked"), Status::Blocked);
    assert_eq!(status_of("Continue"), Status::Continue);
}

#[test]
fn captures_last_one_wins_and_note_is_trimmed() {
    let caps = vec![
        ("BLOCKED".to_string(), "first".to_string()),
        ("done".to_string(), "  spaced out \t".to_string()),
    ];
    let s = status_from_captures(&caps).unwrap();
    assert_eq!(
        s,
        LoopStatus {
            status: Status::Done,
            note: "spaced out".to_string()
        }
    );
    assert!(status_from_captures(&Vec::new()).is_none());
}

#[test]
fn note_stops_at_end_of_line() {
    let s = parse_status("LOOP_STATUS: BLOCKED | iter 2/8 | need input  \nmore text").unwrap();
    assert_eq!(s.status, Status::Blocked);
    assert_eq!(s.note, "need input");
}

#[test]
fn whitespace_around_separators() {
    let s = parse_status("Loop_Status:continue|iter|   spaced").unwrap();
    assert_eq!(s.status, Status::Continue);
    assert_eq!(s.note, "spaced");
}

#[test]
fn only_ascii_case_decides_the_status_word() {
    // The pattern matches case-insensitively under Unicode rules, so the
    // Kelvin sign stands for `K`; the word itself is read in ASCII upper case
    // only, so it names no known status and counts as CONTINUE.
    let s = parse_status("LOOP_STATUS: BLOC\u{212A}ED | iter 1/1 | kelvin").unwrap();
    assert_eq!(s.status, Status::Continue);
    assert_eq!(s.note, "kelvin");
}
