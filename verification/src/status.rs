//! Parsing of the `LOOP_STATUS` contract line emitted by the model.

use vstd::prelude::*;

use crate::text::{ascii_upper, chars_of, lemma_trim_idempotent, to_ascii_upper, trim, trim_str};

verus! {

/// The three terminal/continuation states of the loop contract.
#[derive(Debug, Clone, Copy, PartialEq, Eq, Structural)]
pub enum Status {
    Done,
    Continue,
    Blocked,
}

/// The upper-case word that names a status.
pub open spec fn status_label(s: Status) -> Seq<char> {
    match s {
        Status::Done => seq!['D', 'O', 'N', 'E'],
        Status::Continue => seq!['C', 'O', 'N', 'T', 'I', 'N', 'U', 'E'],
        Status::Blocked => seq!['B', 'L', 'O', 'C', 'K', 'E', 'D'],
    }
}

impl Status {
    /// The status as it is displayed: `DONE`, `CONTINUE` or `BLOCKED`.
    pub fn label(&self) -> (res: String)
        ensures
            res@ == status_label(*self),
    {
        let mut res = String::new();
        let word: Vec<char> = match self {
            Status::Done => vec!['D', 'O', 'N', 'E'],
            Status::Continue => vec!['C', 'O', 'N', 'T', 'I', 'N', 'U', 'E'],
            Status::Blocked => vec!['B', 'L', 'O', 'C', 'K', 'E', 'D'],
        };
        crate::text::push_chars(&mut res, &word, 0, word.len());
        assert(word@.subrange(0, word@.len() as int) =~= word@);
        res
    }
}

/// A parsed `LOOP_STATUS` line: the status plus its trailing one-line note.
#[derive(Debug, Clone, PartialEq, Eq)]
pub struct LoopStatus {
    pub status: Status,
    pub note: String,
}

impl DeepView for LoopStatus {
    type V = (Status, Seq<char>);

    open spec fn deep_view(&self) -> (Status, Seq<char>) {
        (self.status, self.note@)
    }
}

/// The regular expression that recognises a status line. Group 1 is the
/// status word, group 2 the note.
pub open spec fn status_pattern() -> Seq<char> {
    STATUS_PATTERN@
}

pub const STATUS_PATTERN: &'static str = "(?i)LOOP_STATUS:\\s*(DONE|CONTINUE|BLOCKED)\\s*\\|\\s*iter[^|]*\\|\\s*(.*)";

/// Groups 1 and 2 of every successive non-overlapping match of `pattern` in
/// `text`, as `regex::Regex::captures_iter` yields them.
pub uninterp spec fn regex_captures(pattern: Seq<char>, text: Seq<char>) -> Seq<(Seq<char>, Seq<char>)>;

/// Calls `regex::Regex::new` on `pattern`, then `Regex::captures_iter` on
/// `text`, and returns groups 1 and 2 of each match in order. The contract
/// only names the result (`regex_captures`): the regex semantics are not
/// restated here, but for one fact the crate's documentation gives: `.`
/// matches any character except a new line, so group 2, `(.*)`, never holds
/// a `\n`. The status pattern compiles and both of its groups take part in
/// every match, so neither `expect` nor the group indexing panics.
#[verifier::external_body]
fn captures_all(pattern: &str, text: &str) -> (res: Vec<(String, String)>)
    requires
        pattern@ == status_pattern(),
    ensures
        res.deep_view() == regex_captures(pattern@, text@),
        forall|i: int| 0 <= i < res@.len() ==> !(#[trigger] res@[i]).1@.contains('\n'),
{
    let re = regex::Regex::new(pattern).expect("status regex is valid");
    re.captures_iter(text).map(|c| (c[1].to_string(), c[2].to_string())).collect()
}

/// The status named by a matched status word (ASCII case-insensitive).
pub open spec fn status_of_word(w: Seq<char>) -> Status {
    let u = w.map_values(|c: char| ascii_upper(c));
    if u == status_label(Status::Done) {
        Status::Done
    } else if u == status_label(Status::Blocked) {
        Status::Blocked
    } else {
        Status::Continue
    }
}

/// The status line that a sequence of matches denotes: the last one wins,
/// its note is trimmed; no match gives `None`.
pub open spec fn status_from(caps: Seq<(Seq<char>, Seq<char>)>) -> Option<(Status, Seq<char>)> {
    if caps.len() == 0 {
        None
    } else {
        Some((status_of_word(caps.last().0), trim(caps.last().1)))
    }
}

fn upper_equals(w: &Vec<char>, word: &Vec<char>) -> (res: bool)
    ensures
        res == (w@.map_values(|c: char| ascii_upper(c)) == word@),
{
    let ghost u = w@.map_values(|c: char| ascii_upper(c));
    if w.len() != word.len() {
        assert(u.len() != word@.len());
        return false;
    }
    let mut i: usize = 0;
    while i < w.len()
        invariant
            i <= w@.len() == word@.len(),
            u == w@.map_values(|c: char| ascii_upper(c)),
            forall|j: int| 0 <= j < i ==> u[j] == word@[j],
        decreases w@.len() - i,
    {
        if to_ascii_upper(w[i]) != word[i] {
            assert(u[i as int] != word@[i as int]);
            return false;
        }
        i = i + 1;
    }
    assert(u =~= word@);
    true
}

/// Decide the status that a matched status word names.
pub fn status_of(word: &str) -> (res: Status)
    ensures
        res == status_of_word(word@),
{
    let w = chars_of(word);
    if upper_equals(&w, &vec!['D', 'O', 'N', 'E']) {
        Status::Done
    } else if upper_equals(&w, &vec!['B', 'L', 'O', 'C', 'K', 'E', 'D']) {
        Status::Blocked
    } else {
        Status::Continue
    }
}

/// Build the status line from the matches of the status pattern (groups 1
/// and 2 of each match, in order): the last match wins.
pub fn status_from_captures(caps: &Vec<(String, String)>) -> (res: Option<LoopStatus>)
    ensures
        res.deep_view() == status_from(caps.deep_view()),
        res matches Some(ls) ==> ls.note@ == trim(ls.note@),
        (forall|i: int| 0 <= i < caps@.len() ==> !(#[trigger] caps@[i]).1@.contains('\n')) ==> (
        res matches Some(ls) ==> !ls.note@.contains('\n')),
{
    if caps.len() == 0 {
        return None;
    }
    let last = &caps[caps.len() - 1];
    let status = status_of(last.0.as_str());
    let note = trim_str(last.1.as_str());
    assert(caps.deep_view().last() == caps@.last().deep_view());
    proof {
        lemma_trim_idempotent(last.1@, '\n');
        if forall|i: int| 0 <= i < caps@.len() ==> !(#[trigger] caps@[i]).1@.contains('\n') {
            assert(!caps@[caps@.len() - 1].1@.contains('\n'));
        }
    }
    Some(LoopStatus { status, note })
}

/// Extract the `LOOP_STATUS` line from arbitrary result text.
///
/// Case-insensitive; when several lines match, the **last** one wins. Returns
/// `None` when no line matches (the caller treats that as `CONTINUE`).
pub fn parse_status(text: &str) -> (res: Option<LoopStatus>)
    ensures
        res.deep_view() == status_from(regex_captures(status_pattern(), text@)),
        res matches Some(ls) ==> ls.note@ == trim(ls.note@) && !ls.note@.contains('\n'),
{
    let caps = captures_all(STATUS_PATTERN, text);
    status_from_captures(&caps)
}

} // verus!
