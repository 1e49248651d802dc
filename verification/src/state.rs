//! One practice session: the text to reproduce, the text typed so far, the
//! counters it is scored with and the two timestamps that bound it.

use crate::character::{classify_character, verdict, Character};
use crate::clock::{now, span, time_between};
use crate::scan::{
    count_newlines, is_white, last_line, last_line_len, lines, newline_count,
    paired_whitespace_begin, paired_ws_start, run_begin, run_start, scored_len, scored_length,
    split_lines, texts, whitespace_run_end, ws_run_end,
};
use std::time::{Duration, Instant};
use vstd::prelude::*;
use vstd::string::*;

verus! {

/// One line of the page: a verdict for each position.
pub type Line = Vec<Character>;

/// The page: one line of verdicts for each line of the target.
pub type Page = Vec<Line>;

/// `String::push` of the standard library: the string afterwards is the string
/// before with `ch` at its end.
pub assume_specification[ String::push ](s: &mut String, ch: char)
    ensures
        final(s)@ == old(s)@.push(ch),
;

/// What one keystroke `c` appends when the input is `at` characters long: the
/// character itself, or, for whitespace, the whole run of whitespace that the
/// target holds at `at` (one space where it holds none there).
pub open spec fn keystroke_text(target: Seq<char>, at: int, c: char) -> Seq<char> {
    if !is_white(c) {
        seq![c]
    } else if ws_run_end(target, at) > at {
        target.subrange(at, ws_run_end(target, at))
    } else {
        seq![' ']
    }
}

/// The input after the keystroke `c`: unchanged once it is as long as the
/// target.
pub open spec fn typed(target: Seq<char>, input: Seq<char>, c: char) -> Seq<char> {
    if input.len() < target.len() {
        input + keystroke_text(target, input.len() as int, c)
    } else {
        input
    }
}

/// The part of a session that a keystroke changes: the input and the two
/// counters.
pub struct Tally {
    pub input: Seq<char>,
    pub strokes: nat,
    pub hits: nat,
}

/// The input and the counters after the keystroke `c`. A keystroke is taken
/// while the input is shorter than the target; a taken keystroke is a stroke,
/// and a hit if the input is still a prefix of the target after it.
pub open spec fn tally_step(target: Seq<char>, t: Tally, c: char) -> Tally {
    let input = typed(target, t.input, c);
    if t.input.len() < target.len() {
        Tally {
            input,
            strokes: t.strokes + 1,
            hits: if input.is_prefix_of(target) {
                t.hits + 1
            } else {
                t.hits
            },
        }
    } else {
        t
    }
}

/// How many characters stand in the run at the end of the input in which the
/// input and, at the same place, the target hold whitespace. Input beyond the
/// end of the target has no target character beside it and so ends no such
/// run.
pub open spec fn trailing_paired_ws(target: Seq<char>, input: Seq<char>) -> int {
    if input.len() <= target.len() {
        input.len() - paired_ws_start(input, target, input.len() as int)
    } else {
        0
    }
}

/// How many characters one backspace removes: the trailing run of positions at
/// which input and target both hold whitespace, or one character where that
/// run is empty; nothing from an empty input.
pub open spec fn backspace_len(target: Seq<char>, input: Seq<char>) -> int {
    let run = trailing_paired_ws(target, input);
    if input.len() == 0 {
        0
    } else if run > 1 {
        run
    } else {
        1
    }
}

/// The input after one backspace.
pub open spec fn backspaced(target: Seq<char>, input: Seq<char>) -> Seq<char> {
    input.take(input.len() - backspace_len(target, input))
}

/// How much of the input a word-backspace keeps: it drops the trailing
/// whitespace, the word before it, and one whitespace character before the
/// word.
pub open spec fn word_backspace_keep(input: Seq<char>) -> int {
    let word_end = run_start(input, input.len() as int, true);
    let word_start = run_start(input, word_end, false);
    if word_start > 0 {
        word_start - 1
    } else {
        0
    }
}

/// The input after one word-backspace.
pub open spec fn word_backspaced(input: Seq<char>) -> Seq<char> {
    input.take(word_backspace_keep(input))
}

/// The character at position `k`, if there is one.
pub open spec fn char_at(s: Seq<char>, k: int) -> Option<char> {
    if 0 <= k < s.len() {
        Some(s[k])
    } else {
        None
    }
}

/// The verdicts on one line: as many as the longer of the two lines has
/// characters, each from what the two hold at that position.
pub open spec fn line_verdicts(target: Seq<char>, input: Seq<char>) -> Seq<Character> {
    Seq::new(
        if target.len() >= input.len() {
            target.len()
        } else {
            input.len()
        },
        |k: int| verdict(char_at(target, k), char_at(input, k)),
    )
}

/// The input line that stands beside line `r` of the target: empty where the
/// input has fewer lines.
pub open spec fn input_line(input: Seq<char>, r: int) -> Seq<char> {
    if 0 <= r < lines(input).len() {
        lines(input)[r]
    } else {
        Seq::empty()
    }
}

/// The page: for each line of the target, the verdicts on it and the input
/// line beside it.
pub open spec fn page_verdicts(target: Seq<char>, input: Seq<char>) -> Seq<Seq<Character>> {
    Seq::new(
        lines(target).len(),
        |r: int| line_verdicts(lines(target)[r], input_line(input, r)),
    )
}

/// The lines of verdicts that a page holds.
pub open spec fn rows(page: Seq<Line>) -> Seq<Seq<Character>> {
    Seq::new(page.len(), |r: int| page[r]@)
}

#[derive(Debug)]
pub struct State {
    /// The text user needs to type
    pub target: String,
    /// The text user has already typed in
    pub input: String,
    /// The time at which practice session started (first keystroke)
    pub session_start: Option<Instant>,
    /// The time at which practice session finished (was complete)
    pub session_end: Option<Instant>,
    /// The number of keystrokes user did
    pub strokes: u64,
    /// The number of keystrokes after which the input was free of errors
    pub hits: u64,
    /// A flag indicating whether we want to start another practice session
    pub should_loop: bool,
}

impl State {
    /// The counters are consistent: no more hits than strokes.
    pub open spec fn wf(&self) -> bool {
        self.hits <= self.strokes
    }

    /// Whether the next keystroke is taken: the input is shorter than the
    /// target.
    pub open spec fn accepts(&self) -> bool {
        self.input@.len() < self.target@.len()
    }

    /// What the session's score rests on.
    pub open spec fn tally(&self) -> Tally {
        Tally { input: self.input@, strokes: self.strokes as nat, hits: self.hits as nat }
    }

    /// `next` is this session after the keystroke `c`: the keystroke changed
    /// the input and the counters as [`tally_step`] says, and nothing else.
    pub open spec fn keyed(&self, next: &State, c: char) -> bool {
        &&& next.target == self.target
        &&& next.tally() == tally_step(self.target@, self.tally(), c)
        &&& next.session_start == self.session_start
        &&& next.session_end == self.session_end
        &&& next.should_loop == self.should_loop
    }

    /// `next` differs from this session in its input alone.
    pub open spec fn same_but_input(&self, next: &State) -> bool {
        &&& next.target == self.target
        &&& next.strokes == self.strokes
        &&& next.hits == self.hits
        &&& next.session_start == self.session_start
        &&& next.session_end == self.session_end
        &&& next.should_loop == self.should_loop
    }

    /// A session on `text`, with nothing typed and the clock not started.
    pub fn new(text: String) -> (s: Self)
        ensures
            s.target == text,
            s.input@ == Seq::<char>::empty(),
            s.session_start is None,
            s.session_end is None,
            s.strokes == 0,
            s.hits == 0,
            !s.should_loop,
            s.wf(),
    {
        Self {
            target: text,
            input: String::new(),
            session_start: None,
            session_end: None,
            strokes: 0,
            hits: 0,
            should_loop: false,
        }
    }

    /// Takes the keystroke `c`, unless the input is already as long as the
    /// target. Whitespace stands for the whole run of whitespace that the target
    /// holds at the cursor. A taken keystroke is a stroke, and a hit if the
    /// input is then still a prefix of the target.
    pub fn apply_char(&mut self, c: char)
        requires
            old(self).wf(),
            old(self).accepts() ==> old(self).strokes < u64::MAX,
        ensures
            old(self).keyed(final(self), c),
            final(self).wf(),
    {
        let target_count = self.target.as_str().unicode_len();
        let input_count = self.input.as_str().unicode_len();

        if input_count >= target_count {
            return ;
        }
        if c.is_whitespace() {
            let end = whitespace_run_end(self.target.as_str(), input_count);
            if end == input_count {
                self.input.push(' ');
            } else {
                self.input.append(self.target.as_str().substring_char(input_count, end));
            }
        } else {
            self.input.push(c);
        }
        proof {
            assert(self.input@ =~= typed(old(self).target@, old(self).input@, c));
        }

        self.strokes = self.strokes + 1;
        if self.is_error_free() {
            self.hits = self.hits + 1;
        }
    }

    /// Undoes the last keystroke: removes the trailing run of positions at which
    /// input and target both hold whitespace, or else one character. Leaves an
    /// empty input as it is.
    pub fn apply_backspace(&mut self)
        ensures
            old(self).same_but_input(final(self)),
            final(self).input@ == backspaced(old(self).target@, old(self).input@),
            old(self).input@.len() == 0 ==> *final(self) == *old(self),
            old(self).wf() ==> final(self).wf(),
    {
        let input_count = self.input.as_str().unicode_len();
        if input_count == 0 {
            proof {
                assert(self.input@ =~= backspaced(self.target@, self.input@));
            }
            return ;
        }
        let target_count = self.target.as_str().unicode_len();
        let matching_count = if input_count <= target_count {
            input_count - paired_whitespace_begin(
                self.input.as_str(),
                self.target.as_str(),
                input_count,
            )
        } else {
            0
        };
        let to_remove = if matching_count > 1 {
            matching_count
        } else {
            1
        };
        let new_len = input_count - to_remove;
        let kept = self.input.as_str().substring_char(0, new_len).to_owned();
        self.input = kept;
    }

    /// Removes the last word: the trailing whitespace, the run of other
    /// characters before it, and one whitespace character before that run.
    pub fn apply_backspace_word(&mut self)
        ensures
            old(self).same_but_input(final(self)),
            final(self).input@ == word_backspaced(old(self).input@),
            old(self).wf() ==> final(self).wf(),
    {
        let input_count = self.input.as_str().unicode_len();
        let word_end = run_begin(self.input.as_str(), input_count, true);
        let word_start = run_begin(self.input.as_str(), word_end, false);
        let new_len = if word_start > 0 {
            word_start - 1
        } else {
            0
        };
        let kept = self.input.as_str().substring_char(0, new_len).to_owned();
        self.input = kept;
    }

    /// Whether nothing typed so far is wrong: the input is a prefix of the
    /// target.
    pub fn is_error_free(&self) -> (r: bool)
        ensures
            r == self.input@.is_prefix_of(self.target@),
    {
        let n = self.input.as_str().unicode_len();
        if n > self.target.as_str().unicode_len() {
            return false;
        }
        let mut i: usize = 0;
        while i < n
            invariant
                i <= n,
                n == self.input@.len(),
                n <= self.target@.len(),
                forall|k: int| 0 <= k < i ==> self.input@[k] == self.target@[k],
            decreases n - i,
        {
            if self.input.as_str().get_char(i) != self.target.as_str().get_char(i) {
                proof {
                    assert(self.target@.subrange(0, n as int)[i as int] == self.target@[i as int]);
                }
                return false;
            }
            i = i + 1;
        }
        proof {
            assert(self.input@ =~= self.target@.subrange(0, n as int));
        }
        true
    }

    /// Whether the input is the target, character for character.
    pub fn is_complete(&self) -> (r: bool)
        ensures
            r == (self.input@ == self.target@),
    {
        self.target == self.input
    }

    /// Whether the clock was started.
    pub fn has_started(&self) -> (r: bool)
        ensures
            r == self.session_start is Some,
    {
        self.session_start.is_some()
    }

    /// Sets the start of the session to the reading `at`, whether or not a
    /// start was set before.
    pub fn start_clock_at(&mut self, at: Instant)
        ensures
            final(self).session_start == Some(at),
            final(self).session_end == old(self).session_end,
            final(self).target == old(self).target,
            final(self).input == old(self).input,
            final(self).strokes == old(self).strokes,
            final(self).hits == old(self).hits,
            final(self).should_loop == old(self).should_loop,
            old(self).wf() ==> final(self).wf(),
    {
        self.session_start = Some(at);
    }

    /// Sets the end of the session to the reading `at`, whether or not an end
    /// was set before.
    pub fn stop_clock_at(&mut self, at: Instant)
        ensures
            final(self).session_end == Some(at),
            final(self).session_start == old(self).session_start,
            final(self).target == old(self).target,
            final(self).input == old(self).input,
            final(self).strokes == old(self).strokes,
            final(self).hits == old(self).hits,
            final(self).should_loop == old(self).should_loop,
            old(self).wf() ==> final(self).wf(),
    {
        self.session_end = Some(at);
    }

    /// Sets the start of the session to the present moment: reads the clock
    /// and stores the reading as [`State::start_clock_at`] does.
    pub fn start_clock(&mut self)
        ensures
            final(self).session_start is Some,
            final(self).session_end == old(self).session_end,
            final(self).target == old(self).target,
            final(self).input == old(self).input,
            final(self).strokes == old(self).strokes,
            final(self).hits == old(self).hits,
            final(self).should_loop == old(self).should_loop,
            old(self).wf() ==> final(self).wf(),
    {
        self.start_clock_at(now());
    }

    /// Sets the end of the session to the present moment: reads the clock and
    /// stores the reading as [`State::stop_clock_at`] does.
    pub fn stop_clock(&mut self)
        ensures
            final(self).session_end is Some,
            final(self).session_start == old(self).session_start,
            final(self).target == old(self).target,
            final(self).input == old(self).input,
            final(self).strokes == old(self).strokes,
            final(self).hits == old(self).hits,
            final(self).should_loop == old(self).should_loop,
            old(self).wf() ==> final(self).wf(),
    {
        self.stop_clock_at(now());
    }

    /// The verdicts on one line of the target and the input line beside it.
    pub fn build_line(&self, target: &str, input: &str) -> (line: Line)
        ensures
            line@ == line_verdicts(target@, input@),
    {
        let target_count = target.unicode_len();
        let input_count = input.unicode_len();
        let max_length = if target_count >= input_count {
            target_count
        } else {
            input_count
        };
        let mut line: Line = Vec::new();
        let mut k: usize = 0;
        while k < max_length
            invariant
                k <= max_length,
                target_count == target@.len(),
                input_count == input@.len(),
                max_length == line_verdicts(target@, input@).len(),
                line@ == line_verdicts(target@, input@).take(k as int),
            decreases max_length - k,
        {
            let t = if k < target_count {
                Some(target.get_char(k))
            } else {
                None
            };
            let i = if k < input_count {
                Some(input.get_char(k))
            } else {
                None
            };
            line.push(classify_character(t, i));
            proof {
                assert(line@ =~= line_verdicts(target@, input@).take(k + 1));
            }
            k = k + 1;
        }
        proof {
            assert(line@ =~= line_verdicts(target@, input@));
        }
        line
    }

    /// The page to render: one line of verdicts for each line of the target.
    /// Input beyond the end of a target line shows as misses on that line;
    /// input lines beyond the target's last line do not show.
    pub fn build_page(&self) -> (page: Page)
        ensures
            rows(page@) == page_verdicts(self.target@, self.input@),
    {
        let target_lines = split_lines(self.target.as_str());
        let mut input_lines = split_lines(self.input.as_str());
        let ghost given = input_lines@.len();

        while input_lines.len() < target_lines.len()
            invariant
                given <= input_lines@.len(),
                given == lines(self.input@).len(),
                forall|r: int| 0 <= r < given ==> input_lines@[r]@ == lines(self.input@)[r],
                forall|r: int| given <= r < input_lines@.len() ==> input_lines@[r]@ == Seq::<
                    char,
                >::empty(),
            decreases target_lines.len() - input_lines.len(),
        {
            input_lines.push(String::new());
        }

        let mut page: Page = Vec::new();
        let mut r: usize = 0;
        while r < target_lines.len()
            invariant
                r <= target_lines@.len(),
                target_lines@.len() <= input_lines@.len(),
                texts(target_lines@) == lines(self.target@),
                forall|j: int|
                    0 <= j < input_lines@.len() ==> input_lines@[j]@ == input_line(self.input@, j),
                rows(page@) == page_verdicts(self.target@, self.input@).take(r as int),
            decreases target_lines.len() - r,
        {
            let line = self.build_line(target_lines[r].as_str(), input_lines[r].as_str());
            proof {
                let ghost whole = page_verdicts(self.target@, self.input@);
                assert(texts(target_lines@)[r as int] == target_lines@[r as int]@);
                assert(line@ == whole[r as int]);
                assert(rows(page@.push(line)) =~= rows(page@).push(line@));
                assert(whole.take(r + 1) =~= whole.take(r as int).push(whole[r as int]));
            }
            page.push(line);
            r = r + 1;
        }
        proof {
            assert(rows(page@) =~= page_verdicts(self.target@, self.input@));
        }
        page
    }

    /// The row of the cursor: how many line feeds were typed.
    pub fn cursor_row(&self) -> (row: usize)
        ensures
            row == newline_count(self.input@),
    {
        count_newlines(self.input.as_str())
    }

    /// The column of the cursor: how many characters were typed after the last
    /// line feed.
    pub fn cursor_col(&self) -> (col: usize)
        ensures
            col == last_line(self.input@).len(),
    {
        last_line_len(self.input.as_str())
    }

    /// Row and column of the cursor.
    pub fn cursor(&self) -> (at: (usize, usize))
        ensures
            at.0 == newline_count(self.input@),
            at.1 == last_line(self.input@).len(),
    {
        (self.cursor_row(), self.cursor_col())
    }

    /// The time from the start of the session to its end, once both are set.
    /// Until then no time has elapsed.
    pub fn elapsed(&self) -> (r: Option<Duration>)
        ensures
            r == match (self.session_start, self.session_end) {
                (Some(start), Some(end)) => Some(time_between(start, end)),
                _ => None,
            },
            r is Some <==> self.session_start is Some && self.session_end is Some,
    {
        match (&self.session_start, &self.session_end) {
            (Some(start), Some(end)) => Some(span(start, end)),
            _ => None,
        }
    }

    /// The length of the target for scoring: a run of whitespace counts as one
    /// character.
    pub fn chars_count(&self) -> (count: usize)
        ensures
            count == scored_len(self.target@),
    {
        scored_length(self.target.as_str())
    }

    /// The accuracy as a fraction, numerator first: one where nothing was typed
    /// yet, else hits over strokes.
    pub fn accuracy_ratio(&self) -> (r: (u64, u64))
        ensures
            self.strokes == 0 ==> r == (1u64, 1u64),
            self.strokes != 0 ==> r == (self.hits, self.strokes),
            r.1 > 0,
            self.wf() ==> r.0 <= r.1,
    {
        if self.strokes == 0 {
            (1, 1)
        } else {
            (self.hits, self.strokes)
        }
    }
}

} // verus!
