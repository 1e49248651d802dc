//! What holds of the editing rules whatever is typed.

use crate::app::{App, Key};
use crate::scan::{is_white, paired_ws_start, run_start, ws_run_end};
use crate::state::{
    backspaced, keystroke_text, tally_step, typed, word_backspaced, Tally,
};
use vstd::prelude::*;

verus! {

/// No two whitespace characters of `s` stand side by side.
pub open spec fn single_spaced(s: Seq<char>) -> bool {
    forall|i: int| 0 <= i && i + 1 < s.len() ==> !(is_white(#[trigger] s[i]) && is_white(s[i + 1]))
}

/// The input and the counters of a fresh session on `target` after the
/// keystrokes `keys`, in order.
pub open spec fn tally_after(target: Seq<char>, keys: Seq<char>) -> Tally
    decreases keys.len(),
{
    if keys.len() == 0 {
        Tally { input: Seq::empty(), strokes: 0, hits: 0 }
    } else {
        tally_step(target, tally_after(target, keys.drop_last()), keys.last())
    }
}

/// Typing the first `k` characters of a target, one by one, into a fresh
/// session leaves exactly those characters as the input, with `k` strokes, all
/// of them hits; the session is complete when `k` is the target's length and
/// not before. This is stated for targets in which no two whitespace
/// characters stand side by side: elsewhere one keystroke types a whole run.
pub proof fn typing_the_target_completes(target: Seq<char>, k: int)
    requires
        single_spaced(target),
        0 <= k <= target.len(),
    ensures
        tally_after(target, target.take(k)) == (Tally {
            input: target.take(k),
            strokes: k as nat,
            hits: k as nat,
        }),
        tally_after(target, target.take(k)).input == target <==> k == target.len(),
    decreases k,
{
    if k > 0 {
        typing_the_target_completes(target, k - 1);
        let c = target[k - 1];
        let before = target.take(k - 1);
        assert(target.take(k).drop_last() =~= before);
        assert(target.take(k).last() == c);
        if is_white(c) {
            assert(ws_run_end(target, k) == k);
            assert(ws_run_end(target, k - 1) == k);
            assert(target.subrange(k - 1, k) =~= seq![c]);
        }
        assert(keystroke_text(target, k - 1, c) == seq![c]);
        assert(typed(target, before, c) =~= target.take(k));
        assert(target.take(k) =~= target.subrange(0, k));
    } else {
        assert(target.take(0) =~= Seq::<char>::empty());
    }
    if k == target.len() {
        assert(target.take(k) =~= target);
    }
}

/// A keystroke on a complete session changes nothing: neither the input nor
/// the counters.
pub proof fn complete_session_takes_no_keystroke(target: Seq<char>, t: Tally, c: char)
    requires
        t.input == target,
    ensures
        tally_step(target, t, c) == t,
{
}

/// A complete session is final: whatever key follows, the texts, the
/// counters and both timestamps stay as they are, and the session stays
/// complete. A key can then only leave the session.
pub proof fn complete_is_terminal(app: &App, next: &App, key: Key, ctrl: bool)
    requires
        app.complete(),
        app.reacted(next, key, ctrl),
    ensures
        next.complete(),
        next.state.target == app.state.target,
        next.state.input == app.state.input,
        next.state.strokes == app.state.strokes,
        next.state.hits == app.state.hits,
        next.state.session_start == app.state.session_start,
        next.state.session_end == app.state.session_end,
{
}

/// Every key keeps the hits within the strokes, lowers neither counter, and
/// never clears the end of the session once it is set.
pub proof fn key_keeps_the_score(app: &App, next: &App, key: Key, ctrl: bool)
    requires
        app.state.wf(),
        app.reacted(next, key, ctrl),
    ensures
        next.state.wf(),
        app.state.strokes <= next.state.strokes,
        app.state.hits <= next.state.hits,
        app.state.session_end is Some ==> next.state.session_end is Some,
        app.state.session_start is Some ==> next.state.session_start == app.state.session_start,
{
}

/// Every keystroke keeps the hits within the strokes, and never lowers
/// either.
pub proof fn keystroke_keeps_hits_within_strokes(target: Seq<char>, t: Tally, c: char)
    requires
        t.hits <= t.strokes,
    ensures
        tally_step(target, t, c).hits <= tally_step(target, t, c).strokes,
        t.strokes <= tally_step(target, t, c).strokes,
        t.hits <= tally_step(target, t, c).hits,
{
}

/// A keystroke never makes the input longer than the target.
pub proof fn keystroke_stays_within_target(target: Seq<char>, input: Seq<char>, c: char)
    requires
        input.len() <= target.len(),
    ensures
        typed(target, input, c).len() <= target.len(),
{
    if input.len() < target.len() {
        run_end_bounds(target, input.len() as int);
    }
}

/// The run of whitespace that begins at `from` ends between `from` and the end
/// of the text, and holds whitespace only.
pub proof fn run_end_bounds(s: Seq<char>, from: int)
    requires
        0 <= from <= s.len(),
    ensures
        from <= ws_run_end(s, from) <= s.len(),
        forall|i: int| from <= i < ws_run_end(s, from) ==> is_white(#[trigger] s[i]),
    decreases s.len() - from,
{
    if from < s.len() && is_white(s[from]) {
        run_end_bounds(s, from + 1);
    }
}

/// A run that ends before `end` begins at or before `end`, within the text.
pub proof fn run_start_bounds(s: Seq<char>, end: int, ws: bool)
    requires
        0 <= end,
    ensures
        0 <= run_start(s, end, ws) <= end,
    decreases end,
{
    if 0 < end <= s.len() && is_white(s[end - 1]) == ws {
        run_start_bounds(s, end - 1, ws);
    }
}

/// A paired run that ends before `end` begins at or before `end`, within the
/// texts.
pub proof fn paired_start_bounds(a: Seq<char>, b: Seq<char>, end: int)
    requires
        0 <= end,
    ensures
        0 <= paired_ws_start(a, b, end) <= end,
    decreases end,
{
    if 0 < end <= a.len() && end <= b.len() && is_white(a[end - 1]) && is_white(b[end - 1]) {
        paired_start_bounds(a, b, end - 1);
    }
}

/// A backspace only removes from the end of the input, and removes at least
/// one character unless the input is empty.
pub proof fn backspace_removes_from_the_end(target: Seq<char>, input: Seq<char>)
    ensures
        backspaced(target, input).is_prefix_of(input),
        input.len() > 0 ==> backspaced(target, input).len() < input.len(),
        input.len() == 0 ==> backspaced(target, input) == input,
{
    paired_start_bounds(input, target, input.len() as int);
    let after = backspaced(target, input);
    assert(after =~= input.subrange(0, after.len() as int));
    if input.len() == 0 {
        assert(after =~= input);
    }
}

/// A word-backspace only removes from the end of the input, and removes at
/// least one character unless the input is empty.
pub proof fn word_backspace_removes_from_the_end(input: Seq<char>)
    ensures
        word_backspaced(input).is_prefix_of(input),
        input.len() > 0 ==> word_backspaced(input).len() < input.len(),
        input.len() == 0 ==> word_backspaced(input) == input,
{
    let word_end = run_start(input, input.len() as int, true);
    run_start_bounds(input, input.len() as int, true);
    run_start_bounds(input, word_end, false);
    let after = word_backspaced(input);
    assert(after =~= input.subrange(0, after.len() as int));
    if input.len() == 0 {
        assert(after =~= input);
    }
}

/// One backspace undoes a whitespace keystroke that typed a run of the
/// target, however long the run: where the input is free of errors and does
/// not itself end in whitespace, typing whitespace at a whitespace run of the
/// target and then erasing once gives the input back.
pub proof fn backspace_undoes_whitespace_run(target: Seq<char>, input: Seq<char>, c: char)
    requires
        input.is_prefix_of(target),
        input.len() < target.len(),
        is_white(c),
        is_white(target[input.len() as int]),
        input.len() > 0 ==> !is_white(input.last()),
    ensures
        backspaced(target, typed(target, input, c)) == input,
{
    let at = input.len() as int;
    let end = ws_run_end(target, at);
    run_end_bounds(target, at);
    assert(end == ws_run_end(target, at + 1));
    run_end_bounds(target, at + 1);
    let after = typed(target, input, c);
    assert(after =~= input + target.subrange(at, end));
    assert(after.len() == end);
    paired_start_of_run(after, target, at, end);
    assert(after.take(at) =~= input);
}

/// Where both texts hold whitespace from `start` up to `end` and not both just
/// before `start`, the paired run that ends before `end` begins at `start`.
proof fn paired_start_of_run(a: Seq<char>, b: Seq<char>, start: int, end: int)
    requires
        0 <= start <= end,
        end <= a.len(),
        end <= b.len(),
        forall|i: int| start <= i < end ==> is_white(#[trigger] a[i]) && is_white(b[i]),
        start > 0 ==> !(is_white(a[start - 1]) && is_white(b[start - 1])),
    ensures
        paired_ws_start(a, b, end) == start,
    decreases end - start,
{
    if start < end {
        assert(is_white(a[end - 1]) && is_white(b[end - 1]));
        paired_start_of_run(a, b, start, end - 1);
    }
}

} // verus!
