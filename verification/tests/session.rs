use typing_trainer::character::{classify_character, Character};
use typing_trainer::scan::{
    count_newlines, last_line_len, paired_whitespace_begin, run_begin, scored_length, split_lines,
    whitespace_run_end,
};
use typing_trainer::state::State;

fn session(target: &str) -> State {
    State::new(target.to_string())
}

fn type_all(state: &mut State, keys: &str) {
    for c in keys.chars() {
        state.apply_char(c);
    }
}

#[test]
fn classify_equal_is_hit() {
    assert_eq!(classify_character(Some('a'), Some('a')), Character::Hit('a'));
}

#[test]
fn classify_unequal_is_miss_of_input() {
    assert_eq!(classify_character(Some('a'), Some('x')), Character::Miss('x'));
}

#[test]
fn classify_past_target_is_miss() {
    assert_eq!(classify_character(None, Some('x')), Character::Miss('x'));
}

#[test]
fn classify_untyped_is_empty_of_target() {
    assert_eq!(classify_character(Some('a'), None), Character::Empty('a'));
}

#[test]
fn new_session_is_blank() {
    let s = session("abc");
    assert_eq!(s.target, "abc");
    assert_eq!(s.input, "");
    assert_eq!(s.strokes, 0);
    assert_eq!(s.hits, 0);
    assert!(s.session_start.is_none());
    assert!(s.session_end.is_none());
    assert!(!s.should_loop);
    assert!(!s.has_started());
    assert!(!s.is_complete());
    assert!(s.is_error_free());
}

#[test]
fn whitespace_keystroke_types_whole_run() {
    let mut s = session("a   b");
    s.apply_char('a');
    assert_eq!(s.input, "a");
    s.apply_char(' ');
    assert_eq!(s.input, "a   ");
    assert_eq!(s.strokes, 2);
    assert_eq!(s.hits, 2);
}

#[test]
fn whitespace_keystroke_types_newline_run() {
    let mut s = session("a\n  b");
    type_all(&mut s, "a ");
    assert_eq!(s.input, "a\n  ");
    s.apply_char('b');
    assert!(s.is_complete());
}

#[test]
fn whitespace_keystroke_without_run_types_one_space() {
    let mut s = session("abc");
    s.apply_char('a');
    s.apply_char('\t');
    assert_eq!(s.input, "a ");
    assert_eq!(s.strokes, 2);
    assert_eq!(s.hits, 1);
}

#[test]
fn wrong_character_is_taken_and_is_no_hit() {
    let mut s = session("abc");
    type_all(&mut s, "xb");
    assert_eq!(s.input, "xb");
    assert_eq!(s.strokes, 2);
    assert_eq!(s.hits, 0);
    assert!(s.hits <= s.strokes);
    assert!(!s.is_error_free());
}

#[test]
fn keystroke_on_full_input_is_ignored() {
    let mut s = session("ab");
    type_all(&mut s, "abc");
    assert_eq!(s.input, "ab");
    assert_eq!(s.strokes, 2);
    assert_eq!(s.hits, 2);
    let mut wrong = session("ab");
    type_all(&mut wrong, "xyz");
    assert_eq!(wrong.input, "xy");
    assert_eq!(wrong.strokes, 2);
}

#[test]
fn keystroke_on_empty_target_is_ignored() {
    let mut s = session("");
    s.apply_char('a');
    assert_eq!(s.input, "");
    assert_eq!(s.strokes, 0);
    assert!(s.is_complete());
}

#[test]
fn typing_the_target_completes_it() {
    let target = "hello world\nbye";
    let mut s = session(target);
    let mut typed = 0;
    for c in target.chars() {
        assert!(!s.is_complete());
        s.apply_char(c);
        typed += 1;
        assert_eq!(s.strokes, typed);
        assert_eq!(s.hits, typed);
    }
    assert!(s.is_complete());
    assert_eq!(s.strokes, 15);
    assert_eq!(s.hits, s.strokes);
}

#[test]
fn backspace_on_empty_input_changes_nothing() {
    let mut s = session("abc");
    s.apply_backspace();
    assert_eq!(s.input, "");
    assert_eq!(s.target, "abc");
    assert_eq!(s.strokes, 0);
    assert_eq!(s.hits, 0);
    assert!(s.session_start.is_none());
    assert!(s.session_end.is_none());
    assert!(!s.should_loop);
}

#[test]
fn backspace_removes_one_character() {
    let mut s = session("abc");
    type_all(&mut s, "ab");
    s.apply_backspace();
    assert_eq!(s.input, "a");
    assert_eq!(s.strokes, 2);
    assert_eq!(s.hits, 2);
}

#[test]
fn backspace_undoes_whitespace_run() {
    let mut s = session("a   b");
    type_all(&mut s, "a ");
    assert_eq!(s.input, "a   ");
    s.apply_backspace();
    assert_eq!(s.input, "a");
}

#[test]
fn backspace_removes_one_space_where_target_has_none() {
    let mut s = session("abcd");
    type_all(&mut s, "a  ");
    assert_eq!(s.input, "a  ");
    s.apply_backspace();
    assert_eq!(s.input, "a ");
}

#[test]
fn backspace_on_input_longer_than_target() {
    let mut s = session("a ");
    s.input = "a xy".to_string();
    s.apply_backspace();
    assert_eq!(s.input, "a x");
}

#[test]
fn backspace_past_target_removes_one_character() {
    let mut s = session("a  ");
    s.input = "a  xx".to_string();
    s.apply_backspace();
    assert_eq!(s.input, "a  x");
    s.apply_backspace();
    assert_eq!(s.input, "a  ");
    s.apply_backspace();
    assert_eq!(s.input, "a");
}

#[test]
fn backspace_past_target_ignores_whitespace_there() {
    let mut s = session("a ");
    s.input = "a   ".to_string();
    s.apply_backspace();
    assert_eq!(s.input, "a  ");
}

#[test]
fn clock_stores_the_reading_given() {
    let mut s = session("abc");
    let first = std::time::Instant::now();
    let second = first + std::time::Duration::from_millis(1500);
    s.start_clock_at(second);
    assert_eq!(s.session_start, Some(second));
    s.start_clock_at(first);
    assert_eq!(s.session_start, Some(first));
    assert!(s.session_end.is_none());
    assert!(s.elapsed().is_none());
    s.stop_clock_at(first);
    s.stop_clock_at(second);
    assert_eq!(s.session_end, Some(second));
    assert_eq!(s.session_start, Some(first));
    assert_eq!(s.elapsed(), Some(std::time::Duration::from_millis(1500)));
    assert_eq!(s.input, "");
    assert_eq!(s.strokes, 0);
}

#[test]
fn clock_overwrites_an_earlier_reading() {
    let mut s = session("abc");
    let early = std::time::Instant::now() - std::time::Duration::from_secs(5);
    s.start_clock_at(early);
    s.start_clock();
    assert!(s.session_start.unwrap() > early);
    s.stop_clock_at(early);
    s.stop_clock();
    assert!(s.session_end.unwrap() > early);
}

#[test]
fn whitespace_is_the_unicode_property() {
    let white = [
        '\u{9}', '\u{a}', '\u{b}', '\u{c}', '\u{d}', ' ', '\u{85}', '\u{a0}', '\u{1680}',
        '\u{2000}', '\u{2001}', '\u{2002}', '\u{2003}', '\u{2004}', '\u{2005}', '\u{2006}',
        '\u{2007}', '\u{2008}', '\u{2009}', '\u{200a}', '\u{2028}', '\u{2029}', '\u{202f}',
        '\u{205f}', '\u{3000}',
    ];
    let mut found = 0;
    for code in 0..=0x10ffffu32 {
        if let Some(c) = char::from_u32(code) {
            let mut text = String::new();
            text.push(c);
            let run = whitespace_run_end(&text, 0);
            assert_eq!(run == 1, white.contains(&c));
            if run == 1 {
                found += 1;
            }
        }
    }
    assert_eq!(found, 25);
}

#[test]
fn backspace_handles_wide_characters() {
    let mut s = session("h\u{e9}llo");
    type_all(&mut s, "h\u{e9}");
    s.apply_backspace();
    assert_eq!(s.input, "h");
}

#[test]
fn backspace_word_removes_word_and_separator() {
    let mut s = session("");
    s.input = "hello world  ".to_string();
    s.apply_backspace_word();
    assert_eq!(s.input, "hello");
}

#[test]
fn backspace_word_takes_one_separator_only() {
    let mut s = session("");
    s.input = "hello  world".to_string();
    s.apply_backspace_word();
    assert_eq!(s.input, "hello ");
}

#[test]
fn backspace_word_on_single_word_empties_input() {
    let mut s = session("");
    s.input = "hello".to_string();
    s.apply_backspace_word();
    assert_eq!(s.input, "");
}

#[test]
fn backspace_word_on_whitespace_only_empties_input() {
    let mut s = session("");
    s.input = " \n ".to_string();
    s.apply_backspace_word();
    assert_eq!(s.input, "");
}

#[test]
fn backspace_word_on_empty_input_changes_nothing() {
    let mut s = session("abc");
    s.apply_backspace_word();
    assert_eq!(s.input, "");
    assert_eq!(s.strokes, 0);
}

#[test]
fn backspace_word_keeps_counters() {
    let mut s = session("ab cd");
    type_all(&mut s, "ab c");
    s.apply_backspace_word();
    assert_eq!(s.input, "ab");
    assert_eq!(s.strokes, 4);
    assert_eq!(s.hits, 4);
}

#[test]
fn page_marks_hits_and_misses() {
    let mut s = session("ab");
    type_all(&mut s, "ax");
    assert_eq!(s.build_page(), vec![vec![Character::Hit('a'), Character::Miss('x')]]);
}

#[test]
fn page_of_untouched_session_is_empty_verdicts() {
    let s = session("ab");
    assert_eq!(s.build_page(), vec![vec![Character::Empty('a'), Character::Empty('b')]]);
}

#[test]
fn page_shows_input_past_target_as_miss() {
    let mut s = session("a");
    s.input = "ab".to_string();
    assert_eq!(s.build_page(), vec![vec![Character::Hit('a'), Character::Miss('b')]]);
}

#[test]
fn page_has_one_line_per_target_line() {
    let mut s = session("ab\ncd\nef");
    type_all(&mut s, "ab\ncx");
    assert_eq!(
        s.build_page(),
        vec![
            vec![Character::Hit('a'), Character::Hit('b')],
            vec![Character::Hit('c'), Character::Miss('x')],
            vec![Character::Empty('e'), Character::Empty('f')],
        ]
    );
}

#[test]
fn page_drops_input_lines_past_target() {
    let mut s = session("ab");
    s.input = "ab\ncd".to_string();
    assert_eq!(s.build_page(), vec![vec![Character::Hit('a'), Character::Hit('b')]]);
}

#[test]
fn page_of_empty_target_is_empty() {
    let s = session("");
    assert_eq!(s.build_page(), Vec::<Vec<Character>>::new());
}

#[test]
fn line_pads_the_shorter_side() {
    let s = session("");
    assert_eq!(
        s.build_line("ab", "a"),
        vec![Character::Hit('a'), Character::Empty('b')]
    );
    assert_eq!(
        s.build_line("a", "xyz"),
        vec![Character::Miss('x'), Character::Miss('y'), Character::Miss('z')]
    );
    assert_eq!(s.build_line("", ""), Vec::<Character>::new());
}

#[test]
fn cursor_counts_rows_and_columns() {
    let mut s = session("");
    s.input = "ab\ncd".to_string();
    assert_eq!(s.cursor(), (1, 2));
    assert_eq!(s.cursor_row(), 1);
    assert_eq!(s.cursor_col(), 2);
}

#[test]
fn cursor_of_empty_input_is_origin() {
    let s = session("abc");
    assert_eq!(s.cursor(), (0, 0));
}

#[test]
fn cursor_after_newline_is_at_column_zero() {
    let mut s = session("");
    s.input = "ab\n".to_string();
    assert_eq!(s.cursor(), (1, 0));
    s.input = "a\n\nbcd".to_string();
    assert_eq!(s.cursor(), (2, 3));
}

#[test]
fn chars_count_collapses_whitespace_runs() {
    assert_eq!(session("a   b").chars_count(), 3);
    assert_eq!(session("ab  cd\n ef").chars_count(), 8);
    assert_eq!(session("").chars_count(), 0);
    assert_eq!(session("   ").chars_count(), 1);
    assert_eq!(session("abc").chars_count(), 3);
    assert_eq!(scored_length(" a b "), 5);
}

#[test]
fn accuracy_ratio_is_one_before_any_stroke() {
    let s = session("abc");
    assert_eq!(s.accuracy_ratio(), (1, 1));
}

#[test]
fn accuracy_ratio_is_hits_over_strokes() {
    let mut s = session("abcd");
    type_all(&mut s, "ab");
    s.apply_backspace();
    type_all(&mut s, "xcd");
    assert_eq!(s.strokes, 5);
    assert_eq!(s.hits, 2);
    assert_eq!(s.accuracy_ratio(), (2, 5));
    let (hits, strokes) = s.accuracy_ratio();
    assert!(hits <= strokes && strokes > 0);
}

#[test]
fn elapsed_needs_both_timestamps() {
    let mut s = session("some long target text");
    assert!(s.elapsed().is_none());
    s.start_clock();
    assert!(s.has_started());
    assert!(s.elapsed().is_none());
    s.stop_clock();
    assert!(s.session_end.is_some());
    assert!(s.elapsed().is_some());
}

#[test]
fn elapsed_is_zero_when_end_is_before_start() {
    let mut s = session("abc");
    s.stop_clock();
    s.start_clock();
    assert_eq!(s.elapsed(), Some(std::time::Duration::ZERO));
}

#[test]
fn clock_leaves_the_rest_alone() {
    let mut s = session("abc");
    type_all(&mut s, "ab");
    s.start_clock();
    s.stop_clock();
    assert_eq!(s.input, "ab");
    assert_eq!(s.target, "abc");
    assert_eq!(s.strokes, 2);
    assert_eq!(s.hits, 2);
}

#[test]
fn error_free_means_prefix() {
    let mut s = session("abc");
    s.input = "ab".to_string();
    assert!(s.is_error_free());
    s.input = "abc".to_string();
    assert!(s.is_error_free());
    assert!(s.is_complete());
    s.input = "abcd".to_string();
    assert!(!s.is_error_free());
    assert!(!s.is_complete());
    s.input = "ax".to_string();
    assert!(!s.is_error_free());
}

#[test]
fn lines_end_at_line_feeds() {
    assert_eq!(split_lines("a\nb"), vec!["a", "b"]);
    assert_eq!(split_lines("a\nb\n"), vec!["a", "b"]);
    assert_eq!(split_lines("a\n\nb"), vec!["a", "", "b"]);
    assert_eq!(split_lines("\n"), vec![""]);
    assert_eq!(split_lines(""), Vec::<String>::new());
}

#[test]
fn lines_drop_carriage_return_before_line_feed() {
    assert_eq!(split_lines("a\r\nb\r\n"), vec!["a", "b"]);
    assert_eq!(split_lines("a\rb\nc\r"), vec!["a\rb", "c\r"]);
    assert_eq!(split_lines("\r\n"), vec![""]);
}

#[test]
fn lines_agree_with_the_standard_library() {
    for text in ["", "a", "a\n", "\n\n", "a\r\n\r\nb", "x\r", "\r", "a\n\r", "\u{e9}\n\u{4e2d}"] {
        let expected: Vec<String> = text.lines().map(|l| l.to_string()).collect();
        assert_eq!(split_lines(text), expected);
    }
}

#[test]
fn scanning_finds_runs() {
    assert_eq!(whitespace_run_end("a   b", 1), 4);
    assert_eq!(whitespace_run_end("a   b", 0), 0);
    assert_eq!(whitespace_run_end("a  ", 1), 3);
    assert_eq!(run_begin("ab  ", 4, true), 2);
    assert_eq!(run_begin("ab  ", 2, false), 0);
    assert_eq!(run_begin("ab  ", 4, false), 4);
    assert_eq!(paired_whitespace_begin("a  b", "a  c", 3), 1);
    assert_eq!(paired_whitespace_begin("a  b", "ax c", 3), 2);
    assert_eq!(count_newlines("a\nb\n"), 2);
    assert_eq!(last_line_len("a\nbcd"), 3);
}
