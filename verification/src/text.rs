//! Where the text of a practice session comes from, and how it is put
//! together from the lines of a file.

use crate::config::Config;
use crate::scan::{lines, split_lines, texts};
use rand::seq::{IndexedRandom, WeightError};
use rand::RngExt;
use vstd::prelude::*;
use vstd::string::*;

verus! {

/// The way the text of a practice session is obtained.
#[derive(Debug)]
pub enum TextSource {
    /// Hard coded text, always the same
    Static,
    /// Generate nonsense from a list of words
    GenerateNonsense,
    /// Generate nonsense from a list of weighted words
    GenerateWeightedNonsense,
    /// Grab lines from a file
    File(String),
}

/// Why no text could be made of a list of weighted words.
#[derive(Debug, Clone, Copy, PartialEq, Eq, Structural)]
pub enum TextError {
    /// A line is not a word, one space and a weight
    MalformedLine,
    /// A weight is not a number that fits in 32 bits
    InvalidWeight,
    /// The weights allow no choice
    Sampling,
}

/// The file of words, one a line.
pub const WORDS_FILE: &'static str = "data/words.txt";

/// The file of weighted words: on each line a word, a space and a weight.
pub const WEIGHTED_WORDS_FILE: &'static str = "data/words_weighted.txt";

/// The hard coded text.
pub const TEXT: &'static str =
    "This is a bare minimum example.   There are many approaches to running an application loop, so
this is not meant to be prescriptive. It is only meant to demonstrate the basic setup and
teardown of a terminal application.";

/// How many words a generated text holds at most.
pub const WORDS: usize = 100;

/// How many words stand on one line of a generated text.
pub const WORDS_PER_LINE: usize = 10;

/// How many lines an excerpt of a file holds at most.
pub const EXCERPT_LINES: usize = 5;

/// The words joined into one text, `per_line` of them on each line: a space
/// between two words of a line, a line feed between two lines.
pub open spec fn grouped(words: Seq<Seq<char>>, per_line: int) -> Seq<char>
    decreases words.len(),
{
    if words.len() == 0 {
        Seq::empty()
    } else if words.len() == 1 {
        words[0]
    } else if (words.len() - 1) % per_line == 0 {
        grouped(words.drop_last(), per_line).push('\n') + words.last()
    } else {
        grouped(words.drop_last(), per_line).push(' ') + words.last()
    }
}

/// The smaller of two lengths.
pub open spec fn at_most(amount: int, len: int) -> int {
    if amount <= len {
        amount
    } else {
        len
    }
}

/// `picks` is a choice of `amount` places among `len`, or of all of them where
/// there are fewer: each place is chosen at most once.
pub open spec fn picks_among(picks: Seq<int>, len: int, amount: int) -> bool {
    &&& picks.len() == at_most(amount, len)
    &&& picks.no_duplicates()
    &&& forall|i: int| 0 <= i < picks.len() ==> 0 <= #[trigger] picks[i] < len
}

/// The words that stand at the chosen places, in the order of the choice.
pub open spec fn drawn(words: Seq<Seq<char>>, picks: Seq<int>) -> Seq<Seq<char>> {
    Seq::new(picks.len(), |i: int| words[picks[i]])
}

/// `chosen` is a choice of `amount` of the `words`, or of all of them where
/// there are fewer, each taken from a place of its own.
pub open spec fn sampled(chosen: Seq<Seq<char>>, words: Seq<Seq<char>>, amount: int) -> bool {
    exists|picks: Seq<int>| #[trigger]
        picks_among(picks, words.len() as int, amount) && chosen == drawn(words, picks)
}

/// `text` is an excerpt of the lines of `contents`: [`EXCERPT_LINES`] lines
/// that follow each other (all lines where there are fewer), joined by line
/// feeds.
pub open spec fn excerpt_of(text: Seq<char>, contents: Seq<char>) -> bool {
    let len = at_most(EXCERPT_LINES as int, lines(contents).len() as int);
    exists|start: int|
        0 <= start && start + len <= lines(contents).len() && text == #[trigger] grouped(
            lines(contents).subrange(start, start + len),
            1,
        )
}

/// `text` is made of [`WORDS`] lines of `contents`, each a word and each taken
/// once (of all lines where there are fewer), [`WORDS_PER_LINE`] words a line.
pub open spec fn nonsense_of(text: Seq<char>, contents: Seq<char>) -> bool {
    exists|chosen: Seq<Seq<char>>| #[trigger]
        sampled(chosen, lines(contents), WORDS as int) && text == grouped(
            chosen,
            WORDS_PER_LINE as int,
        )
}

/// The index of the first space of `s` at or after `from`; the length of `s`
/// where there is none.
pub open spec fn space_from(s: Seq<char>, from: int) -> int
    decreases s.len() - from,
{
    if 0 <= from < s.len() && s[from] != ' ' {
        space_from(s, from + 1)
    } else {
        from
    }
}

/// Whether `c` is one of the ten decimal digits.
pub open spec fn is_digit(c: char) -> bool {
    '0' <= c <= '9'
}

/// The number that a run of decimal digits writes.
pub open spec fn decimal_value(digits: Seq<char>) -> nat
    decreases digits.len(),
{
    if digits.len() == 0 {
        0
    } else if is_digit(digits.last()) {
        (decimal_value(digits.drop_last()) * 10 + (digits.last() as int - '0' as int)) as nat
    } else {
        decimal_value(digits.drop_last()) * 10
    }
}

/// `s` without the plus sign that it may begin with.
pub open spec fn unsigned(s: Seq<char>) -> Seq<char> {
    if s.len() > 0 && s[0] == '+' {
        s.skip(1)
    } else {
        s
    }
}

/// Whether `s` holds decimal digits only.
pub open spec fn all_digits(s: Seq<char>) -> bool {
    forall|i: int| 0 <= i < s.len() ==> is_digit(#[trigger] s[i])
}

/// The weight that `s` writes: decimal digits, at least one, after an optional
/// plus sign, for a number that fits in 32 bits. Anything else writes none.
pub open spec fn weight_of(s: Seq<char>) -> Option<u32> {
    let digits = unsigned(s);
    if digits.len() > 0 && all_digits(digits) && decimal_value(digits) <= u32::MAX {
        Some(decimal_value(digits) as u32)
    } else {
        None
    }
}

/// The word and the weight that a line of the weighted list gives: the line
/// holds exactly one space, before it the word and after it the weight.
pub open spec fn weighted_entry(line: Seq<char>) -> Result<(Seq<char>, u32), TextError> {
    let at = space_from(line, 0);
    if at >= line.len() || space_from(line, at + 1) < line.len() {
        Err(TextError::MalformedLine)
    } else {
        match weight_of(line.skip(at + 1)) {
            Some(weight) => Ok((line.take(at), weight)),
            None => Err(TextError::InvalidWeight),
        }
    }
}

/// The words and weights that the lines give, or the error of the first line
/// that gives none.
pub open spec fn parsed_entries(lines: Seq<Seq<char>>) -> Result<Seq<(Seq<char>, u32)>, TextError>
    decreases lines.len(),
{
    if lines.len() == 0 {
        Ok(Seq::empty())
    } else {
        match parsed_entries(lines.drop_last()) {
            Err(e) => Err(e),
            Ok(before) => match weighted_entry(lines.last()) {
                Ok(entry) => Ok(before.push(entry)),
                Err(e) => Err(e),
            },
        }
    }
}

/// What a vector of weighted words holds.
pub open spec fn entries(words: Seq<(String, u32)>) -> Seq<(Seq<char>, u32)> {
    Seq::new(words.len(), |i: int| (words[i].0@, words[i].1))
}

/// `chosen` is a choice of at most `amount` of the weighted words, each taken
/// from a place of its own and none of weight zero.
pub open spec fn weighted_sampled(
    chosen: Seq<Seq<char>>,
    words: Seq<(Seq<char>, u32)>,
    amount: int,
) -> bool {
    exists|picks: Seq<int>|
        {
            &&& picks.len() <= at_most(amount, words.len() as int)
            &&& picks.no_duplicates()
            &&& forall|i: int|
                0 <= i < picks.len() ==> 0 <= #[trigger] picks[i] < words.len() && words[picks[i]].1
                    > 0
            &&& #[trigger] chosen.len() == picks.len()
            &&& forall|i: int| 0 <= i < picks.len() ==> #[trigger] chosen[i] == words[picks[i]].0
        }
}

/// What making a text of the weighted list in `contents` may give: the error
/// of the first line that is no word and weight; else a text of at most
/// [`WORDS`] of the words, [`WORDS_PER_LINE`] a line, or the error of a choice
/// that failed.
pub open spec fn weighted_nonsense_of(r: Result<String, TextError>, contents: Seq<char>) -> bool {
    match parsed_entries(lines(contents)) {
        Err(e) => r matches Err(err) && err == e,
        Ok(words) => match r {
            Ok(text) => exists|chosen: Seq<Seq<char>>| #[trigger]
                weighted_sampled(chosen, words, WORDS as int) && text@ == grouped(
                    chosen,
                    WORDS_PER_LINE as int,
                ),
            Err(e) => e == TextError::Sampling,
        },
    }
}

/// The error of rand's weighted sampling. Nothing is known of what it holds.
#[verifier::external_type_specification]
#[verifier::external_body]
pub struct ExWeightError(WeightError);

/// `IndexedRandom::sample_weighted` of rand, on the generator of the current
/// thread, with each word's weight as its likelihood: where it succeeds, at
/// most `amount` of the words, each taken from a place of its own and none of
/// weight zero. Whether it succeeds is left open.
#[verifier::external_body]
fn sample_weighted_words(words: &Vec<(String, u32)>, amount: usize) -> (r: Result<
    Vec<String>,
    WeightError,
>)
    ensures
        r matches Ok(chosen) ==> weighted_sampled(texts(chosen@), entries(words@), amount as int),
{
    match words.sample_weighted(&mut rand::rng(), amount, |item| item.1) {
        Ok(found) => Ok(found.map(|item| item.0.clone()).collect()),
        Err(e) => Err(e),
    }
}

/// `RngExt::random_range` of rand, on the generator of the current thread and
/// over the range from zero to `max`, both included: the number drawn lies in
/// that range. Which number it is depends on chance.
#[verifier::external_body]
fn random_up_to(max: usize) -> (r: usize)
    ensures
        r <= max,
{
    rand::rng().random_range(0..=max)
}

/// `IndexedRandom::sample` of rand, on the generator of the current thread:
/// `amount` of the words, or all of them where there are fewer, each taken
/// from a place of its own, in an order that depends on chance as the choice
/// does.
#[verifier::external_body]
fn sample_words(words: &Vec<String>, amount: usize) -> (chosen: Vec<String>)
    ensures
        sampled(texts(chosen@), texts(words@), amount as int),
{
    words.sample(&mut rand::rng(), amount).cloned().collect()
}

/// The hard coded text.
pub fn static_text() -> (text: String)
    ensures
        text@ == TEXT@,
{
    String::from_str(TEXT)
}

/// Joins the words from `from` up to `to` into one text, `per_line` of them on
/// each line.
pub fn join_grouped(words: &Vec<String>, from: usize, to: usize, per_line: usize) -> (text: String)
    requires
        from <= to <= words@.len(),
        per_line > 0,
    ensures
        text@ == grouped(texts(words@).subrange(from as int, to as int), per_line as int),
{
    let ghost part = texts(words@).subrange(from as int, to as int);
    let mut text = String::new();
    let mut k: usize = from;
    while k < to
        invariant
            from <= k <= to,
            to <= words@.len(),
            per_line > 0,
            part == texts(words@).subrange(from as int, to as int),
            text@ == grouped(part.take(k - from), per_line as int),
        decreases to - k,
    {
        proof {
            assert(part.take(k - from + 1).drop_last() =~= part.take(k - from));
            assert(part.take(k - from + 1).last() == words@[k as int]@);
        }
        if k > from {
            if (k - from) % per_line == 0 {
                text.push('\n');
            } else {
                text.push(' ');
            }
        }
        text.append(words[k].as_str());
        proof {
            assert(text@ =~= grouped(part.take(k - from + 1), per_line as int));
        }
        k = k + 1;
    }
    proof {
        assert(part.take(to - from) =~= part);
    }
    text
}

/// The excerpt of `lines` that begins at line `start`: at most
/// [`EXCERPT_LINES`] lines, joined by line feeds.
pub fn excerpt(lines: &Vec<String>, start: usize) -> (text: String)
    requires
        start + at_most(EXCERPT_LINES as int, lines@.len() as int) <= lines@.len(),
    ensures
        text@ == grouped(
            texts(lines@).subrange(
                start as int,
                start + at_most(EXCERPT_LINES as int, lines@.len() as int),
            ),
            1,
        ),
{
    let max_lines = if lines.len() < EXCERPT_LINES {
        lines.len()
    } else {
        EXCERPT_LINES
    };
    join_grouped(lines, start, start + max_lines, 1)
}

/// An excerpt of the lines of `contents` that begins at a line drawn by
/// chance among those after which enough lines follow.
pub fn select_lines(contents: &str) -> (text: String)
    ensures
        excerpt_of(text@, contents@),
{
    let all = split_lines(contents);
    let max_lines = if all.len() < EXCERPT_LINES {
        all.len()
    } else {
        EXCERPT_LINES
    };
    let max_start_index = all.len() - max_lines;
    let start_index = if max_start_index > 0 {
        random_up_to(max_start_index)
    } else {
        0
    };
    excerpt(&all, start_index)
}

/// The words joined into a text of [`WORDS_PER_LINE`] words a line.
pub fn group_words(words: &Vec<String>) -> (text: String)
    ensures
        text@ == grouped(texts(words@), WORDS_PER_LINE as int),
{
    proof {
        assert(texts(words@).subrange(0, words@.len() as int) =~= texts(words@));
    }
    join_grouped(words, 0, words.len(), WORDS_PER_LINE)
}

/// A text of [`WORDS`] words, each drawn by chance from a line of its own of
/// `contents` (of as many words as `contents` has lines, where it has fewer).
pub fn generate_nonsense(contents: &str) -> (text: String)
    ensures
        nonsense_of(text@, contents@),
{
    let words = split_lines(contents);
    let selected_words = sample_words(&words, WORDS);
    group_words(&selected_words)
}

/// Finds the first space of `s` at or after `from`.
pub fn find_space(s: &str, from: usize) -> (at: usize)
    requires
        from <= s@.len(),
    ensures
        at == space_from(s@, from as int),
        from <= at <= s@.len(),
{
    let n = s.unicode_len();
    let mut at: usize = from;
    while at < n && s.get_char(at) != ' '
        invariant
            from <= at <= n,
            n == s@.len(),
            space_from(s@, from as int) == space_from(s@, at as int),
        decreases n - at,
    {
        at = at + 1;
    }
    at
}

/// The number that the first digits of a run write is no greater than the
/// number that the whole run writes.
proof fn decimal_value_grows(digits: Seq<char>, k: int)
    requires
        0 <= k <= digits.len(),
    ensures
        decimal_value(digits.take(k)) <= decimal_value(digits),
    decreases digits.len() - k,
{
    if k < digits.len() {
        assert(digits.take(k + 1).drop_last() =~= digits.take(k));
        decimal_value_grows(digits, k + 1);
    } else {
        assert(digits.take(k) =~= digits);
    }
}

/// Reads a weight: decimal digits after an optional plus sign.
pub fn parse_weight(s: &str) -> (r: Option<u32>)
    ensures
        r == weight_of(s@),
{
    let n = s.unicode_len();
    let start: usize = if n > 0 && s.get_char(0) == '+' {
        1
    } else {
        0
    };
    let ghost digits = unsigned(s@);
    proof {
        assert(s@.skip(0) =~= s@);
        assert(digits == s@.skip(start as int));
    }
    if start == n {
        return None;
    }
    let mut value: u64 = 0;
    let mut i: usize = start;
    while i < n
        invariant
            start <= i <= n,
            n == s@.len(),
            digits == s@.skip(start as int),
            digits == unsigned(s@),
            forall|k: int| 0 <= k < i - start ==> is_digit(#[trigger] digits[k]),
            value == decimal_value(digits.take(i - start)),
            value <= u32::MAX,
        decreases n - i,
    {
        let c = s.get_char(i);
        proof {
            assert(digits[i - start] == c);
            assert(digits.take(i - start + 1).drop_last() =~= digits.take(i - start));
        }
        if c < '0' || c > '9' {
            proof {
                assert(!is_digit(digits[i - start]));
            }
            return None;
        }
        let digit: u64 = (c as u32 - '0' as u32) as u64;
        value = value * 10 + digit;
        if value > 0xffff_ffff {
            proof {
                decimal_value_grows(digits, i - start + 1);
            }
            return None;
        }
        i = i + 1;
    }
    proof {
        assert(digits.take(n - start) =~= digits);
        assert(all_digits(digits));
    }
    Some(value as u32)
}

/// Reads one line of the weighted list: a word, one space, a weight.
pub fn parse_weighted_line(line: &str) -> (r: Result<(String, u32), TextError>)
    ensures
        match r {
            Ok(word) => weighted_entry(line@) == Ok::<(Seq<char>, u32), TextError>(
                (word.0@, word.1),
            ),
            Err(e) => weighted_entry(line@) == Err::<(Seq<char>, u32), TextError>(e),
        },
{
    let n = line.unicode_len();
    let at = find_space(line, 0);
    if at >= n {
        return Err(TextError::MalformedLine);
    }
    if find_space(line, at + 1) < n {
        return Err(TextError::MalformedLine);
    }
    proof {
        assert(line@.skip(at + 1) =~= line@.subrange(at + 1, n as int));
    }
    match parse_weight(line.substring_char(at + 1, n)) {
        Some(weight) => Ok((line.substring_char(0, at).to_owned(), weight)),
        None => Err(TextError::InvalidWeight),
    }
}

/// Once a line gives an error, the lines up to any later one give the same.
proof fn first_error_stays(lines: Seq<Seq<char>>, upto: int, e: TextError)
    requires
        0 <= upto <= lines.len(),
        parsed_entries(lines.take(upto)) == Err::<Seq<(Seq<char>, u32)>, TextError>(e),
    ensures
        parsed_entries(lines) == Err::<Seq<(Seq<char>, u32)>, TextError>(e),
    decreases lines.len() - upto,
{
    if upto < lines.len() {
        assert(lines.take(upto + 1).drop_last() =~= lines.take(upto));
        first_error_stays(lines, upto + 1, e);
    } else {
        assert(lines.take(upto) =~= lines);
    }
}

/// Reads the weighted list: each line of `contents` a word, one space and a
/// weight. The first line that is not gives the error.
pub fn parse_weighted_words(contents: &str) -> (r: Result<Vec<(String, u32)>, TextError>)
    ensures
        match r {
            Ok(words) => parsed_entries(lines(contents@)) == Ok::<
                Seq<(Seq<char>, u32)>,
                TextError,
            >(entries(words@)),
            Err(e) => parsed_entries(lines(contents@)) == Err::<Seq<(Seq<char>, u32)>, TextError>(
                e,
            ),
        },
{
    let all = split_lines(contents);
    let mut words: Vec<(String, u32)> = Vec::new();
    let mut k: usize = 0;
    proof {
        assert(entries(words@) =~= Seq::empty());
    }
    while k < all.len()
        invariant
            k <= all@.len(),
            texts(all@) == lines(contents@),
            parsed_entries(texts(all@).take(k as int)) == Ok::<Seq<(Seq<char>, u32)>, TextError>(
                entries(words@),
            ),
        decreases all.len() - k,
    {
        proof {
            assert(texts(all@).take(k + 1).drop_last() =~= texts(all@).take(k as int));
            assert(texts(all@).take(k + 1).last() == all@[k as int]@);
        }
        match parse_weighted_line(all[k].as_str()) {
            Ok(word) => {
                proof {
                    assert(entries(words@.push(word)) =~= entries(words@).push((word.0@, word.1)));
                }
                words.push(word);
            },
            Err(e) => {
                proof {
                    first_error_stays(texts(all@), k + 1, e);
                }
                return Err(e);
            },
        }
        k = k + 1;
    }
    proof {
        assert(texts(all@).take(k as int) =~= texts(all@));
    }
    Ok(words)
}

/// A text of at most [`WORDS`] words of the weighted list in `contents`, drawn
/// by chance, the likelier the greater a word's weight.
pub fn generate_weighted_nonsense(contents: &str) -> (r: Result<String, TextError>)
    ensures
        weighted_nonsense_of(r, contents@),
{
    match parse_weighted_words(contents) {
        Err(e) => {
            let r = Err(e);
            proof {
                assert(weighted_nonsense_of(r, contents@));
            }
            r
        },
        Ok(words) => match sample_weighted_words(&words, WORDS) {
            Ok(selected_words) => {
                let r = Ok(group_words(&selected_words));
                proof {
                    let parsed = parsed_entries(lines(contents@));
                    assert(parsed is Ok && parsed->Ok_0 == entries(words@));
                    assert(weighted_sampled(texts(selected_words@), parsed->Ok_0, WORDS as int));
                    assert(weighted_nonsense_of(r, contents@));
                }
                r
            },
            Err(_) => {
                let r = Err(TextError::Sampling);
                proof {
                    assert(weighted_nonsense_of(r, contents@));
                }
                r
            },
        },
    }
}

/// The file that the configured source reads its text from, if it reads one.
pub fn text_file(config: &Config) -> (path: Option<String>)
    ensures
        match config.text_source {
            TextSource::Static => path is None,
            TextSource::GenerateNonsense => path matches Some(p) && p@ == WORDS_FILE@,
            TextSource::GenerateWeightedNonsense => path matches Some(p) && p@
                == WEIGHTED_WORDS_FILE@,
            TextSource::File(given) => path matches Some(p) && p@ == given@,
        },
{
    match &config.text_source {
        TextSource::Static => None,
        TextSource::GenerateNonsense => Some(String::from_str(WORDS_FILE)),
        TextSource::GenerateWeightedNonsense => Some(String::from_str(WEIGHTED_WORDS_FILE)),
        TextSource::File(path) => Some(path.clone()),
    }
}

/// The text of a session, made as the configured source says of `contents`,
/// what the source's file holds.
pub fn get_text(config: &Config, contents: &str) -> (r: Result<String, TextError>)
    ensures
        match config.text_source {
            TextSource::Static => r matches Ok(text) && text@ == TEXT@,
            TextSource::GenerateNonsense => r matches Ok(text) && nonsense_of(text@, contents@),
            TextSource::GenerateWeightedNonsense => weighted_nonsense_of(r, contents@),
            TextSource::File(_) => r matches Ok(text) && excerpt_of(text@, contents@),
        },
{
    match &config.text_source {
        TextSource::Static => Ok(static_text()),
        TextSource::GenerateNonsense => Ok(generate_nonsense(contents)),
        TextSource::GenerateWeightedNonsense => generate_weighted_nonsense(contents),
        TextSource::File(_) => Ok(select_lines(contents)),
    }
}

} // verus!
