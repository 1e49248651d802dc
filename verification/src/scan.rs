//! Scanning text as a sequence of Unicode scalar values: runs of whitespace,
//! lines, and the counts the session is scored with.

use vstd::prelude::*;
use vstd::string::*;

verus! {

/// Whether `c` has Unicode's White_Space property: the tab, the line feed, the
/// vertical tab, the form feed, the carriage return, the space, the next-line
/// control, the no-break space, the Ogham space mark, the spaces of fixed
/// width from the en quad to the hair space, the line and paragraph
/// separators, the narrow no-break space, the medium mathematical space and
/// the ideographic space.
pub open spec fn is_white(c: char) -> bool {
    ||| '\u{9}' <= c <= '\u{d}'
    ||| c == ' '
    ||| c == '\u{85}'
    ||| c == '\u{a0}'
    ||| c == '\u{1680}'
    ||| '\u{2000}' <= c <= '\u{200a}'
    ||| c == '\u{2028}'
    ||| c == '\u{2029}'
    ||| c == '\u{202f}'
    ||| c == '\u{205f}'
    ||| c == '\u{3000}'
}

/// `char::is_whitespace` of the standard library: whether the character has
/// Unicode's White_Space property, which is what [`is_white`] says.
pub assume_specification[ char::is_whitespace ](c: char) -> (r: bool)
    ensures
        r == is_white(c),
;

/// The index just past the run of whitespace that begins at `from`; `from`
/// itself where no whitespace stands there.
pub open spec fn ws_run_end(s: Seq<char>, from: int) -> int
    decreases s.len() - from,
{
    if 0 <= from < s.len() && is_white(s[from]) {
        ws_run_end(s, from + 1)
    } else {
        from
    }
}

/// The index at which the run that ends before `end` begins, where the run is
/// of whitespace (`ws`) or of anything else (`!ws`); `end` itself where the
/// character before it is of the other sort.
pub open spec fn run_start(s: Seq<char>, end: int, ws: bool) -> int
    decreases end,
{
    if 0 < end <= s.len() && is_white(s[end - 1]) == ws {
        run_start(s, end - 1, ws)
    } else {
        end
    }
}

/// The index at which the run that ends before `end` begins, where the run is
/// of positions at which both `a` and `b` hold whitespace.
pub open spec fn paired_ws_start(a: Seq<char>, b: Seq<char>, end: int) -> int
    decreases end,
{
    if 0 < end <= a.len() && end <= b.len() && is_white(a[end - 1]) && is_white(
        b[end - 1],
    ) {
        paired_ws_start(a, b, end - 1)
    } else {
        end
    }
}

/// How many line feeds `s` holds.
pub open spec fn newline_count(s: Seq<char>) -> nat
    decreases s.len(),
{
    if s.len() == 0 {
        0
    } else if s.last() == '\n' {
        newline_count(s.drop_last()) + 1
    } else {
        newline_count(s.drop_last())
    }
}

/// What follows the last line feed of `s`: all of `s` where it holds none.
pub open spec fn last_line(s: Seq<char>) -> Seq<char>
    decreases s.len(),
{
    if s.len() == 0 || s.last() == '\n' {
        Seq::empty()
    } else {
        last_line(s.drop_last()).push(s.last())
    }
}

/// A line without the carriage return that stood before its line feed.
pub open spec fn strip_cr(l: Seq<char>) -> Seq<char> {
    if l.len() > 0 && l.last() == '\r' {
        l.drop_last()
    } else {
        l
    }
}

/// The lines of `s` that a line feed ends, in order, each without its line
/// ending.
pub open spec fn closed_lines(s: Seq<char>) -> Seq<Seq<char>>
    decreases s.len(),
{
    if s.len() == 0 {
        Seq::empty()
    } else if s.last() == '\n' {
        closed_lines(s.drop_last()).push(strip_cr(last_line(s.drop_last())))
    } else {
        closed_lines(s.drop_last())
    }
}

/// The lines of `s`: a line ends at a line feed, or at a carriage return and a
/// line feed; the text after the last line feed is a line unless it is empty.
pub open spec fn lines(s: Seq<char>) -> Seq<Seq<char>> {
    if last_line(s).len() > 0 {
        closed_lines(s).push(last_line(s))
    } else {
        closed_lines(s)
    }
}

/// The length of `s` for scoring: each character that is not whitespace counts,
/// and each maximal run of whitespace counts once.
pub open spec fn scored_len(s: Seq<char>) -> nat
    decreases s.len(),
{
    if s.len() == 0 {
        0
    } else if is_white(s.last()) && s.len() >= 2 && is_white(s[s.len() - 2]) {
        scored_len(s.drop_last())
    } else {
        scored_len(s.drop_last()) + 1
    }
}

/// The texts that a vector of strings holds.
pub open spec fn texts(v: Seq<String>) -> Seq<Seq<char>> {
    Seq::new(v.len(), |i: int| v[i]@)
}

/// Finds where the run of whitespace that begins at `from` ends.
pub fn whitespace_run_end(s: &str, from: usize) -> (end: usize)
    requires
        from <= s@.len(),
    ensures
        end == ws_run_end(s@, from as int),
        from <= end <= s@.len(),
{
    let n = s.unicode_len();
    let mut end: usize = from;
    while end < n && s.get_char(end).is_whitespace()
        invariant
            from <= end <= n,
            n == s@.len(),
            ws_run_end(s@, from as int) == ws_run_end(s@, end as int),
        decreases n - end,
    {
        end = end + 1;
    }
    end
}

/// Finds where the run of whitespace (`ws`), or of anything else (`!ws`), that
/// ends before `end` begins.
pub fn run_begin(s: &str, end: usize, ws: bool) -> (start: usize)
    requires
        end <= s@.len(),
    ensures
        start == run_start(s@, end as int, ws),
        start <= end,
{
    let mut start: usize = end;
    while start > 0 && s.get_char(start - 1).is_whitespace() == ws
        invariant
            start <= end <= s@.len(),
            run_start(s@, end as int, ws) == run_start(s@, start as int, ws),
        decreases start,
    {
        start = start - 1;
    }
    start
}

/// Finds where the run of positions at which both texts hold whitespace, and
/// that ends before `end`, begins.
pub fn paired_whitespace_begin(a: &str, b: &str, end: usize) -> (start: usize)
    requires
        end <= a@.len(),
        end <= b@.len(),
    ensures
        start == paired_ws_start(a@, b@, end as int),
        start <= end,
{
    let mut start: usize = end;
    while start > 0 && a.get_char(start - 1).is_whitespace() && b.get_char(
        start - 1,
    ).is_whitespace()
        invariant
            start <= end,
            end <= a@.len(),
            end <= b@.len(),
            paired_ws_start(a@, b@, end as int) == paired_ws_start(a@, b@, start as int),
        decreases start,
    {
        start = start - 1;
    }
    start
}

/// Counts the line feeds of `s`.
pub fn count_newlines(s: &str) -> (count: usize)
    ensures
        count == newline_count(s@),
{
    let n = s.unicode_len();
    let mut count: usize = 0;
    let mut i: usize = 0;
    while i < n
        invariant
            i <= n,
            n == s@.len(),
            count <= i,
            count == newline_count(s@.take(i as int)),
        decreases n - i,
    {
        let c = s.get_char(i);
        proof {
            assert(s@.take(i + 1).drop_last() == s@.take(i as int));
        }
        if c == '\n' {
            count = count + 1;
        }
        i = i + 1;
    }
    proof {
        assert(s@.take(n as int) == s@);
    }
    count
}

/// Measures what follows the last line feed of `s`.
pub fn last_line_len(s: &str) -> (len: usize)
    ensures
        len == last_line(s@).len(),
{
    let n = s.unicode_len();
    let mut len: usize = 0;
    let mut i: usize = 0;
    while i < n
        invariant
            i <= n,
            n == s@.len(),
            len <= i,
            len == last_line(s@.take(i as int)).len(),
        decreases n - i,
    {
        let c = s.get_char(i);
        proof {
            assert(s@.take(i + 1).drop_last() == s@.take(i as int));
        }
        if c == '\n' {
            len = 0;
        } else {
            len = len + 1;
        }
        i = i + 1;
    }
    proof {
        assert(s@.take(n as int) == s@);
    }
    len
}

/// Computes the length of `s` for scoring.
pub fn scored_length(s: &str) -> (count: usize)
    ensures
        count == scored_len(s@),
{
    let n = s.unicode_len();
    let mut count: usize = 0;
    let mut in_whitespace_group = false;
    let mut i: usize = 0;
    while i < n
        invariant
            i <= n,
            n == s@.len(),
            count <= i,
            count == scored_len(s@.take(i as int)),
            in_whitespace_group == (i > 0 && is_white(s@[i - 1])),
        decreases n - i,
    {
        let c = s.get_char(i);
        proof {
            assert(s@.take(i + 1).drop_last() == s@.take(i as int));
        }
        if c.is_whitespace() {
            if !in_whitespace_group {
                count = count + 1;
                in_whitespace_group = true;
            }
        } else {
            count = count + 1;
            in_whitespace_group = false;
        }
        i = i + 1;
    }
    proof {
        assert(s@.take(n as int) == s@);
    }
    count
}

/// Splits `s` into its lines.
pub fn split_lines(s: &str) -> (out: Vec<String>)
    ensures
        texts(out@) == lines(s@),
{
    let n = s.unicode_len();
    let mut out: Vec<String> = Vec::new();
    let mut start: usize = 0;
    let mut i: usize = 0;
    proof {
        assert(texts(out@) =~= closed_lines(s@.take(0)));
        assert(s@.subrange(0, 0) =~= last_line(s@.take(0)));
    }
    while i < n
        invariant
            start <= i <= n,
            n == s@.len(),
            texts(out@) == closed_lines(s@.take(i as int)),
            s@.subrange(start as int, i as int) == last_line(s@.take(i as int)),
        decreases n - i,
    {
        let c = s.get_char(i);
        proof {
            assert(s@.take(i + 1).drop_last() == s@.take(i as int));
        }
        if c == '\n' {
            let mut end: usize = i;
            if start < end && s.get_char(end - 1) == '\r' {
                end = end - 1;
            }
            let line = s.substring_char(start, end).to_owned();
            proof {
                assert(line@ =~= strip_cr(s@.subrange(start as int, i as int)));
                assert(texts(out@.push(line)) =~= texts(out@).push(line@));
            }
            out.push(line);
            start = i + 1;
            proof {
                assert(s@.subrange(start as int, i + 1) =~= Seq::<char>::empty());
            }
        } else {
            proof {
                assert(s@.subrange(start as int, i + 1) =~= s@.subrange(
                    start as int,
                    i as int,
                ).push(c));
            }
        }
        i = i + 1;
    }
    proof {
        assert(s@.take(n as int) == s@);
    }
    if start < n {
        let line = s.substring_char(start, n).to_owned();
        proof {
            assert(texts(out@.push(line)) =~= texts(out@).push(line@));
        }
        out.push(line);
    }
    out
}

} // verus!
