//! G-code reading: comments, words, and what a source program says about its
//! tool path, rapid moves, parking position and cutting values.
use vstd::prelude::*;

use crate::number::{
    decimal_value, in_range, lemma_decimal_value_in_range, parse_decimal, MAX_MAGNITUDE,
};
use crate::domain::frame::{bounds_of, law_bounds_of_points, BoardBounds};
use crate::domain::settings::Settings;
use crate::text::{
    chars_of, is_ascii_alphabetic, is_ascii_letter, line_ranges, lines, string_of,
    to_ascii_uppercase, trim, trim_range, upper,
};

verus! {

broadcast use vstd::string::group_string_axioms;

/// The line from position `i` on, with `;` comments and parenthesized
/// comments removed; `in_comment` tells whether `i` lies inside parentheses.
pub open spec fn strip_from(s: Seq<char>, i: int, in_comment: bool) -> Seq<char>
    decreases s.len() - i,
{
    if i < 0 || i >= s.len() {
        Seq::empty()
    } else {
        let c = s[i];
        if c == ';' && !in_comment {
            Seq::empty()
        } else if c == '(' {
            strip_from(s, i + 1, true)
        } else if c == ')' {
            strip_from(s, i + 1, false)
        } else if !in_comment {
            seq![c] + strip_from(s, i + 1, false)
        } else {
            strip_from(s, i + 1, true)
        }
    }
}

/// A line without its comments: a `;` outside parentheses ends the line, and
/// text from `(` to the next `)` is dropped.
pub open spec fn stripped(s: Seq<char>) -> Seq<char> {
    strip_from(s, 0, false)
}

/// Removes the comments of `s[start..end]`.
pub fn strip_comment_chars(s: &Vec<char>, start: usize, end: usize) -> (r: Vec<char>)
    requires
        start <= end <= s@.len(),
    ensures
        r@ == stripped(s@.subrange(start as int, end as int)),
{
    let ghost t = s@.subrange(start as int, end as int);
    let mut out: Vec<char> = Vec::new();
    let mut in_comment = false;
    let mut i = start;
    while i < end
        invariant
            start <= i <= end <= s@.len(),
            t == s@.subrange(start as int, end as int),
            stripped(t) == out@ + strip_from(t, i - start, in_comment),
        decreases end - i,
    {
        let c = s[i];
        assert(t[i - start] == c);
        if c == ';' && !in_comment {
            assert(out@ + strip_from(t, i - start, in_comment) =~= out@);
            return out;
        } else if c == '(' {
            in_comment = true;
        } else if c == ')' {
            in_comment = false;
        } else if !in_comment {
            out.push(c);
            assert(out@.drop_last() + (seq![c] + strip_from(t, i + 1 - start, false)) =~= out@
                + strip_from(t, i + 1 - start, false));
        }
        i = i + 1;
    }
    assert(out@ + strip_from(t, i - start, in_comment) =~= out@);
    out
}

/// Removes semicolon and parenthesized comments while preserving command words.
pub fn strip_comments(line: &str) -> (cleaned: String)
    ensures
        cleaned@ == stripped(line@),
{
    let chars = chars_of(line);
    assert(chars@.subrange(0, chars@.len() as int) =~= chars@);
    let kept = strip_comment_chars(&chars, 0, chars.len());
    string_of(&kept)
}

/// Index of the first ASCII letter at or after `i`, or the length of the text.
pub open spec fn next_letter(s: Seq<char>, i: int) -> int
    decreases s.len() - i,
{
    if i >= s.len() {
        s.len() as int
    } else if is_ascii_letter(s[i]) {
        i
    } else {
        next_letter(s, i + 1)
    }
}

/// The next letter lies between `i` and the end, with no letter before it.
pub proof fn lemma_next_letter_bounds(s: Seq<char>, i: int)
    requires
        0 <= i <= s.len(),
    ensures
        i <= next_letter(s, i) <= s.len(),
        next_letter(s, i) < s.len() ==> is_ascii_letter(s[next_letter(s, i)]),
        forall|k: int| i <= k < next_letter(s, i) ==> !is_ascii_letter(s[k]),
    decreases s.len() - i,
{
    if i < s.len() && !is_ascii_letter(s[i]) {
        lemma_next_letter_bounds(s, i + 1);
    }
}

/// The G-code words of a line from position `i` on: each ASCII letter
/// (upper-cased) with the decimal value written between it and the next
/// letter; a letter whose text is not a number gives no word.
pub open spec fn words_from(s: Seq<char>, i: int) -> Seq<(char, int)>
    decreases s.len() - i,
{
    if i < 0 || i >= s.len() {
        Seq::empty()
    } else if !is_ascii_letter(s[i]) {
        words_from(s, i + 1)
    } else {
        let e = next_letter(s, i + 1);
        proof {
            lemma_next_letter_bounds(s, i + 1);
        }
        let rest = words_from(s, e);
        match decimal_value(trim(s.subrange(i + 1, e))) {
            Some(v) => seq![(upper(s[i]), v)] + rest,
            None => rest,
        }
    }
}

/// The G-code words of a line, contiguous (`G1X10Y-2`) or separated by spaces.
pub open spec fn words(s: Seq<char>) -> Seq<(char, int)> {
    words_from(s, 0)
}

/// The words of a source line once its comments are removed.
pub open spec fn line_words(line: Seq<char>) -> Seq<(char, int)> {
    words(stripped(line))
}

/// A word's value as an integer of the specification.
pub open spec fn word_view(w: (char, i64)) -> (char, int) {
    (w.0, w.1 as int)
}

/// Parses contiguous or whitespace-separated G-code words, such as `G1X10Y-2`.
pub fn gcode_words(line: &Vec<char>) -> (r: Vec<(char, i64)>)
    ensures
        r@.map_values(|w: (char, i64)| word_view(w)) == words(line@),
        forall|k: int| 0 <= k < r@.len() ==> in_range(#[trigger] r@[k].1 as int),
{
    let mut out: Vec<(char, i64)> = Vec::new();
    let mut index: usize = 0;
    while index < line.len()
        invariant
            index <= line@.len(),
            words(line@) == out@.map_values(|w: (char, i64)| word_view(w)) + words_from(
                line@,
                index as int,
            ),
            forall|k: int| 0 <= k < out@.len() ==> in_range(#[trigger] out@[k].1 as int),
        decreases line@.len() - index,
    {
        if !is_ascii_alphabetic(line[index]) {
            index = index + 1;
            continue;
        }
        let letter = to_ascii_uppercase(line[index]);
        let start = index + 1;
        index = start;
        while index < line.len() && !is_ascii_alphabetic(line[index])
            invariant
                start <= index <= line@.len(),
                next_letter(line@, start as int) == next_letter(line@, index as int),
            decreases line@.len() - index,
        {
            index = index + 1;
        }
        proof {
            lemma_next_letter_bounds(line@, index as int);
        }
        let (a, b) = trim_range(line, start, index);
        let value = parse_decimal(line, a, b);
        let ghost before = out@;
        let ghost f = |w: (char, i64)| word_view(w);
        match value {
            Some(v) => {
                out.push((letter, v));
                proof {
                    assert(out@.map_values(f) =~= before.map_values(f).push((letter, v as int)));
                    assert(before.map_values(f) + (seq![(letter, v as int)] + words_from(
                        line@,
                        index as int,
                    )) =~= out@.map_values(f) + words_from(line@, index as int));
                }
            },
            None => {},
        }
    }
    proof {
        let f = |w: (char, i64)| word_view(w);
        assert(words(line@) =~= out@.map_values(f));
    }
    out
}

/// G1, a cutting move, in millionths.
pub const CUTTING_MOVE: i64 = 1_000_000;

/// G0, a rapid move, in millionths.
pub const RAPID_MOVE: i64 = 0;

/// What a reader of moves knows after some words: the last X and Y read,
/// and whether the modal motion is the one it follows.
pub struct Motion {
    pub x: Option<int>,
    pub y: Option<int>,
    pub active: bool,
}

/// One word read by a reader that follows the motion `G<code>`.
pub open spec fn motion_word(m: Motion, w: (char, int), code: int) -> Motion {
    if w.0 == 'G' {
        Motion { active: w.1 == code, ..m }
    } else if w.0 == 'X' {
        Motion { x: Some(w.1), ..m }
    } else if w.0 == 'Y' {
        Motion { y: Some(w.1), ..m }
    } else {
        m
    }
}

/// The words of a line read in order.
pub open spec fn motion_words(m: Motion, ws: Seq<(char, int)>, code: int) -> Motion
    decreases ws.len(),
{
    if ws.len() == 0 {
        m
    } else {
        motion_word(motion_words(m, ws.drop_last(), code), ws.last(), code)
    }
}

/// The line names an X or Y coordinate.
pub open spec fn has_xy(ws: Seq<(char, int)>) -> bool
    decreases ws.len(),
{
    ws.len() > 0 && (has_xy(ws.drop_last()) || ws.last().0 == 'X' || ws.last().0 == 'Y')
}

/// The reader's state after some lines, and the positions it recorded: the
/// position after every line that names X or Y while `G<code>` is the modal
/// motion and both coordinates are known.
pub open spec fn motion_lines(ls: Seq<Seq<char>>, code: int) -> (Motion, Seq<(int, int)>)
    decreases ls.len(),
{
    if ls.len() == 0 {
        (Motion { x: None, y: None, active: false }, Seq::empty())
    } else {
        let prev = motion_lines(ls.drop_last(), code);
        let ws = line_words(ls.last());
        let m = motion_words(prev.0, ws, code);
        let pts = if m.active && has_xy(ws) && m.x is Some && m.y is Some {
            prev.1.push((m.x->0, m.y->0))
        } else {
            prev.1
        };
        (m, pts)
    }
}

/// The positions of a program's `G<code>` moves.
pub open spec fn motion_points(content: Seq<char>, code: int) -> Seq<(int, int)> {
    motion_lines(lines(content), code).1
}

/// An optional fixed-point value as an optional integer of the specification.
pub open spec fn opt_view(o: Option<i64>) -> Option<int> {
    match o {
        Some(v) => Some(v as int),
        None => None,
    }
}

/// A point as a pair of integers of the specification.
pub open spec fn point_view(p: (i64, i64)) -> (int, int) {
    (p.0 as int, p.1 as int)
}

/// The words of the line `chars[a..b]` once its comments are removed.
fn words_of_line(chars: &Vec<char>, a: usize, b: usize) -> (r: Vec<(char, i64)>)
    requires
        a <= b <= chars@.len(),
    ensures
        r@.map_values(|w: (char, i64)| word_view(w)) == line_words(
            chars@.subrange(a as int, b as int),
        ),
        forall|k: int| 0 <= k < r@.len() ==> in_range(#[trigger] r@[k].1 as int),
{
    let cleaned = strip_comment_chars(chars, a, b);
    gcode_words(&cleaned)
}

/// The positions of the `G<code>` moves of a program, in order.
fn motion_path(content: &str, code: i64) -> (r: Vec<(i64, i64)>)
    ensures
        r@.map_values(|p: (i64, i64)| point_view(p)) == motion_points(content@, code as int),
        forall|k: int|
            0 <= k < r@.len() ==> in_range((#[trigger] r@[k]).0 as int) && in_range(r@[k].1 as int),
{
    let chars = chars_of(content);
    let ranges = line_ranges(&chars);
    let ghost ls = lines(chars@);
    proof {
        assert forall|j: int| 0 <= j < ranges@.len() implies (#[trigger] ranges@[j]).0
            <= ranges@[j].1 <= chars@.len() && chars@.subrange(
            ranges@[j].0 as int,
            ranges@[j].1 as int,
        ) == ls[j] by {
            assert(lines(chars@)[j] == ls[j]);
        }
    }
    let mut points: Vec<(i64, i64)> = Vec::new();
    let mut x: Option<i64> = None;
    let mut y: Option<i64> = None;
    let mut active = false;
    let mut k: usize = 0;
    while k < ranges.len()
        invariant
            k <= ranges@.len() == ls.len(),
            ls == lines(chars@),
            chars@ == content@,
            forall|j: int|
                0 <= j < ranges@.len() ==> (#[trigger] ranges@[j]).0 <= ranges@[j].1
                    <= chars@.len() && chars@.subrange(ranges@[j].0 as int, ranges@[j].1 as int)
                    == ls[j],
            motion_lines(ls.take(k as int), code as int) == (
                Motion { x: opt_view(x), y: opt_view(y), active },
                points@.map_values(|p: (i64, i64)| point_view(p)),
            ),
            x matches Some(v) ==> in_range(v as int),
            y matches Some(v) ==> in_range(v as int),
            forall|j: int|
                0 <= j < points@.len() ==> in_range((#[trigger] points@[j]).0 as int) && in_range(
                    points@[j].1 as int,
                ),
        decreases ranges@.len() - k,
    {
        let (a, b) = ranges[k];
        let ws = words_of_line(&chars, a, b);
        let ghost wv = ws@.map_values(|w: (char, i64)| word_view(w));
        let ghost before = Motion { x: opt_view(x), y: opt_view(y), active };
        let mut changed = false;
        let mut j: usize = 0;
        while j < ws.len()
            invariant
                j <= ws@.len(),
                wv == ws@.map_values(|w: (char, i64)| word_view(w)),
                motion_words(before, wv.take(j as int), code as int) == (Motion {
                    x: opt_view(x),
                    y: opt_view(y),
                    active,
                }),
                changed == has_xy(wv.take(j as int)),
                forall|i: int| 0 <= i < ws@.len() ==> in_range(#[trigger] ws@[i].1 as int),
                x matches Some(v) ==> in_range(v as int),
                y matches Some(v) ==> in_range(v as int),
            decreases ws@.len() - j,
        {
            let (letter, value) = ws[j];
            proof {
                assert(wv.take(j + 1).drop_last() =~= wv.take(j as int));
                assert(wv.take(j + 1).last() == wv[j as int]);
                assert(wv[j as int] == word_view(ws@[j as int]));
            }
            if letter == 'G' {
                active = value == code;
            } else if letter == 'X' {
                x = Some(value);
                changed = true;
            } else if letter == 'Y' {
                y = Some(value);
                changed = true;
            }
            j = j + 1;
        }
        proof {
            assert(wv.take(ws@.len() as int) =~= wv);
            assert(ls.take(k + 1).drop_last() =~= ls.take(k as int));
            assert(ls.take(k + 1).last() == ls[k as int]);
        }
        let ghost old_points = points@;
        if active && changed {
            if let (Some(px), Some(py)) = (x, y) {
                points.push((px, py));
                proof {
                    let f = |p: (i64, i64)| point_view(p);
                    assert(points@.map_values(f) =~= old_points.map_values(f).push(
                        (px as int, py as int),
                    ));
                }
            }
        }
        k = k + 1;
    }
    proof {
        assert(ls.take(ls.len() as int) =~= ls);
    }
    points
}

/// Extract every cutting position from G1/modal G1 moves for the preview.
pub fn parse_gcode_toolpath(content: &str) -> (r: Vec<(i64, i64)>)
    ensures
        r@.map_values(|p: (i64, i64)| point_view(p)) == motion_points(
            content@,
            CUTTING_MOVE as int,
        ),
        forall|k: int|
            0 <= k < r@.len() ==> in_range((#[trigger] r@[k]).0 as int) && in_range(r@[k].1 as int),
{
    motion_path(content, CUTTING_MOVE)
}

/// Extract rapid G0 positioning moves, including the source parking move.
pub fn parse_gcode_rapid_path(content: &str) -> (r: Vec<(i64, i64)>)
    ensures
        r@.map_values(|p: (i64, i64)| point_view(p)) == motion_points(
            content@,
            RAPID_MOVE as int,
        ),
        forall|k: int|
            0 <= k < r@.len() ==> in_range((#[trigger] r@[k]).0 as int) && in_range(r@[k].1 as int),
{
    motion_path(content, RAPID_MOVE)
}

/// Extract board bounds from G-code content: the bounds of the cutting
/// positions, empty when there are none.
pub fn parse_gcode_bounds(content: &str) -> (bounds: BoardBounds)
    ensures
        bounds == bounds_of(motion_points(content@, CUTTING_MOVE as int)),
        bounds.valid() ==> bounds.in_range(),
{
    let points = parse_gcode_toolpath(content);
    let ghost pv = points@.map_values(|p: (i64, i64)| point_view(p));
    let mut bounds = BoardBounds::new();
    let mut k: usize = 0;
    while k < points.len()
        invariant
            k <= points@.len(),
            pv == points@.map_values(|p: (i64, i64)| point_view(p)),
            bounds == bounds_of(pv.take(k as int)),
            forall|j: int|
                0 <= j < points@.len() ==> in_range((#[trigger] points@[j]).0 as int) && in_range(
                    points@[j].1 as int,
                ),
            k == 0 ==> bounds == BoardBounds::empty(),
            k > 0 ==> bounds.in_range(),
        decreases points@.len() - k,
    {
        let (x, y) = points[k];
        proof {
            assert(pv.take(k + 1).drop_last() =~= pv.take(k as int));
            assert(pv.take(k + 1).last() == pv[k as int]);
        }
        bounds.update(x, y);
        k = k + 1;
    }
    proof {
        assert(pv.take(pv.len() as int) =~= pv);
    }
    bounds
}

/// The characters of a program and the ranges of its lines.
fn program_lines(content: &str) -> (r: (Vec<char>, Vec<(usize, usize)>))
    ensures
        r.0@ == content@,
        r.1@.len() == lines(content@).len(),
        forall|j: int|
            0 <= j < r.1@.len() ==> (#[trigger] r.1@[j]).0 <= r.1@[j].1 <= r.0@.len()
                && r.0@.subrange(r.1@[j].0 as int, r.1@[j].1 as int) == lines(content@)[j],
{
    let chars = chars_of(content);
    let ranges = line_ranges(&chars);
    proof {
        assert forall|j: int| 0 <= j < ranges@.len() implies (#[trigger] ranges@[j]).0
            <= ranges@[j].1 <= chars@.len() && chars@.subrange(
            ranges@[j].0 as int,
            ranges@[j].1 as int,
        ) == lines(content@)[j] by {
            assert(lines(chars@)[j] == lines(content@)[j]);
        }
    }
    (chars, ranges)
}

/// The line stops the spindle or ends the program (`M5` or `M30`).
pub open spec fn has_stop(ws: Seq<(char, int)>) -> bool
    decreases ws.len(),
{
    ws.len() > 0 && (has_stop(ws.drop_last()) || (ws.last().0 == 'M' && (ws.last().1
        == 5_000_000 || ws.last().1 == 30_000_000)))
}

/// The value of the last word with the given letter, or `d` when there is none.
pub open spec fn last_value(ws: Seq<(char, int)>, letter: char, d: Option<int>) -> Option<int>
    decreases ws.len(),
{
    if ws.len() == 0 {
        d
    } else if ws.last().0 == letter {
        Some(ws.last().1)
    } else {
        last_value(ws.drop_last(), letter, d)
    }
}

/// The last X and Y read before the first line that stops the spindle or
/// ends the program, and whether such a line was reached.
pub open spec fn home_lines(ls: Seq<Seq<char>>) -> (Option<int>, Option<int>, bool)
    decreases ls.len(),
{
    if ls.len() == 0 {
        (None, None, false)
    } else {
        let p = home_lines(ls.drop_last());
        let ws = line_words(ls.last());
        if p.2 {
            p
        } else if has_stop(ws) {
            (p.0, p.1, true)
        } else {
            (last_value(ws, 'X', p.0), last_value(ws, 'Y', p.1), false)
        }
    }
}

/// The parking position of a program: its last X and Y before it stops the
/// spindle or ends, when both are known.
pub open spec fn home_position(content: Seq<char>) -> Option<(int, int)> {
    let h = home_lines(lines(content));
    if h.0 is Some && h.1 is Some {
        Some((h.0->0, h.1->0))
    } else {
        None
    }
}

proof fn lemma_home_stopped(ls: Seq<Seq<char>>, k: int)
    requires
        0 <= k <= ls.len(),
        home_lines(ls.take(k)).2,
    ensures
        home_lines(ls) == home_lines(ls.take(k)),
    decreases ls.len() - k,
{
    if k == ls.len() {
        assert(ls.take(k) =~= ls);
    } else {
        assert(ls.take(k + 1).drop_last() =~= ls.take(k));
        lemma_home_stopped(ls, k + 1);
    }
}

/// Find the final XY position before the source program stops the spindle or ends.
/// This is the source file's parking/home position and is preserved on export.
pub fn parse_gcode_home_position(content: &str) -> (r: Option<(i64, i64)>)
    ensures
        match r {
            Some(p) => home_position(content@) == Some(point_view(p)),
            None => home_position(content@) is None,
        },
        r matches Some(p) ==> in_range(p.0 as int) && in_range(p.1 as int),
{
    let (chars, ranges) = program_lines(content);
    let ghost ls = lines(content@);
    let mut x: Option<i64> = None;
    let mut y: Option<i64> = None;
    let mut k: usize = 0;
    let mut done = false;
    while k < ranges.len() && !done
        invariant
            k <= ranges@.len() == ls.len(),
            ls == lines(content@),
            forall|j: int|
                0 <= j < ranges@.len() ==> (#[trigger] ranges@[j]).0 <= ranges@[j].1
                    <= chars@.len() && chars@.subrange(ranges@[j].0 as int, ranges@[j].1 as int)
                    == ls[j],
            !done ==> home_lines(ls.take(k as int)) == (opt_view(x), opt_view(y), false),
            done ==> home_lines(ls) == (opt_view(x), opt_view(y), true),
            x matches Some(v) ==> in_range(v as int),
            y matches Some(v) ==> in_range(v as int),
        decreases ranges@.len() - k + (if done {
            0int
        } else {
            1int
        }),
    {
        let (a, b) = ranges[k];
        let ws = words_of_line(&chars, a, b);
        let ghost wv = ws@.map_values(|w: (char, i64)| word_view(w));
        proof {
            assert(ranges@[k as int] == (a, b));
            assert(wv == line_words(ls[k as int]));
            assert(ls.take(k + 1).drop_last() =~= ls.take(k as int));
            assert(ls.take(k + 1).last() == ls[k as int]);
        }
        let mut stop = false;
        let mut j: usize = 0;
        while j < ws.len()
            invariant
                j <= ws@.len(),
                wv == ws@.map_values(|w: (char, i64)| word_view(w)),
                stop == has_stop(wv.take(j as int)),
            decreases ws@.len() - j,
        {
            let (letter, value) = ws[j];
            proof {
                assert(wv.take(j + 1).drop_last() =~= wv.take(j as int));
                assert(wv[j as int] == word_view(ws@[j as int]));
            }
            if letter == 'M' && (value == 5_000_000 || value == 30_000_000) {
                stop = true;
            }
            j = j + 1;
        }
        proof {
            assert(wv.take(ws@.len() as int) =~= wv);
        }
        if stop {
            proof {
                lemma_home_stopped(ls, k + 1);
            }
            done = true;
            continue;
        }
        let ghost x0 = opt_view(x);
        let ghost y0 = opt_view(y);
        j = 0;
        while j < ws.len()
            invariant
                j <= ws@.len(),
                wv == ws@.map_values(|w: (char, i64)| word_view(w)),
                opt_view(x) == last_value(wv.take(j as int), 'X', x0),
                opt_view(y) == last_value(wv.take(j as int), 'Y', y0),
                forall|i: int| 0 <= i < ws@.len() ==> in_range(#[trigger] ws@[i].1 as int),
                x matches Some(v) ==> in_range(v as int),
                y matches Some(v) ==> in_range(v as int),
            decreases ws@.len() - j,
        {
            let (letter, value) = ws[j];
            proof {
                assert(wv.take(j + 1).drop_last() =~= wv.take(j as int));
                assert(wv[j as int] == word_view(ws@[j as int]));
            }
            if letter == 'X' {
                x = Some(value);
            } else if letter == 'Y' {
                y = Some(value);
            }
            j = j + 1;
        }
        proof {
            assert(wv.take(ws@.len() as int) =~= wv);
        }
        k = k + 1;
    }
    proof {
        if !done {
            assert(ls.take(k as int) =~= ls);
        }
    }
    match (x, y) {
        (Some(px), Some(py)) => Some((px, py)),
        _ => None,
    }
}

/// What the reader of cutting values knows after some words: whether G1 is
/// the modal motion, the last positive spindle speed, the last cutting feed,
/// and the depths of the cutting moves below the surface, in order.
pub struct Cutting {
    pub active: bool,
    pub spindle: Option<int>,
    pub feed: Option<int>,
    pub depths: Seq<int>,
}

/// The line holds a `G1` word.
pub open spec fn has_g1(ws: Seq<(char, int)>) -> bool
    decreases ws.len(),
{
    ws.len() > 0 && (has_g1(ws.drop_last()) || (ws.last().0 == 'G' && ws.last().1
        == CUTTING_MOVE))
}

/// One word read by the reader of cutting values; `g1_line` tells whether
/// the word's line holds a `G1`.
pub open spec fn cutting_word(c: Cutting, w: (char, int), g1_line: bool) -> Cutting {
    if w.0 == 'G' {
        Cutting { active: w.1 == CUTTING_MOVE, ..c }
    } else if w.0 == 'S' {
        if w.1 > 0 {
            Cutting { spindle: Some(w.1), ..c }
        } else {
            c
        }
    } else if w.0 == 'F' {
        if c.active || g1_line {
            Cutting { feed: Some(w.1), ..c }
        } else {
            c
        }
    } else if w.0 == 'Z' {
        if c.active && w.1 < 0 {
            Cutting { depths: c.depths.push(-w.1), ..c }
        } else {
            c
        }
    } else {
        c
    }
}

/// The words of a line read in order.
pub open spec fn cutting_words(c: Cutting, ws: Seq<(char, int)>, g1_line: bool) -> Cutting
    decreases ws.len(),
{
    if ws.len() == 0 {
        c
    } else {
        cutting_word(cutting_words(c, ws.drop_last(), g1_line), ws.last(), g1_line)
    }
}

/// The lines of a program read in order.
pub open spec fn cutting_lines(ls: Seq<Seq<char>>) -> Cutting
    decreases ls.len(),
{
    if ls.len() == 0 {
        Cutting { active: false, spindle: None, feed: None, depths: Seq::empty() }
    } else {
        let ws = line_words(ls.last());
        cutting_words(cutting_lines(ls.drop_last()), ws, has_g1(ws))
    }
}

/// The cutting values a program states.
pub open spec fn source_cutting(content: Seq<char>) -> Cutting {
    cutting_lines(lines(content))
}

/// `v` is the deepest of the depths.
pub open spec fn is_deepest(d: Seq<int>, v: int) -> bool {
    d.contains(v) && forall|i: int| 0 <= i < d.len() ==> #[trigger] d[i] <= v
}

/// `a` and `b` are depths and no depth lies strictly between them.
pub open spec fn next_deeper(d: Seq<int>, a: int, b: int) -> bool {
    d.contains(a) && d.contains(b) && a < b && forall|i: int|
        0 <= i < d.len() ==> !(a < #[trigger] d[i] && d[i] < b)
}

/// Some two neighbouring depths lie more than one millionth apart.
pub open spec fn has_step(d: Seq<int>) -> bool {
    exists|a: int, b: int| #[trigger] next_deeper(d, a, b) && b - a > 1
}

/// `v` is the smallest distance of more than one millionth between
/// neighbouring depths.
pub open spec fn is_step(d: Seq<int>, v: int) -> bool {
    &&& v > 1
    &&& exists|a: int, b: int| #[trigger] next_deeper(d, a, b) && b - a == v
    &&& forall|a: int, b: int| #[trigger] next_deeper(d, a, b) && b - a > 1 ==> b - a >= v
}

/// All depths are the same one.
pub open spec fn single_depth(d: Seq<int>) -> bool {
    d.len() > 0 && forall|i: int| 0 <= i < d.len() ==> #[trigger] d[i] == d[0]
}

/// Reads the cutting values of a program.
fn read_cutting(content: &str) -> (r: (Option<i64>, Option<i64>, Vec<i64>))
    ensures
        opt_view(r.0) == source_cutting(content@).spindle,
        opt_view(r.1) == source_cutting(content@).feed,
        r.2@.map_values(|v: i64| v as int) == source_cutting(content@).depths,
        forall|i: int| 0 <= i < r.2@.len() ==> 0 < #[trigger] r.2@[i] <= MAX_MAGNITUDE,
        r.0 matches Some(v) ==> in_range(v as int),
        r.1 matches Some(v) ==> in_range(v as int),
{
    let (chars, ranges) = program_lines(content);
    let ghost ls = lines(content@);
    let mut active = false;
    let mut spindle: Option<i64> = None;
    let mut feed: Option<i64> = None;
    let mut depths: Vec<i64> = Vec::new();
    proof {
        let f = |v: i64| v as int;
        assert(depths@.map_values(f) =~= Seq::<int>::empty());
    }
    let mut k: usize = 0;
    while k < ranges.len()
        invariant
            k <= ranges@.len() == ls.len(),
            ls == lines(content@),
            forall|j: int|
                0 <= j < ranges@.len() ==> (#[trigger] ranges@[j]).0 <= ranges@[j].1
                    <= chars@.len() && chars@.subrange(ranges@[j].0 as int, ranges@[j].1 as int)
                    == ls[j],
            cutting_lines(ls.take(k as int)) == (Cutting {
                active,
                spindle: opt_view(spindle),
                feed: opt_view(feed),
                depths: depths@.map_values(|v: i64| v as int),
            }),
            forall|i: int| 0 <= i < depths@.len() ==> 0 < #[trigger] depths@[i] <= MAX_MAGNITUDE,
            spindle matches Some(v) ==> in_range(v as int),
            feed matches Some(v) ==> in_range(v as int),
        decreases ranges@.len() - k,
    {
        let (a, b) = ranges[k];
        let ws = words_of_line(&chars, a, b);
        let ghost wv = ws@.map_values(|w: (char, i64)| word_view(w));
        proof {
            assert(ranges@[k as int] == (a, b));
            assert(wv == line_words(ls[k as int]));
            assert(ls.take(k + 1).drop_last() =~= ls.take(k as int));
            assert(ls.take(k + 1).last() == ls[k as int]);
        }
        let mut g1_line = false;
        let mut j: usize = 0;
        while j < ws.len()
            invariant
                j <= ws@.len(),
                wv == ws@.map_values(|w: (char, i64)| word_view(w)),
                g1_line == has_g1(wv.take(j as int)),
            decreases ws@.len() - j,
        {
            let (letter, value) = ws[j];
            proof {
                assert(wv.take(j + 1).drop_last() =~= wv.take(j as int));
                assert(wv[j as int] == word_view(ws@[j as int]));
            }
            if letter == 'G' && value == CUTTING_MOVE {
                g1_line = true;
            }
            j = j + 1;
        }
        proof {
            assert(wv.take(ws@.len() as int) =~= wv);
        }
        let ghost before = Cutting {
            active,
            spindle: opt_view(spindle),
            feed: opt_view(feed),
            depths: depths@.map_values(|v: i64| v as int),
        };
        j = 0;
        while j < ws.len()
            invariant
                j <= ws@.len(),
                wv == ws@.map_values(|w: (char, i64)| word_view(w)),
                g1_line == has_g1(wv),
                cutting_words(before, wv.take(j as int), g1_line) == (Cutting {
                    active,
                    spindle: opt_view(spindle),
                    feed: opt_view(feed),
                    depths: depths@.map_values(|v: i64| v as int),
                }),
                forall|i: int| 0 <= i < ws@.len() ==> in_range(#[trigger] ws@[i].1 as int),
                forall|i: int|
                    0 <= i < depths@.len() ==> 0 < #[trigger] depths@[i] <= MAX_MAGNITUDE,
                spindle matches Some(v) ==> in_range(v as int),
                feed matches Some(v) ==> in_range(v as int),
            decreases ws@.len() - j,
        {
            let (letter, value) = ws[j];
            proof {
                assert(wv.take(j + 1).drop_last() =~= wv.take(j as int));
                assert(wv[j as int] == word_view(ws@[j as int]));
                assert(in_range(ws@[j as int].1 as int));
            }
            let ghost old_depths = depths@;
            if letter == 'G' {
                active = value == CUTTING_MOVE;
            } else if letter == 'S' {
                if value > 0 {
                    spindle = Some(value);
                }
            } else if letter == 'F' {
                if active || g1_line {
                    feed = Some(value);
                }
            } else if letter == 'Z' {
                if active && value < 0 {
                    depths.push(-value);
                    proof {
                        let f = |v: i64| v as int;
                        assert(depths@.map_values(f) =~= old_depths.map_values(f).push(
                            -value as int,
                        ));
                    }
                }
            }
            j = j + 1;
        }
        proof {
            assert(wv.take(ws@.len() as int) =~= wv);
        }
        k = k + 1;
    }
    proof {
        assert(ls.take(ls.len() as int) =~= ls);
    }
    (spindle, feed, depths)
}

/// The deepest of some depths.
fn deepest(d: &Vec<i64>) -> (v: i64)
    requires
        d@.len() > 0,
    ensures
        is_deepest(d@.map_values(|x: i64| x as int), v as int),
{
    let ghost dv = d@.map_values(|x: i64| x as int);
    let mut best = d[0];
    let mut at: usize = 0;
    let mut i: usize = 1;
    while i < d.len()
        invariant
            1 <= i <= d@.len(),
            at < d@.len(),
            d@[at as int] == best,
            dv == d@.map_values(|x: i64| x as int),
            forall|j: int| 0 <= j < i ==> d@[j] <= best,
        decreases d@.len() - i,
    {
        if d[i] > best {
            best = d[i];
            at = i;
        }
        i = i + 1;
    }
    assert(dv[at as int] == best as int);
    best
}

/// The depths are all the first one.
fn all_same(d: &Vec<i64>) -> (b: bool)
    requires
        d@.len() > 0,
    ensures
        b == single_depth(d@.map_values(|x: i64| x as int)),
{
    let ghost dv = d@.map_values(|x: i64| x as int);
    let mut i: usize = 1;
    while i < d.len()
        invariant
            1 <= i <= d@.len(),
            dv == d@.map_values(|x: i64| x as int),
            forall|j: int| 0 <= j < i ==> #[trigger] d@[j] == d@[0],
        decreases d@.len() - i,
    {
        if d[i] != d[0] {
            assert(dv[i as int] != dv[0]);
            return false;
        }
        i = i + 1;
    }
    true
}

/// The smallest distance of more than one millionth between neighbouring
/// depths, if any.
fn smallest_step(d: &Vec<i64>) -> (r: Option<i64>)
    requires
        forall|i: int| 0 <= i < d@.len() ==> 0 < #[trigger] d@[i] <= MAX_MAGNITUDE,
    ensures
        ({
            let dv = d@.map_values(|x: i64| x as int);
            match r {
                Some(v) => is_step(dv, v as int),
                None => !has_step(dv),
            }
        }),
{
    let ghost dv = d@.map_values(|x: i64| x as int);
    let mut best: Option<i64> = None;
    let mut i: usize = 0;
    while i < d.len()
        invariant
            i <= d@.len(),
            dv == d@.map_values(|x: i64| x as int),
            forall|t: int| 0 <= t < d@.len() ==> 0 < #[trigger] d@[t] <= MAX_MAGNITUDE,
            forall|t: int, b: int|
                0 <= t < i && #[trigger] next_deeper(dv, dv[t], b) && b - dv[t] > 1 ==> (best
                    matches Some(v) && b - dv[t] >= v),
            best matches Some(v) ==> v > 1 && exists|a: int, b: int|
                #[trigger] next_deeper(dv, a, b) && b - a == v,
        decreases d@.len() - i,
    {
        let a = d[i];
        let mut next: Option<i64> = None;
        let mut j: usize = 0;
        while j < d.len()
            invariant
                j <= d@.len(),
                i < d@.len(),
                a == d@[i as int],
                dv == d@.map_values(|x: i64| x as int),
                next is None ==> forall|t: int| 0 <= t < j ==> d@[t] <= a,
                next matches Some(n) ==> n > a && dv.contains(n as int) && forall|t: int|
                    0 <= t < j && d@[t] > a ==> d@[t] >= n,
            decreases d@.len() - j,
        {
            let c = d[j];
            if c > a {
                let smaller = match next {
                    Some(n) => c < n,
                    None => true,
                };
                if smaller {
                    assert(dv[j as int] == c as int);
                    next = Some(c);
                }
            }
            j = j + 1;
        }
        let ghost old_best = best;
        if let Some(n) = next {
            proof {
                assert(dv[i as int] == a as int);
                assert(next_deeper(dv, a as int, n as int)) by {
                    assert forall|t: int| 0 <= t < dv.len() implies !(a < #[trigger] dv[t] && dv[t]
                        < n) by {
                        assert(dv[t] == d@[t] as int);
                    }
                }
            }
            if n - a > 1 {
                let better = match best {
                    Some(v) => n - a < v,
                    None => true,
                };
                if better {
                    best = Some(n - a);
                }
            }
            proof {
                assert forall|t: int, b: int|
                    0 <= t < i + 1 && #[trigger] next_deeper(dv, dv[t], b) && b - dv[t] > 1 implies (
                    best matches Some(v) && b - dv[t] >= v) by {
                    if t == i {
                        // b is the successor found: no depth lies between a and n,
                        // and every depth above a is at least n.
                        assert(dv.contains(b));
                        let w = choose|w: int| 0 <= w < dv.len() && dv[w] == b;
                        assert(dv[w] == d@[w] as int);
                        assert(dv[w] >= n);
                        assert(!(a < n && n < b));
                    }
                }
            }
        } else {
            proof {
                assert forall|t: int, b: int|
                    0 <= t < i + 1 && #[trigger] next_deeper(dv, dv[t], b) && b - dv[t] > 1 implies (
                    best matches Some(v) && b - dv[t] >= v) by {
                    if t == i {
                        assert(dv.contains(b));
                        let w = choose|w: int| 0 <= w < dv.len() && dv[w] == b;
                        assert(dv[w] == d@[w] as int);
                        assert(dv[i as int] == a as int);
                    }
                }
            }
        }
        i = i + 1;
    }
    proof {
        match best {
            Some(v) => {
                assert forall|a: int, b: int| #[trigger] next_deeper(dv, a, b) && b - a > 1 implies b
                    - a >= v by {
                    let t = choose|t: int| 0 <= t < dv.len() && dv[t] == a;
                }
            },
            None => {
                if has_step(dv) {
                    let (a, b) = choose|a: int, b: int| #[trigger] next_deeper(dv, a, b) && b - a > 1;
                    let t = choose|t: int| 0 <= t < dv.len() && dv[t] == a;
                    assert(next_deeper(dv, dv[t], b));
                }
            },
        }
    }
    best
}

/// The cut and step depths that some depths give, from the current ones.
pub open spec fn depth_values(d: Seq<int>, cut: int, step: int, r: (int, int)) -> bool {
    &&& d.len() == 0 ==> r == (cut, step)
    &&& d.len() > 0 ==> is_deepest(d, r.0)
    &&& single_depth(d) ==> r.1 == d[0]
    &&& d.len() > 0 && !single_depth(d) && has_step(d) ==> is_step(d, r.1)
    &&& d.len() > 0 && !single_depth(d) && !has_step(d) ==> r.1 == step
}

fn depth_settings(depths: &Vec<i64>, cut: i64, step: i64) -> (r: (i64, i64))
    requires
        forall|i: int| 0 <= i < depths@.len() ==> 0 < #[trigger] depths@[i] <= MAX_MAGNITUDE,
    ensures
        depth_values(
            depths@.map_values(|v: i64| v as int),
            cut as int,
            step as int,
            (r.0 as int, r.1 as int),
        ),
{
    if depths.len() == 0 {
        return (cut, step);
    }
    let deepest_depth = deepest(depths);
    if all_same(depths) {
        proof {
            assert(depths@.map_values(|v: i64| v as int)[0] == depths@[0] as int);
        }
        (deepest_depth, depths[0])
    } else {
        match smallest_step(depths) {
            Some(v) => (deepest_depth, v),
            None => (deepest_depth, step),
        }
    }
}

/// `after` is `before` with the cutting values of the program `content`:
/// the spindle speed, feed rate, cut depth and step depth the program
/// states, every other setting unchanged.
pub open spec fn cutting_applied(content: Seq<char>, before: Settings, after: Settings) -> bool {
    let c = source_cutting(content);
    &&& after == (Settings {
        spindle_speed: after.spindle_speed,
        feed_rate: after.feed_rate,
        cut_depth: after.cut_depth,
        step_depth: after.step_depth,
        ..before
    })
    &&& after.spindle_speed == match c.spindle {
        Some(v) => v,
        None => before.spindle_speed as int,
    }
    &&& after.feed_rate == match c.feed {
        Some(v) => v,
        None => before.feed_rate as int,
    }
    &&& depth_values(
        c.depths,
        before.cut_depth as int,
        before.step_depth as int,
        (after.cut_depth as int, after.step_depth as int),
    )
}

/// Read cutting values that are available in a standard TAP program.
/// Offsets and holding-tab settings remain application settings; all cutting
/// values are refreshed from the currently opened source program.
///
/// The spindle speed is the last positive `S`; the feed rate the last `F`
/// on a G1 line or under modal G1; the cut depth the deepest `Z` below zero
/// under G1; the step depth the smallest distance of more than one
/// millionth between neighbouring depths, or the only depth when there is
/// one. Values the program does not state stay as they were.
pub fn apply_source_cutting_parameters(content: &str, settings: &mut Settings)
    ensures
        cutting_applied(content@, *old(settings), *final(settings)),
{
    let (spindle, feed, depths) = read_cutting(content);
    let (cut, step) = depth_settings(&depths, settings.cut_depth, settings.step_depth);
    let spindle_speed = match spindle {
        Some(v) => v,
        None => settings.spindle_speed,
    };
    let feed_rate = match feed {
        Some(v) => v,
        None => settings.feed_rate,
    };
    set_cutting_values(settings, spindle_speed, feed_rate, cut, step);
}

/// Sets the four cutting values, leaving every other setting as it is.
fn set_cutting_values(settings: &mut Settings, spindle: i64, feed: i64, cut: i64, step: i64)
    ensures
        *final(settings) == (Settings {
            spindle_speed: spindle,
            feed_rate: feed,
            cut_depth: cut,
            step_depth: step,
            ..*old(settings)
        }),
{
    settings.spindle_speed = spindle;
    settings.feed_rate = feed;
    settings.cut_depth = cut;
    settings.step_depth = step;
}

/// Every word of a line holds an in-range value.
pub proof fn lemma_words_in_range(s: Seq<char>, i: int)
    ensures
        forall|k: int|
            0 <= k < words_from(s, i).len() ==> in_range((#[trigger] words_from(s, i)[k]).1),
    decreases s.len() - i,
{
    let w = words_from(s, i);
    if 0 <= i < s.len() {
        if !is_ascii_letter(s[i]) {
            lemma_words_in_range(s, i + 1);
            assert(w == words_from(s, i + 1));
        } else {
            let e = next_letter(s, i + 1);
            lemma_next_letter_bounds(s, i + 1);
            lemma_words_in_range(s, e);
            let t = trim(s.subrange(i + 1, e));
            lemma_decimal_value_in_range(t);
            let rest = words_from(s, e);
            match decimal_value(t) {
                Some(v) => {
                    assert(w == seq![(upper(s[i]), v)] + rest);
                    assert forall|k: int| 0 <= k < w.len() implies in_range((#[trigger] w[k]).1) by {
                        if k > 0 {
                            assert(w[k] == rest[k - 1]);
                        }
                    }
                },
                None => {
                    assert(w == rest);
                },
            }
        }
    }
}

/// A motion reader that starts with in-range coordinates keeps them in range.
pub proof fn lemma_motion_words_in_range(m: Motion, ws: Seq<(char, int)>, code: int)
    requires
        m.x matches Some(v) ==> in_range(v),
        m.y matches Some(v) ==> in_range(v),
        forall|k: int| 0 <= k < ws.len() ==> in_range((#[trigger] ws[k]).1),
    ensures
        motion_words(m, ws, code).x matches Some(v) ==> in_range(v),
        motion_words(m, ws, code).y matches Some(v) ==> in_range(v),
    decreases ws.len(),
{
    if ws.len() > 0 {
        let rest = ws.drop_last();
        assert forall|k: int| 0 <= k < rest.len() implies in_range((#[trigger] rest[k]).1) by {
            assert(rest[k] == ws[k]);
        }
        lemma_motion_words_in_range(m, rest, code);
        assert(in_range(ws[ws.len() - 1].1));
    }
}

/// The positions a motion reader records are in range.
pub proof fn lemma_motion_lines_in_range(ls: Seq<Seq<char>>, code: int)
    ensures
        motion_lines(ls, code).0.x matches Some(v) ==> in_range(v),
        motion_lines(ls, code).0.y matches Some(v) ==> in_range(v),
        forall|k: int|
            0 <= k < motion_lines(ls, code).1.len() ==> in_range(
                (#[trigger] motion_lines(ls, code).1[k]).0,
            ) && in_range(motion_lines(ls, code).1[k].1),
    decreases ls.len(),
{
    if ls.len() > 0 {
        lemma_motion_lines_in_range(ls.drop_last(), code);
        let prev = motion_lines(ls.drop_last(), code);
        let ws = line_words(ls.last());
        lemma_words_in_range(stripped(ls.last()), 0);
        lemma_motion_words_in_range(prev.0, ws, code);
        let pts = motion_lines(ls, code).1;
        assert forall|k: int| 0 <= k < pts.len() implies in_range((#[trigger] pts[k]).0) && in_range(
            pts[k].1,
        ) by {
            if k < prev.1.len() {
                assert(pts[k] == prev.1[k]);
            }
        }
    }
}

/// The board bounds are the smallest rectangle holding every cutting
/// position of the program (the positions that `parse_gcode_toolpath`
/// yields), and they are valid exactly when there is one.
pub proof fn law_board_bounds_are_toolpath_bounds(content: Seq<char>)
    ensures
        ({
            let points = motion_points(content, CUTTING_MOVE as int);
            let b = bounds_of(points);
            &&& b.valid() <==> points.len() > 0
            &&& forall|i: int|
                0 <= i < points.len() ==> b.x_min <= (#[trigger] points[i]).0 <= b.x_max && b.y_min
                    <= points[i].1 <= b.y_max
            &&& points.len() > 0 ==> (exists|i: int|
                0 <= i < points.len() && (#[trigger] points[i]).0 == b.x_min) && (exists|i: int|
                0 <= i < points.len() && (#[trigger] points[i]).0 == b.x_max) && (exists|i: int|
                0 <= i < points.len() && (#[trigger] points[i]).1 == b.y_min) && (exists|i: int|
                0 <= i < points.len() && (#[trigger] points[i]).1 == b.y_max)
        }),
{
    lemma_motion_lines_in_range(lines(content), CUTTING_MOVE as int);
    law_bounds_of_points(motion_points(content, CUTTING_MOVE as int));
}

/// Neither a `;` nor a parenthesis survives comment stripping.
pub open spec fn comment_free(s: Seq<char>) -> bool {
    forall|k: int| 0 <= k < s.len() ==> #[trigger] s[k] != ';' && s[k] != '(' && s[k] != ')'
}

proof fn lemma_strip_from_comment_free(s: Seq<char>, i: int, in_comment: bool)
    ensures
        comment_free(strip_from(s, i, in_comment)),
    decreases s.len() - i,
{
    if 0 <= i < s.len() {
        let c = s[i];
        if c == ';' && !in_comment {
        } else if c == '(' {
            lemma_strip_from_comment_free(s, i + 1, true);
        } else if c == ')' {
            lemma_strip_from_comment_free(s, i + 1, false);
        } else if !in_comment {
            lemma_strip_from_comment_free(s, i + 1, false);
            let rest = strip_from(s, i + 1, false);
            let w = strip_from(s, i, in_comment);
            assert(w == seq![c] + rest);
            assert forall|k: int| 0 <= k < w.len() implies #[trigger] w[k] != ';' && w[k] != '('
                && w[k] != ')' by {
                if k > 0 {
                    assert(w[k] == rest[k - 1]);
                }
            }
        } else {
            lemma_strip_from_comment_free(s, i + 1, true);
        }
    }
}

proof fn lemma_strip_from_keeps_comment_free(s: Seq<char>, i: int)
    requires
        comment_free(s),
        0 <= i <= s.len(),
    ensures
        strip_from(s, i, false) == s.subrange(i, s.len() as int),
    decreases s.len() - i,
{
    if i < s.len() {
        assert(s[i] != ';' && s[i] != '(' && s[i] != ')');
        lemma_strip_from_keeps_comment_free(s, i + 1);
        assert(s.subrange(i, s.len() as int) =~= seq![s[i]] + s.subrange(i + 1, s.len() as int));
    } else {
        assert(s.subrange(i, s.len() as int) =~= Seq::<char>::empty());
    }
}

/// `a` is `b` with some characters left out: the characters of `a` stand
/// in `b` at increasing positions `idx`.
pub open spec fn kept_at(a: Seq<char>, b: Seq<char>, idx: Seq<int>) -> bool {
    &&& idx.len() == a.len()
    &&& forall|k: int| 0 <= k < a.len() ==> 0 <= #[trigger] idx[k] < b.len() && a[k] == b[idx[k]]
    &&& forall|j: int, k: int| 0 <= j < k < idx.len() ==> #[trigger] idx[j] < #[trigger] idx[k]
}

/// `a` is a subsequence of `b`.
pub open spec fn is_subsequence(a: Seq<char>, b: Seq<char>) -> bool {
    exists|idx: Seq<int>| #[trigger] kept_at(a, b, idx)
}

proof fn lemma_strip_from_kept(s: Seq<char>, i: int, in_comment: bool) -> (idx: Seq<int>)
    requires
        0 <= i,
    ensures
        kept_at(strip_from(s, i, in_comment), s, idx),
        forall|k: int| 0 <= k < idx.len() ==> i <= #[trigger] idx[k],
    decreases s.len() - i,
{
    if i >= s.len() {
        Seq::empty()
    } else {
        let c = s[i];
        if c == ';' && !in_comment {
            Seq::empty()
        } else if c == '(' {
            lemma_strip_from_kept(s, i + 1, true)
        } else if c == ')' {
            lemma_strip_from_kept(s, i + 1, false)
        } else if !in_comment {
            let rest = lemma_strip_from_kept(s, i + 1, false);
            let r = strip_from(s, i + 1, false);
            let w = strip_from(s, i, in_comment);
            assert(w == seq![c] + r);
            let idx = seq![i] + rest;
            assert forall|k: int| 0 <= k < w.len() implies 0 <= #[trigger] idx[k] < s.len() && w[k]
                == s[idx[k]] by {
                if k > 0 {
                    assert(idx[k] == rest[k - 1]);
                    assert(w[k] == r[k - 1]);
                }
            }
            assert forall|j: int, k: int| 0 <= j < k < idx.len() implies #[trigger] idx[j]
                < #[trigger] idx[k] by {
                assert(idx[k] == rest[k - 1]);
                if j > 0 {
                    assert(idx[j] == rest[j - 1]);
                }
            }
            assert forall|k: int| 0 <= k < idx.len() implies i <= #[trigger] idx[k] by {
                if k > 0 {
                    assert(idx[k] == rest[k - 1]);
                }
            }
            idx
        } else {
            lemma_strip_from_kept(s, i + 1, true)
        }
    }
}

/// Stripping comments only leaves characters out: the result is a
/// subsequence of the line holding no `;` and no parenthesis; a line without
/// those characters comes back unchanged, so stripping it again changes
/// nothing.
pub proof fn law_stripping_comments_is_idempotent(line: Seq<char>)
    ensures
        comment_free(stripped(line)),
        is_subsequence(stripped(line), line),
        comment_free(line) ==> stripped(line) == line,
        stripped(stripped(line)) == stripped(line),
{
    lemma_strip_from_comment_free(line, 0, false);
    let idx = lemma_strip_from_kept(line, 0, false);
    assert(kept_at(stripped(line), line, idx));
    if comment_free(line) {
        lemma_strip_from_keeps_comment_free(line, 0);
        assert(line.subrange(0, line.len() as int) =~= line);
    }
    let t = stripped(line);
    lemma_strip_from_keeps_comment_free(t, 0);
    assert(t.subrange(0, t.len() as int) =~= t);
}

/// Applying the cutting values of the same program a second time changes
/// nothing: the values read depend on the program alone, or stay as the
/// first application left them.
pub proof fn law_cutting_values_apply_once(
    content: Seq<char>,
    first: Settings,
    second: Settings,
    third: Settings,
)
    requires
        cutting_applied(content, first, second),
        cutting_applied(content, second, third),
    ensures
        third == second,
{
    let d = source_cutting(content).depths;
    if d.len() > 0 {
        assert(is_deepest(d, second.cut_depth as int) && is_deepest(d, third.cut_depth as int));
        let i2 = choose|i: int| 0 <= i < d.len() && d[i] == second.cut_depth as int;
        let i3 = choose|i: int| 0 <= i < d.len() && d[i] == third.cut_depth as int;
        assert(d[i2] <= third.cut_depth as int);
        assert(d[i3] <= second.cut_depth as int);
        if !single_depth(d) && has_step(d) {
            let v2 = second.step_depth as int;
            let v3 = third.step_depth as int;
            assert(is_step(d, v2) && is_step(d, v3));
            let (a2, b2) = choose|a: int, b: int| #[trigger] next_deeper(d, a, b) && b - a == v2;
            let (a3, b3) = choose|a: int, b: int| #[trigger] next_deeper(d, a, b) && b - a == v3;
            assert(next_deeper(d, a2, b2) && b2 - a2 > 1);
            assert(next_deeper(d, a3, b3) && b3 - a3 > 1);
        }
    }
    assert(third.cut_depth == second.cut_depth);
    assert(third.step_depth == second.step_depth);
    assert(third.spindle_speed == second.spindle_speed);
    assert(third.feed_rate == second.feed_rate);
}

proof fn lemma_stop_word(ws: Seq<(char, int)>, j: int)
    requires
        0 <= j < ws.len(),
        ws[j] == ('M', 5_000_000int) || ws[j] == ('M', 30_000_000int),
    ensures
        has_stop(ws),
    decreases ws.len(),
{
    if j < ws.len() - 1 {
        lemma_stop_word(ws.drop_last(), j);
    }
}

proof fn lemma_home_stop_line(ls: Seq<Seq<char>>, k: int)
    requires
        0 <= k < ls.len(),
        has_stop(line_words(ls[k])),
    ensures
        home_lines(ls.take(k + 1)).2,
        home_lines(ls.take(k + 1)).0 == home_lines(ls.take(k)).0,
        home_lines(ls.take(k + 1)).1 == home_lines(ls.take(k)).1,
{
    assert(ls.take(k + 1).drop_last() =~= ls.take(k));
    assert(ls.take(k + 1).last() == ls[k]);
}

/// A line holding `M5` (spindle stop) or `M30` (program end) ends the search
/// for the parking position: the position is the last X and Y read on the
/// lines before it, whatever follows.
pub proof fn law_home_is_read_before_the_stop(ls: Seq<Seq<char>>, k: int, j: int)
    requires
        0 <= k < ls.len(),
        0 <= j < line_words(ls[k]).len(),
        line_words(ls[k])[j] == ('M', 5_000_000int) || line_words(ls[k])[j] == ('M', 30_000_000int),
    ensures
        home_lines(ls).0 == home_lines(ls.take(k)).0,
        home_lines(ls).1 == home_lines(ls.take(k)).1,
        forall|extra: Seq<Seq<char>>|
            (#[trigger] home_lines(ls + extra)).0 == home_lines(ls).0 && home_lines(ls + extra).1
                == home_lines(ls).1,
{
    lemma_stop_word(line_words(ls[k]), j);
    lemma_home_stop_line(ls, k);
    lemma_home_stopped(ls, k + 1);
    assert forall|extra: Seq<Seq<char>>|
        (#[trigger] home_lines(ls + extra)).0 == home_lines(ls).0 && home_lines(ls + extra).1
            == home_lines(ls).1 by {
        let all = ls + extra;
        assert(all[k] == ls[k]);
        assert(all.take(k + 1) =~= ls.take(k + 1));
        lemma_stop_word(line_words(all[k]), j);
        lemma_home_stopped(all, k + 1);
    }
}

proof fn lemma_g1_word(ws: Seq<(char, int)>, j: int)
    requires
        0 <= j < ws.len(),
        ws[j] == ('G', CUTTING_MOVE as int),
    ensures
        has_g1(ws),
    decreases ws.len(),
{
    if j < ws.len() - 1 {
        lemma_g1_word(ws.drop_last(), j);
    }
}

proof fn lemma_last_feed(c: Cutting, ws: Seq<(char, int)>, j: int, v: int)
    requires
        0 <= j < ws.len(),
        ws[j] == ('F', v),
        forall|i: int| j < i < ws.len() ==> (#[trigger] ws[i]).0 != 'F',
    ensures
        cutting_words(c, ws, true).feed == Some(v),
    decreases ws.len(),
{
    if j < ws.len() - 1 {
        let d = ws.drop_last();
        assert forall|i: int| j < i < d.len() implies (#[trigger] d[i]).0 != 'F' by {
            assert(d[i] == ws[i]);
        }
        lemma_last_feed(c, d, j, v);
    }
}

/// On a line holding `G1`, the last `F` word sets the feed rate, whatever
/// feed the program stated before: a later cutting feed overrides an
/// earlier one.
pub proof fn law_last_cutting_feed_wins(ls: Seq<Seq<char>>, line: Seq<char>, g: int, j: int, v: int)
    requires
        0 <= g < line_words(line).len(),
        line_words(line)[g] == ('G', CUTTING_MOVE as int),
        0 <= j < line_words(line).len(),
        line_words(line)[j] == ('F', v),
        forall|i: int| j < i < line_words(line).len() ==> (#[trigger] line_words(line)[i]).0 != 'F',
    ensures
        cutting_lines(ls.push(line)).feed == Some(v),
{
    let ws = line_words(line);
    lemma_g1_word(ws, g);
    lemma_last_feed(cutting_lines(ls), ws, j, v);
    assert(ls.push(line).drop_last() =~= ls);
}

/// No word of the line is `M5` or `M30`.
pub open spec fn no_stop_word(ws: Seq<(char, int)>) -> bool {
    forall|j: int|
        0 <= j < ws.len() ==> #[trigger] ws[j] != ('M', 5_000_000int) && ws[j] != ('M', 30_000_000int)
}

proof fn lemma_no_stop(ws: Seq<(char, int)>)
    requires
        no_stop_word(ws),
    ensures
        !has_stop(ws),
    decreases ws.len(),
{
    if ws.len() > 0 {
        let d = ws.drop_last();
        assert forall|j: int| 0 <= j < d.len() implies #[trigger] d[j] != ('M', 5_000_000int)
            && d[j] != ('M', 30_000_000int) by {
            assert(d[j] == ws[j]);
        }
        lemma_no_stop(d);
        assert(ws.last() == ws[ws.len() - 1]);
    }
}

proof fn lemma_no_stop_lines(ls: Seq<Seq<char>>)
    requires
        forall|k: int| 0 <= k < ls.len() ==> no_stop_word(#[trigger] line_words(ls[k])),
    ensures
        !home_lines(ls).2,
    decreases ls.len(),
{
    if ls.len() > 0 {
        let d = ls.drop_last();
        assert forall|k: int| 0 <= k < d.len() implies no_stop_word(#[trigger] line_words(d[k])) by {
            assert(d[k] == ls[k]);
        }
        lemma_no_stop_lines(d);
        assert(no_stop_word(line_words(ls[ls.len() - 1])));
        lemma_no_stop(line_words(ls.last()));
    }
}

proof fn lemma_last_value_is_last(ws: Seq<(char, int)>, letter: char, j: int, v: int, d: Option<int>)
    requires
        0 <= j < ws.len(),
        ws[j] == (letter, v),
        forall|i: int| j < i < ws.len() ==> (#[trigger] ws[i]).0 != letter,
    ensures
        last_value(ws, letter, d) == Some(v),
    decreases ws.len(),
{
    if j < ws.len() - 1 {
        let w = ws.drop_last();
        assert forall|i: int| j < i < w.len() implies (#[trigger] w[i]).0 != letter by {
            assert(w[i] == ws[i]);
        }
        lemma_last_value_is_last(w, letter, j, v, d);
    }
}

/// Until the program stops the spindle or ends, each line moves the
/// parking position: after a line whose last `X` word is `x`, the parking
/// X is `x` (and the same for Y).
pub proof fn law_home_follows_the_last_position(
    ls: Seq<Seq<char>>,
    line: Seq<char>,
    letter: char,
    j: int,
    v: int,
)
    requires
        forall|k: int| 0 <= k < ls.len() ==> no_stop_word(#[trigger] line_words(ls[k])),
        no_stop_word(line_words(line)),
        letter == 'X' || letter == 'Y',
        0 <= j < line_words(line).len(),
        line_words(line)[j] == (letter, v),
        forall|i: int| j < i < line_words(line).len() ==> (#[trigger] line_words(line)[i]).0 != letter,
    ensures
        letter == 'X' ==> home_lines(ls.push(line)).0 == Some(v),
        letter == 'Y' ==> home_lines(ls.push(line)).1 == Some(v),
        !home_lines(ls.push(line)).2,
{
    lemma_no_stop_lines(ls);
    lemma_no_stop(line_words(line));
    assert(ls.push(line).drop_last() =~= ls);
    let p = home_lines(ls);
    lemma_last_value_is_last(line_words(line), letter, j, v, if letter == 'X' {
        p.0
    } else {
        p.1
    });
}

} // verus!
