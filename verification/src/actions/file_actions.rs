//! Source file handling: how much of a source program the editor shows.
use vstd::prelude::*;

use crate::domain::frame::{bounds_of, BoardBounds, FrameGeometry};
use crate::domain::gcode::{
    apply_source_cutting_parameters, cutting_applied, home_position, motion_points,
    parse_gcode_bounds, parse_gcode_home_position, parse_gcode_rapid_path, parse_gcode_toolpath,
    point_view, CUTTING_MOVE, RAPID_MOVE,
};
use crate::domain::settings::Settings;
use crate::number::{fixed3_text, in_range, push_fixed3};
use crate::text::{
    byte_len, chars_of, len_utf8, lemma_byte_len_monotone, lemma_byte_len_take, push_char,
    push_str,
};

verus! {

broadcast use vstd::string::group_string_axioms;

/// Largest source, in bytes, that the editor shows whole (10 KB). Slint's text
/// editor eagerly lays out its entire value; this keeps it responsive.
pub const MAX_SOURCE_EDITOR_BYTES: usize = 10240;

/// The characters from `k` on that still fit in `limit` bytes: the end of
/// the longest prefix of at most `limit` bytes.
pub open spec fn floor_from(s: Seq<char>, k: int, limit: int) -> int
    decreases s.len() - k,
{
    if 0 <= k < s.len() && byte_len(s.take(k + 1)) <= limit {
        floor_from(s, k + 1, limit)
    } else {
        k
    }
}

/// The number of characters in the longest prefix of at most `limit` bytes
/// (the prefix up to `str::floor_char_boundary(limit)`).
pub open spec fn floor_boundary(s: Seq<char>, limit: int) -> int {
    floor_from(s, 0, limit)
}

/// Index of the last line feed before position `k`, or -1.
pub open spec fn rfind_newline(s: Seq<char>, k: int) -> int
    decreases k,
{
    if k <= 0 {
        -1
    } else if s[k - 1] == '\n' {
        k - 1
    } else {
        rfind_newline(s, k - 1)
    }
}

/// The notice appended to a shortened source.
pub open spec fn truncation_notice() -> Seq<char> {
    "\n\n; --- Display limited to the first 10 KB of a large source file ---\n"@
}

/// The editor text of a source and whether it was shortened: a source of at
/// most `MAX_SOURCE_EDITOR_BYTES` bytes is shown whole; a longer one is cut
/// at the last line end within that many bytes (or at the last character
/// boundary within them when there is no line end) and gets a notice.
pub open spec fn editor_text(content: Seq<char>) -> (Seq<char>, bool) {
    if byte_len(content) <= MAX_SOURCE_EDITOR_BYTES {
        (content, false)
    } else {
        let k = floor_boundary(content, MAX_SOURCE_EDITOR_BYTES as int);
        let j = rfind_newline(content, k);
        let end = if j >= 0 {
            j
        } else {
            k
        };
        (content.take(end) + truncation_notice(), true)
    }
}

proof fn lemma_rfind_bounds(s: Seq<char>, k: int)
    requires
        0 <= k <= s.len(),
    ensures
        -1 <= rfind_newline(s, k) < k,
    decreases k,
{
    if k > 0 && s[k - 1] != '\n' {
        lemma_rfind_bounds(s, k - 1);
    }
}

/// Produce editor-safe text while preserving the fact that a source was cut.
pub fn source_gcode_for_editor(content: &str) -> (r: (String, bool))
    ensures
        (r.0@, r.1) == editor_text(content@),
{
    let chars = chars_of(content);
    let ghost s = chars@;
    let limit: usize = MAX_SOURCE_EDITOR_BYTES;
    let mut used: usize = 0;
    let mut k: usize = 0;
    while k < chars.len() && used + len_utf8(chars[k]) <= limit
        invariant
            k <= chars@.len(),
            s == chars@,
            used == byte_len(s.take(k as int)),
            used <= limit,
            limit == MAX_SOURCE_EDITOR_BYTES,
            floor_boundary(s, limit as int) == floor_from(s, k as int, limit as int),
        decreases chars@.len() - k,
    {
        proof {
            lemma_byte_len_take(s, k as int);
        }
        used = used + len_utf8(chars[k]);
        k = k + 1;
    }
    proof {
        if k < chars@.len() {
            lemma_byte_len_take(s, k as int);
        }
    }
    if k == chars.len() {
        proof {
            assert(s.take(k as int) =~= s);
        }
        return (content.to_owned(), false);
    }
    proof {
        lemma_byte_len_monotone(s, k + 1, s.len() as int);
        assert(s.take(s.len() as int) =~= s);
        assert(byte_len(s) > MAX_SOURCE_EDITOR_BYTES);
    }
    let mut end = k;
    let mut found = false;
    while end > 0 && !found
        invariant
            end <= k <= chars@.len(),
            s == chars@,
            !found ==> rfind_newline(s, k as int) == rfind_newline(s, end as int),
            found ==> rfind_newline(s, k as int) == end,
        decreases end + (if found {
            0int
        } else {
            1int
        }),
    {
        if chars[end - 1] == '\n' {
            end = end - 1;
            found = true;
        } else {
            end = end - 1;
        }
    }
    let cut = if found {
        end
    } else {
        k
    };
    proof {
        lemma_rfind_bounds(s, k as int);
    }
    let mut text = String::new();
    let mut i: usize = 0;
    while i < cut
        invariant
            i <= cut <= chars@.len(),
            s == chars@,
            text@ == s.take(i as int),
        decreases cut - i,
    {
        push_char(&mut text, chars[i]);
        i = i + 1;
        assert(text@ =~= s.take(i as int));
    }
    push_str(&mut text, "\n\n; --- Display limited to the first 10 KB of a large source file ---\n");
    (text, true)
}

proof fn lemma_floor_from_fits(s: Seq<char>, k: int, limit: int)
    requires
        0 <= k <= s.len(),
        byte_len(s.take(k)) <= limit,
    ensures
        k <= floor_from(s, k, limit) <= s.len(),
        byte_len(s.take(floor_from(s, k, limit))) <= limit,
    decreases s.len() - k,
{
    if 0 <= k < s.len() && byte_len(s.take(k + 1)) <= limit {
        lemma_floor_from_fits(s, k + 1, limit);
    }
}

proof fn lemma_rfind_found(s: Seq<char>, k: int)
    requires
        0 <= k <= s.len(),
    ensures
        rfind_newline(s, k) >= 0 ==> s[rfind_newline(s, k)] == '\n',
        rfind_newline(s, k) < 0 ==> forall|i: int| 0 <= i < k ==> s[i] != '\n',
    decreases k,
{
    if k > 0 && s[k - 1] != '\n' {
        lemma_rfind_found(s, k - 1);
    }
}

/// The editor shows a source whole exactly when it has at most
/// `MAX_SOURCE_EDITOR_BYTES` bytes; otherwise it shows a prefix of the
/// source of at most that many bytes, followed by the notice; the prefix
/// stops at a line end, or holds none.
pub proof fn law_editor_shows_a_bounded_prefix(content: Seq<char>)
    ensures
        ({
            let (text, shortened) = editor_text(content);
            &&& shortened <==> byte_len(content) > MAX_SOURCE_EDITOR_BYTES
            &&& !shortened ==> text == content
            &&& shortened ==> exists|end: int|
                0 <= end <= content.len() && byte_len(#[trigger] content.take(end))
                    <= MAX_SOURCE_EDITOR_BYTES && text == content.take(end) + truncation_notice()
                    && (end < content.len() && content[end] == '\n' || forall|i: int|
                    0 <= i < end ==> content[i] != '\n')
        }),
{
    if byte_len(content) > MAX_SOURCE_EDITOR_BYTES {
        let limit = MAX_SOURCE_EDITOR_BYTES as int;
        assert(content.take(0) =~= Seq::<char>::empty());
        lemma_floor_from_fits(content, 0, limit);
        let k = floor_boundary(content, limit);
        lemma_rfind_bounds(content, k);
        lemma_rfind_found(content, k);
        let j = rfind_newline(content, k);
        let end = if j >= 0 {
            j
        } else {
            k
        };
        lemma_byte_len_monotone(content, end, k);
        assert(byte_len(content.take(end)) <= MAX_SOURCE_EDITOR_BYTES);
    }
}

/// A source program as the window shows it once it is applied.
#[derive(Debug, Clone)]
pub struct AppliedSource {
    pub bounds: BoardBounds,
    pub frame: FrameGeometry,
    pub home: Option<(i64, i64)>,
    pub toolpath: Vec<(i64, i64)>,
    pub rapid_path: Vec<(i64, i64)>,
    /// Board width and height, `{:.3} mm`.
    pub board_width: String,
    pub board_height: String,
    /// Board extents, three decimals.
    pub x_min: String,
    pub x_max: String,
    pub y_min: String,
    pub y_max: String,
    /// Frame width and height, `{:.3} mm`.
    pub frame_width: String,
    pub frame_height: String,
}

/// Why a source program could not be applied.
#[derive(Debug, Clone, Copy, PartialEq, Eq)]
pub enum SourceError {
    /// The program has no cutting (G1) position.
    NoCuttingPath,
    /// No frame could be computed around the board.
    FrameUnavailable,
}

impl SourceError {
    /// The message shown to the user.
    pub open spec fn spec_message(self) -> Seq<char> {
        match self {
            SourceError::NoCuttingPath => "В исходном G-code не найдена корректная траектория G1."@,
            SourceError::FrameUnavailable => "Не удалось вычислить рамку."@,
        }
    }

    /// The message shown to the user.
    pub fn message(&self) -> (m: String)
        ensures
            m@ == self.spec_message(),
    {
        match self {
            SourceError::NoCuttingPath => "В исходном G-code не найдена корректная траектория G1.".to_owned(),
            SourceError::FrameUnavailable => "Не удалось вычислить рамку.".to_owned(),
        }
    }
}

/// A length with three decimals and its unit.
pub open spec fn length_text(v: int) -> Seq<char> {
    fixed3_text(v) + " mm"@
}

fn length_string(v: i64) -> (s: String)
    ensures
        s@ == length_text(v as int),
{
    let mut s = String::new();
    push_fixed3(&mut s, v);
    push_str(&mut s, " mm");
    s
}

fn fixed3_string(v: i64) -> (s: String)
    ensures
        s@ == fixed3_text(v as int),
{
    let mut s = String::new();
    push_fixed3(&mut s, v);
    s
}

/// The window's view of the applied program `content`, with `settings` the
/// settings once the program's cutting values are read.
pub open spec fn shows_source(content: Seq<char>, settings: Settings, a: AppliedSource) -> bool {
    let b = a.bounds;
    &&& b == bounds_of(motion_points(content, CUTTING_MOVE as int))
    &&& b.valid() && b.in_range()
    &&& FrameGeometry::spec_calculate(b, settings) == Some(a.frame)
    &&& home_position(content) == match a.home {
        Some(p) => Some(point_view(p)),
        None => None,
    }
    &&& a.toolpath@.map_values(|p: (i64, i64)| point_view(p)) == motion_points(
        content,
        CUTTING_MOVE as int,
    )
    &&& a.rapid_path@.map_values(|p: (i64, i64)| point_view(p)) == motion_points(
        content,
        RAPID_MOVE as int,
    )
    &&& a.board_width@ == length_text(abs_diff(b.x_max as int, b.x_min as int))
    &&& a.board_height@ == length_text(b.y_max - b.y_min)
    &&& a.x_min@ == fixed3_text(b.x_min as int)
    &&& a.x_max@ == fixed3_text(b.x_max as int)
    &&& a.y_min@ == fixed3_text(b.y_min as int)
    &&& a.y_max@ == fixed3_text(b.y_max as int)
    &&& a.frame_width@ == length_text(abs_diff(a.frame.right as int, a.frame.left as int))
    &&& a.frame_height@ == length_text(a.frame.top - a.frame.bottom)
}

/// `|a - b|`.
pub open spec fn abs_diff(a: int, b: int) -> int {
    if a >= b {
        a - b
    } else {
        b - a
    }
}

/// Applies a source program: reads its board, parking position, cutting
/// and rapid paths and cutting values, and computes the frame around the
/// board. A program without a cutting position is refused and leaves the
/// settings as they were.
pub fn apply_source(content: &str, settings: &mut Settings) -> (r: Result<
    AppliedSource,
    SourceError,
>)
    requires
        in_range(old(settings).offset_x as int),
        in_range(old(settings).offset_y as int),
    ensures
        bounds_of(motion_points(content@, CUTTING_MOVE as int)).valid() <==> r is Ok,
        match r {
            Ok(a) => cutting_applied(content@, *old(settings), *final(settings)) && shows_source(
                content@,
                *final(settings),
                a,
            ),
            Err(e) => e == SourceError::NoCuttingPath && *final(settings) == *old(settings),
        },
{
    let bounds = parse_gcode_bounds(content);
    if !bounds.is_valid() {
        return Err(SourceError::NoCuttingPath);
    }
    let home = parse_gcode_home_position(content);
    let toolpath = parse_gcode_toolpath(content);
    let rapid_path = parse_gcode_rapid_path(content);
    apply_source_cutting_parameters(content, settings);
    let frame = match FrameGeometry::calculate(&bounds, settings) {
        Some(f) => f,
        None => {
            return Err(SourceError::FrameUnavailable);
        },
    };
    let applied = AppliedSource {
        bounds,
        frame,
        home,
        toolpath,
        rapid_path,
        board_width: length_string(bounds.width()),
        board_height: length_string(bounds.height()),
        x_min: fixed3_string(bounds.x_min),
        x_max: fixed3_string(bounds.x_max),
        y_min: fixed3_string(bounds.y_min),
        y_max: fixed3_string(bounds.y_max),
        frame_width: length_string(frame.width()),
        frame_height: length_string(frame.height()),
    };
    Ok(applied)
}

} // verus!
