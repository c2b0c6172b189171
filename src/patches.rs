//! Applying a unified diff of one source file to the decompiled source:
//! the hunks replace their old line ranges by their new lines.

use vstd::prelude::*;
use crate::ordering::join_chars;
use crate::ordering::join_lines;
use crate::command::is_digit;
use crate::text::{
    chars_of, contains_char, eq_chars, find_seq, has_char, has_seq, lines_of, slice_chars,
    split_lines, starts_with_chars, starts_with_seq, string_of, views, ends_with_char,
};

verus! {

/// A line of a hunk, as the contracts see it.
pub enum LineSpec {
    Add(Seq<char>),
    Remove(Seq<char>),
    Context(Seq<char>),
}

/// A hunk, as the contracts see it.
pub struct HunkSpec {
    pub old_start: u64,
    pub old_count: u64,
    pub lines: Seq<LineSpec>,
}

/// A single-file patch, as the contracts see it.
pub struct PatchSpec {
    pub old_path: Seq<char>,
    pub hunks: Seq<HunkSpec>,
}

/// A line of a hunk.
pub enum HunkLine {
    Add(String),
    Remove(String),
    Context(String),
}

impl View for HunkLine {
    type V = LineSpec;

    open spec fn view(&self) -> LineSpec {
        match self {
            HunkLine::Add(s) => LineSpec::Add(s@),
            HunkLine::Remove(s) => LineSpec::Remove(s@),
            HunkLine::Context(s) => LineSpec::Context(s@),
        }
    }
}

/// A hunk: the 1-based start and the length of the old line range it
/// replaces, and its lines.
pub struct Hunk {
    pub old_start: u64,
    pub old_count: u64,
    pub lines: Vec<HunkLine>,
}

impl View for Hunk {
    type V = HunkSpec;

    open spec fn view(&self) -> HunkSpec {
        HunkSpec {
            old_start: self.old_start,
            old_count: self.old_count,
            lines: Seq::new(self.lines@.len(), |i: int| self.lines@[i]@),
        }
    }
}

/// The diff of one file: the old file's path and the hunks.
pub struct PatchFile {
    pub old_path: String,
    pub hunks: Vec<Hunk>,
}

impl View for PatchFile {
    type V = PatchSpec;

    open spec fn view(&self) -> PatchSpec {
        PatchSpec {
            old_path: self.old_path@,
            hunks: Seq::new(self.hunks@.len(), |i: int| self.hunks@[i]@),
        }
    }
}

/// The view of an optional patch.
pub open spec fn patch_opt_view(o: Option<PatchFile>) -> Option<PatchSpec> {
    match o {
        Some(p) => Some(p@),
        None => None,
    }
}

#[verifier::external_type_specification]
#[verifier::external_body]
pub struct ExPathBuf(std::path::PathBuf);

/// Failures of applying a patch.
pub enum PatchError {
    IO(std::io::Error),
    MissingFile(std::path::PathBuf),
    InvalidPath,
    Invalid,
}

/// The single-file patch that a unified diff text describes, if it parses.
pub uninterp spec fn parsed_patch(text: Seq<char>) -> Option<PatchSpec>;

/// Relies on `patch::Patch::from_single`: the old file path and the hunks of
/// a single-file unified diff. On a text of the form `is_safe_diff` the
/// parser either fails or reads the whole text, and every range number it
/// reads fits in a `u64`, so neither of its panics can fire.
#[verifier::external_body]
fn parse_single(text: &str) -> (r: Option<PatchFile>)
    requires
        is_safe_diff(text@),
    ensures
        patch_opt_view(r) == parsed_patch(text@),
{
    let p = patch::Patch::from_single(text).ok()?;
    let hunks = p.hunks.iter().map(|h| Hunk {
        old_start: h.old_range.start,
        old_count: h.old_range.count,
        lines: h.lines.iter().map(|l| match l {
            patch::Line::Add(s) => HunkLine::Add(s.to_string()),
            patch::Line::Remove(s) => HunkLine::Remove(s.to_string()),
            patch::Line::Context(s) => HunkLine::Context(s.to_string()),
        }).collect(),
    }).collect();
    Some(PatchFile { old_path: p.old.path.to_string(), hunks })
}

/// The lines a hunk puts in place of its old range: its added and context
/// lines, in order, among the first `n` lines.
pub open spec fn new_side(ls: Seq<LineSpec>, n: int) -> Seq<Seq<char>>
    decreases n,
{
    if n <= 0 || n > ls.len() {
        Seq::empty()
    } else {
        let prev = new_side(ls, n - 1);
        match ls[n - 1] {
            LineSpec::Add(s) => prev.push(s),
            LineSpec::Context(s) => prev.push(s),
            LineSpec::Remove(_) => prev,
        }
    }
}

/// The lines after hunk `k` on, where the unpatched lines have been copied up to
/// line index `index`; none when a hunk starts at line 0, its range does
/// not fit in 64 bits, or it starts past the end of the unpatched file.
pub open spec fn apply_from(orig: Seq<Seq<char>>, hunks: Seq<HunkSpec>, k: int, index: int) -> Option<
    Seq<Seq<char>>,
>
    decreases hunks.len() - k,
{
    if k < 0 || k >= hunks.len() {
        Some(
            if index < orig.len() {
                orig.subrange(index, orig.len() as int)
            } else {
                Seq::empty()
            },
        )
    } else {
        let h = hunks[k];
        let start = h.old_start - 1;
        let next = start + h.old_count;
        if h.old_start == 0 || next > u64::MAX || (index < start && start > orig.len()) {
            None
        } else {
            let head = if index < start {
                orig.subrange(index, start)
            } else {
                Seq::empty()
            };
            match apply_from(orig, hunks, k + 1, next) {
                Some(rest) => Some(head + new_side(h.lines, h.lines.len() as int) + rest),
                None => None,
            }
        }
    }
}

/// The lines of `contents` once `patch` is applied.
pub open spec fn patched_lines(contents: Seq<char>, patch: PatchSpec) -> Option<Seq<Seq<char>>> {
    apply_from(lines_of(contents), patch.hunks, 0, 0)
}

/// `a` before the lines of `o`, if any.
pub open spec fn prepend(a: Seq<Seq<char>>, o: Option<Seq<Seq<char>>>) -> Option<Seq<Seq<char>>> {
    match o {
        Some(r) => Some(a + r),
        None => None,
    }
}

/// The index just past the run of ASCII digits that starts at `i`.
pub open spec fn digits_end(l: Seq<char>, i: int) -> int
    decreases l.len() - i,
{
    if i < 0 || i >= l.len() || !is_digit(l[i]) {
        i
    } else {
        digits_end(l, i + 1)
    }
}

/// The end of a hunk range `N` or `N,M` that starts at `i`, each number of
/// one to nineteen digits (so that it fits in a `u64`); -1 when there is none.
pub open spec fn range_end(l: Seq<char>, i: int) -> int {
    let e = digits_end(l, i);
    if e == i || e - i > 19 {
        -1
    } else if e < l.len() && l[e] == ',' {
        let e2 = digits_end(l, e + 1);
        if e2 == e + 1 || e2 - (e + 1) > 19 {
            -1
        } else {
            e2
        }
    } else {
        e
    }
}

/// A hunk header line: `@@ -RANGE +RANGE @@`, then anything.
pub open spec fn is_hunk_header(l: Seq<char>) -> bool {
    &&& starts_with_seq(l, seq!['@', '@', ' ', '-'])
    &&& range_end(l, 4) >= 0
    &&& range_end(l, 4) + 2 <= l.len()
    &&& l[range_end(l, 4)] == ' '
    &&& l[range_end(l, 4) + 1] == '+'
    &&& range_end(l, range_end(l, 4) + 2) >= 0
    &&& range_end(l, range_end(l, 4) + 2) + 3 <= l.len()
    &&& l.subrange(range_end(l, range_end(l, 4) + 2), range_end(l, range_end(l, 4) + 2) + 3)
        == seq![' ', '@', '@']
}

/// A line of a hunk: added, removed or context, and no file header.
pub open spec fn is_hunk_line(l: Seq<char>) -> bool {
    l.len() > 0 && ((l[0] == '+' && !starts_with_seq(l, seq!['+', '+', '+', ' '])) || (l[0] == '-'
        && !starts_with_seq(l, seq!['-', '-', '-', ' '])) || l[0] == ' ')
}

/// The marker of a last line without a line ending.
pub open spec fn is_no_newline_marker(l: Seq<char>) -> bool {
    l == "\\ No newline at end of file"@
}

/// Reading the lines after the file headers: 0 expects the first hunk
/// header, 1 a hunk's first line, 2 is inside a hunk, 3 is past the last
/// hunk (only empty lines may follow), 4 is a line out of place.
pub open spec fn body_step(state: int, l: Seq<char>) -> int {
    if state == 0 {
        if is_hunk_header(l) {
            1
        } else {
            4
        }
    } else if state == 1 {
        if is_hunk_line(l) {
            2
        } else {
            4
        }
    } else if state == 2 {
        if is_hunk_line(l) {
            2
        } else if is_hunk_header(l) {
            1
        } else if is_no_newline_marker(l) || l.len() == 0 {
            3
        } else {
            4
        }
    } else if state == 3 {
        if l.len() == 0 {
            3
        } else {
            4
        }
    } else {
        4
    }
}

/// The reading state after the first `n` of `ls`.
pub open spec fn body_state(ls: Seq<Seq<char>>, n: int) -> int
    decreases n,
{
    if n <= 0 || n > ls.len() {
        0
    } else {
        body_step(body_state(ls, n - 1), ls[n - 1])
    }
}

/// The first of the lines from `i` on that holds `---`, or their number.
pub open spec fn first_dash_line(ls: Seq<Seq<char>>, i: int) -> int
    decreases ls.len() - i,
{
    if i < 0 || i >= ls.len() || has_seq(ls[i], seq!['-', '-', '-']) {
        i
    } else {
        first_dash_line(ls, i + 1)
    }
}

/// A single-file unified diff in the plain form this library applies: no
/// carriage returns, a line ending after every line, the first `---` opening
/// the `--- `/`+++ ` file headers, then hunks whose headers are well formed
/// and which hold at least one line each, then at most one no-newline
/// marker and empty lines.
pub open spec fn is_safe_diff(text: Seq<char>) -> bool {
    let ls = lines_of(text);
    let h = first_dash_line(ls, 0);
    &&& !has_char(text, '\r')
    &&& ends_with_char(text, '\n')
    &&& h + 1 < ls.len()
    &&& starts_with_seq(ls[h], seq!['-', '-', '-', ' '])
    &&& starts_with_seq(ls[h + 1], seq!['+', '+', '+', ' '])
    &&& {
        let st = body_state(ls.subrange(h + 2, ls.len() as int), ls.len() - h - 2);
        st == 2 || st == 3
    }
}

/// `digits_end`, computed.
fn digits_end_of(l: &Vec<char>, i: usize) -> (r: usize)
    requires
        i <= l.len(),
    ensures
        r == digits_end(l@, i as int),
        i <= r <= l.len(),
{
    let mut j: usize = i;
    while j < l.len() && (l[j] as u32) >= 48 && (l[j] as u32) <= 57
        invariant
            i <= j <= l.len(),
            digits_end(l@, i as int) == digits_end(l@, j as int),
        decreases l.len() - j,
    {
        j = j + 1;
    }
    j
}

/// `range_end`, computed; `None` stands for -1.
fn range_end_of(l: &Vec<char>, i: usize) -> (r: Option<usize>)
    requires
        i <= l.len(),
    ensures
        match r {
            Some(e) => range_end(l@, i as int) == e && e <= l.len(),
            None => range_end(l@, i as int) == -1,
        },
{
    let e = digits_end_of(l, i);
    if e == i || e - i > 19 {
        return None;
    }
    if e < l.len() && l[e] == ',' {
        let e2 = digits_end_of(l, e + 1);
        if e2 == e + 1 || e2 - (e + 1) > 19 {
            None
        } else {
            Some(e2)
        }
    } else {
        Some(e)
    }
}

/// `is_hunk_header`, computed.
fn hunk_header(l: &Vec<char>) -> (r: bool)
    ensures
        r == is_hunk_header(l@),
{
    if !starts_with_chars(l, &['@', '@', ' ', '-']) {
        return false;
    }
    let e1 = match range_end_of(l, 4) {
        Some(e) => e,
        None => {
            return false;
        },
    };
    if e1 + 2 > l.len() || l[e1] != ' ' || l[e1 + 1] != '+' {
        return false;
    }
    let e2 = match range_end_of(l, e1 + 2) {
        Some(e) => e,
        None => {
            return false;
        },
    };
    if e2 + 3 > l.len() {
        return false;
    }
    let tail = slice_chars(l, e2, e2 + 3);
    eq_chars(&tail, &[' ', '@', '@'])
}

/// `is_hunk_line`, computed.
fn hunk_line(l: &Vec<char>) -> (r: bool)
    ensures
        r == is_hunk_line(l@),
{
    l.len() > 0 && ((l[0] == '+' && !starts_with_chars(l, &['+', '+', '+', ' '])) || (l[0] == '-'
        && !starts_with_chars(l, &['-', '-', '-', ' '])) || l[0] == ' ')
}

/// `body_step`, computed.
fn next_body_state(state: u8, l: &Vec<char>, marker: &Vec<char>) -> (r: u8)
    requires
        state <= 4,
        marker@ == "\\ No newline at end of file"@,
    ensures
        r as int == body_step(state as int, l@),
        r <= 4,
{
    if state == 0 {
        if hunk_header(l) {
            1
        } else {
            4
        }
    } else if state == 1 {
        if hunk_line(l) {
            2
        } else {
            4
        }
    } else if state == 2 {
        if hunk_line(l) {
            2
        } else if hunk_header(l) {
            1
        } else if eq_chars(l, marker.as_slice()) || l.len() == 0 {
            3
        } else {
            4
        }
    } else if state == 3 {
        if l.len() == 0 {
            3
        } else {
            4
        }
    } else {
        4
    }
}

/// Whether a diff text has the form of `is_safe_diff`.
pub fn is_safe_diff_text(text: &str) -> (r: bool)
    ensures
        r == is_safe_diff(text@),
{
    let v = chars_of(text);
    if contains_char(&v, '\r') || v.len() == 0 || v[v.len() - 1] != '\n' {
        return false;
    }
    let lines = split_lines(&v);
    let ghost ls = views(lines@);
    let mut h: usize = 0;
    while h < lines.len() && find_seq(&lines[h], &['-', '-', '-']).is_none()
        invariant
            h <= lines.len(),
            ls == views(lines@),
            first_dash_line(ls, 0) == first_dash_line(ls, h as int),
        decreases lines.len() - h,
    {
        assert(ls[h as int] == lines@[h as int]@);
        h = h + 1;
    }
    if h < lines.len() {
        assert(ls[h as int] == lines@[h as int]@);
    }
    if h >= lines.len() || lines.len() - h < 2 {
        return false;
    }
    assert(ls[h as int] == lines@[h as int]@);
    assert(ls[h + 1] == lines@[h + 1]@);
    if !starts_with_chars(&lines[h], &['-', '-', '-', ' ']) || !starts_with_chars(
        &lines[h + 1],
        &['+', '+', '+', ' '],
    ) {
        return false;
    }
    let marker = chars_of("\\ No newline at end of file");
    let ghost body = ls.subrange(h + 2, ls.len() as int);
    let mut state: u8 = 0;
    let mut k: usize = h + 2;
    while k < lines.len()
        invariant
            h + 2 <= k <= lines.len(),
            ls == views(lines@),
            body == ls.subrange(h + 2, ls.len() as int),
            marker@ == "\\ No newline at end of file"@,
            state <= 4,
            state as int == body_state(body, k - h - 2),
        decreases lines.len() - k,
    {
        assert(body[k - h - 2] == lines@[k as int]@);
        state = next_body_state(state, &lines[k], &marker);
        k = k + 1;
    }
    state == 2 || state == 3
}

/// Parses a unified diff of one file; none when the text is not of the form
/// `is_safe_diff` or does not parse.
pub fn parse_patch(text: &str) -> (r: Option<PatchFile>)
    ensures
        is_safe_diff(text@) ==> patch_opt_view(r) == parsed_patch(text@),
        !is_safe_diff(text@) ==> r is None,
{
    if !is_safe_diff_text(text) {
        return None;
    }
    parse_single(text)
}

/// The path of the patched file relative to the source root: the diff's old
/// path without its two-character `a/` prefix.
pub fn patch_target(old_path: &str) -> (r: Result<String, PatchError>)
    ensures
        old_path@.len() <= 2 ==> r matches Err(PatchError::InvalidPath),
        old_path@.len() > 2 ==> (r matches Ok(s) && s@ == old_path@.subrange(
            2,
            old_path@.len() as int,
        )),
{
    let v = chars_of(old_path);
    if v.len() <= 2 {
        return Err(PatchError::InvalidPath);
    }
    let rest = slice_chars(&v, 2, v.len());
    Ok(string_of(&rest))
}

/// Appends the new side of `h` to `out`.
fn push_new_side(out: &mut Vec<Vec<char>>, h: &Hunk)
    ensures
        views(final(out)@) == views(old(out)@) + new_side(h@.lines, h@.lines.len() as int),
{
    let mut j: usize = 0;
    while j < h.lines.len()
        invariant
            j <= h.lines.len(),
            views(out@) == views(old(out)@) + new_side(h@.lines, j as int),
        decreases h.lines.len() - j,
    {
        let ghost before = views(out@);
        assert(h@.lines[j as int] == h.lines@[j as int]@);
        match &h.lines[j] {
            HunkLine::Add(s) => {
                let c = chars_of(s.as_str());
                out.push(c);
                assert(views(out@) =~= before.push(c@));
            },
            HunkLine::Context(s) => {
                let c = chars_of(s.as_str());
                out.push(c);
                assert(views(out@) =~= before.push(c@));
            },
            HunkLine::Remove(_) => {},
        }
        j = j + 1;
    }
}

/// Appends lines `a..b` of `src` to `out`.
fn push_range(out: &mut Vec<Vec<char>>, src: &Vec<Vec<char>>, a: usize, b: usize)
    requires
        a <= b <= src.len(),
    ensures
        views(final(out)@) == views(old(out)@) + views(src@).subrange(a as int, b as int),
{
    let mut j: usize = a;
    while j < b
        invariant
            a <= j <= b <= src.len(),
            views(out@) == views(old(out)@) + views(src@).subrange(a as int, j as int),
        decreases b - j,
    {
        let ghost before = views(out@);
        out.push(slice_chars(&src[j], 0, src[j].len()));
        assert(src@[j as int]@.subrange(0, src@[j as int]@.len() as int) =~= src@[j as int]@);
        assert(views(out@) =~= before.push(src@[j as int]@));
        assert(views(src@).subrange(a as int, j + 1) =~= views(src@).subrange(
            a as int,
            j as int,
        ).push(src@[j as int]@));
        j = j + 1;
    }
}

/// Applies the hunks to the lines of a file.
fn apply_hunks(orig: &Vec<Vec<char>>, hunks: &Vec<Hunk>) -> (r: Option<Vec<Vec<char>>>)
    ensures
        match r {
            Some(v) => apply_from(views(orig@), hunks@.map_values(|h: Hunk| h@), 0, 0) == Some(
                views(v@),
            ),
            None => apply_from(views(orig@), hunks@.map_values(|h: Hunk| h@), 0, 0) is None,
        },
{
    let ghost o = views(orig@);
    let ghost hs = hunks@.map_values(|h: Hunk| h@);
    let mut out: Vec<Vec<char>> = Vec::new();
    let mut index: u64 = 0;
    let mut k: usize = 0;
    while k < hunks.len()
        invariant
            k <= hunks.len(),
            o == views(orig@),
            hs == hunks@.map_values(|h: Hunk| h@),
            apply_from(o, hs, 0, 0) == prepend(views(out@), apply_from(o, hs, k as int, index as int)),
        decreases hunks.len() - k,
    {
        let h = &hunks[k];
        assert(hs[k as int] == h@);
        if h.old_start == 0 {
            return None;
        }
        let start: u64 = h.old_start - 1;
        if start > u64::MAX - h.old_count {
            return None;
        }
        let next: u64 = start + h.old_count;
        let ghost before = views(out@);
        if index < start {
            if start > orig.len() as u64 {
                return None;
            }
            push_range(&mut out, orig, index as usize, start as usize);
        }
        push_new_side(&mut out, h);
        assert(views(out@) == before + (if index < start {
            o.subrange(index as int, start as int)
        } else {
            Seq::empty()
        }) + new_side(h@.lines, h@.lines.len() as int)) by {
            if index >= start {
                assert(before + Seq::<Seq<char>>::empty() =~= before);
            }
        }
        proof {
            let head = if index < start {
                o.subrange(index as int, start as int)
            } else {
                Seq::empty()
            };
            let ns = new_side(h@.lines, h@.lines.len() as int);
            match apply_from(o, hs, k + 1, next as int) {
                Some(rest) => {
                    assert(before + (head + ns + rest) =~= views(out@) + rest);
                },
                None => {},
            }
        }
        index = next;
        k = k + 1;
    }
    let ghost before = views(out@);
    if index < orig.len() as u64 {
        push_range(&mut out, orig, index as usize, orig.len());
    } else {
        assert(views(out@) =~= before + Seq::<Seq<char>>::empty());
    }
    Some(out)
}

/// The text of `contents` once `patch` is applied, its lines joined by `\n`;
/// `Invalid` when a hunk's range cannot be placed in the file.
pub fn patch_text(contents: &str, patch: &PatchFile) -> (r: Result<String, PatchError>)
    ensures
        match patched_lines(contents@, patch@) {
            Some(ls) => (r matches Ok(s) && s@ == join_lines(ls)),
            None => r matches Err(PatchError::Invalid),
        },
{
    let text = chars_of(contents);
    let lines = split_lines(&text);
    assert(patch@.hunks =~= patch.hunks@.map_values(|h: Hunk| h@));
    match apply_hunks(&lines, &patch.hunks) {
        Some(out) => {
            let joined = join_chars(&out);
            Ok(string_of(&joined))
        },
        None => Err(PatchError::Invalid),
    }
}

} // verus!
