//! External command lines: splitting a command template, substituting `{n}`
//! argument selectors, and classifying the lines a running tool prints.

use vstd::prelude::*;
use crate::text::{
    chars_of, eq_chars, find_char_from, find_from, find_seq, lemma_scan_to_bounds, scan_to,
    slice_chars, split_whitespace, string_of, tokens, views,
};

verus! {

/// The character sequences held by a sequence of strings.
pub open spec fn str_views(v: Seq<String>) -> Seq<Seq<char>> {
    Seq::new(v.len(), |k: int| v[k]@)
}

/// Whether `c` is an ASCII decimal digit.
pub open spec fn is_digit(c: char) -> bool {
    48 <= (c as u32) && (c as u32) <= 57
}

/// The value of a string of decimal digits.
pub open spec fn digits_value(s: Seq<char>) -> nat
    decreases s.len(),
{
    if s.len() == 0 {
        0
    } else {
        digits_value(s.drop_last()) * 10 + ((s.last() as u32) - 48) as nat
    }
}

/// What `usize::from_str` accepts: an optional `+`, then one or more digits
/// whose value fits in a `usize`.
pub open spec fn parse_usize(s: Seq<char>) -> Option<nat> {
    let d = unsigned_digits(s);
    if d.len() == 0 || !(forall|k: int| 0 <= k < d.len() ==> is_digit(#[trigger] d[k]))
        || digits_value(d) > usize::MAX {
        None
    } else {
        Some(digits_value(d))
    }
}

/// `s` without one leading `+`.
pub open spec fn unsigned_digits(s: Seq<char>) -> Seq<char> {
    if s.len() > 0 && s[0] == '+' {
        s.drop_first()
    } else {
        s
    }
}

/// The index selected by an argument holding `{n}`: the text between its
/// first `{` and its first `}`, read as a `usize`.
pub open spec fn arg_selector(s: Seq<char>) -> Option<nat> {
    let a = scan_to(s, '{', 0);
    let b = scan_to(s, '}', 0);
    if a >= s.len() || b >= s.len() || b <= a {
        None
    } else {
        parse_usize(s.subrange(a + 1, b))
    }
}

/// An argument after substitution: the selected input when the selector is
/// in range, else the argument itself.
pub open spec fn transformed_arg(arg: Seq<char>, args_in: Seq<Seq<char>>) -> Seq<char> {
    match arg_selector(arg) {
        Some(i) => if i < args_in.len() {
            args_in[i as int]
        } else {
            arg
        },
        None => arg,
    }
}

/// The `[LEVEL] TEXT` parts of a line: between the first `[` and the first
/// `]`, and after that `]`.
pub open spec fn line_parts(line: Seq<char>) -> Option<(Seq<char>, Seq<char>)> {
    let a = scan_to(line, '[', 0);
    let b = scan_to(line, ']', 0);
    if a >= line.len() || b >= line.len() || b <= a {
        None
    } else {
        Some((line.subrange(a + 1, b), line.subrange(b + 1, line.len() as int)))
    }
}

#[verifier::external_type_specification]
#[verifier::external_body]
pub struct ExIoError(std::io::Error);

/// Failures of running an external command.
pub enum CommandError {
    IO(std::io::Error),
    MissingCommand,
}

/// How a line of tool output is logged.
#[derive(PartialEq, Eq, Structural, Clone, Copy, Debug)]
pub enum LogLevel {
    Info,
    Warn,
    Error,
}

/// The level, the text and the next "in error output" flag for a line of
/// tool output; `error` marks the error stream.
pub open spec fn line_classification(line: Seq<char>, error: bool, error_output: bool) -> (
    LogLevel,
    Seq<char>,
    bool,
) {
    match line_parts(line) {
        Some((level, text)) => {
            let l = if level == seq!['W', 'A', 'R', 'N'] || level == seq![
                'W',
                'A',
                'R',
                'N',
                'I',
                'N',
                'G',
            ] {
                LogLevel::Warn
            } else if level == seq!['F', 'A', 'T', 'A', 'L'] || level == seq![
                'E',
                'R',
                'R',
                'O',
                'R',
            ] {
                LogLevel::Error
            } else if error || error_output {
                LogLevel::Error
            } else {
                LogLevel::Info
            };
            (l, text, error_output)
        },
        None => if find_from(line, seq!['E', 'r', 'r', 'o', 'r'], 0) >= 0 {
            (LogLevel::Error, line, error_output)
        } else if line.len() >= 19 && line.subrange(0, 19) == exception_prefix() {
            (LogLevel::Error, line, true)
        } else if error_output {
            (LogLevel::Error, line, error_output)
        } else {
            (LogLevel::Info, line, error_output)
        },
    }
}

/// `Exception in thread`, the start of an uncaught Java exception report.
pub open spec fn exception_prefix() -> Seq<char> {
    seq!['E', 'x', 'c', 'e', 'p', 't', 'i', 'o', 'n', ' ', 'i', 'n', ' ', 't', 'h', 'r', 'e', 'a', 'd']
}

proof fn lemma_digits_monotone(d: Seq<char>, k: int)
    requires
        0 <= k <= d.len(),
    ensures
        digits_value(d.subrange(0, k)) <= digits_value(d),
    decreases d.len() - k,
{
    if k < d.len() {
        lemma_digits_monotone(d, k + 1);
        assert(d.subrange(0, k + 1).drop_last() =~= d.subrange(0, k));
    } else {
        assert(d.subrange(0, k) =~= d);
    }
}

/// `parse_usize`, computed.
fn parse_usize_chars(s: &Vec<char>) -> (r: Option<usize>)
    ensures
        match r {
            Some(v) => parse_usize(s@) == Some(v as nat),
            None => parse_usize(s@) is None,
        },
{
    let start: usize = if s.len() > 0 && s[0] == '+' {
        1
    } else {
        0
    };
    let ghost d = unsigned_digits(s@);
    assert(d =~= s@.subrange(start as int, s@.len() as int));
    if start >= s.len() {
        return None;
    }
    let mut v: usize = 0;
    let mut i: usize = start;
    while i < s.len()
        invariant
            start <= i <= s.len(),
            d == s@.subrange(start as int, s@.len() as int),
            d == unsigned_digits(s@),
            v as nat == digits_value(d.subrange(0, i - start)),
            forall|k: int| 0 <= k < i - start ==> is_digit(#[trigger] d[k]),
        decreases s.len() - i,
    {
        let c = s[i];
        let u = c as u32;
        assert(d[i - start] == c);
        if u < 48 || u > 57 {
            assert(!is_digit(d[i - start]));
            return None;
        }
        let dig = (u - 48) as usize;
        assert(d.subrange(0, i - start + 1).drop_last() =~= d.subrange(0, i - start));
        assert(digits_value(d.subrange(0, i - start + 1)) == v * 10 + dig);
        if v > (usize::MAX - dig) / 10 {
            assert(v * 10 + dig > usize::MAX) by (nonlinear_arith)
                requires
                    v > (usize::MAX - dig) / 10,
                    dig <= 9,
            ;
            proof {
                if forall|k: int| 0 <= k < d.len() ==> is_digit(#[trigger] d[k]) {
                    lemma_digits_monotone(d, i - start + 1);
                    assert(digits_value(d) > usize::MAX);
                }
            }
            assert(parse_usize(s@) is None);
            return None;
        }
        assert(v * 10 + dig <= usize::MAX) by (nonlinear_arith)
            requires
                v <= (usize::MAX - dig) / 10,
                dig <= 9,
        ;
        v = v * 10 + dig;
        i = i + 1;
    }
    assert(d.subrange(0, i - start) =~= d);
    Some(v)
}

/// Splits a command template into the program and its arguments; none when
/// the template holds no word.
pub fn parse_command(value: &str) -> (r: Option<(String, Vec<String>)>)
    ensures
        match r {
            Some((command, args)) => {
                let t = tokens(value@);
                t.len() > 0 && command@ == t[0] && str_views(args@) == t.subrange(1, t.len() as int)
            },
            None => tokens(value@).len() == 0,
        },
{
    let v = chars_of(value);
    let parts = split_whitespace(&v);
    if parts.len() == 0 {
        return None;
    }
    let command = string_of(&parts[0]);
    let mut args: Vec<String> = Vec::new();
    let mut k: usize = 1;
    while k < parts.len()
        invariant
            1 <= k <= parts.len(),
            str_views(args@) == views(parts@).subrange(1, k as int),
        decreases parts.len() - k,
    {
        let ghost before = str_views(args@);
        let a = string_of(&parts[k]);
        args.push(a);
        assert(str_views(args@) =~= before.push(a@));
        assert(views(parts@).subrange(1, k + 1) =~= views(parts@).subrange(1, k as int).push(
            parts@[k as int]@,
        ));
        k = k + 1;
    }
    Some((command, args))
}

/// `arg_selector`, computed.
fn parse_arg(value: &Vec<char>) -> (r: Option<usize>)
    ensures
        match r {
            Some(i) => arg_selector(value@) == Some(i as nat),
            None => arg_selector(value@) is None,
        },
{
    let start = find_char_from(value, '{', 0);
    let end = find_char_from(value, '}', 0);
    if start >= value.len() || end >= value.len() || end <= start {
        return None;
    }
    let inner = slice_chars(value, start + 1, end);
    parse_usize_chars(&inner)
}

/// Replaces each argument holding an in-range selector `{n}` by `args_in[n]`.
pub fn transform_args(args: Vec<String>, args_in: &[String]) -> (r: Vec<String>)
    ensures
        r.len() == args.len(),
        forall|k: int|
            0 <= k < args.len() ==> (#[trigger] r@[k])@ == transformed_arg(
                args@[k]@,
                str_views(args_in@),
            ),
{
    let mut out: Vec<String> = Vec::new();
    let mut k: usize = 0;
    while k < args.len()
        invariant
            k <= args.len(),
            out.len() == k,
            forall|m: int|
                0 <= m < k ==> (#[trigger] out@[m])@ == transformed_arg(
                    args@[m]@,
                    str_views(args_in@),
                ),
        decreases args.len() - k,
    {
        let arg = &args[k];
        let chars = chars_of(arg.as_str());
        let mut value = arg.clone();
        match parse_arg(&chars) {
            Some(index) => {
                if index < args_in.len() {
                    value = args_in[index].clone();
                }
            },
            None => {},
        }
        out.push(value);
        k = k + 1;
    }
    out
}

/// Splits a `[LEVEL] TEXT` line into its level and text.
pub fn get_line_parts(line: &str) -> (r: Option<(String, String)>)
    ensures
        match r {
            Some((level, text)) => line_parts(line@) == Some((level@, text@)),
            None => line_parts(line@) is None,
        },
{
    let v = chars_of(line);
    let start = find_char_from(&v, '[', 0);
    let end = find_char_from(&v, ']', 0);
    if start >= v.len() || end >= v.len() || end <= start {
        return None;
    }
    let level = slice_chars(&v, start + 1, end);
    let text = slice_chars(&v, end + 1, v.len());
    Some((string_of(&level), string_of(&text)))
}

/// Decides how a line that a running tool printed is logged: a `[LEVEL]`
/// prefix decides where present; otherwise lines holding `Error` are errors,
/// and an uncaught exception report turns the rest of the output into errors.
pub fn classify_output_line(line: &str, error: bool, error_output: bool) -> (r: (
    LogLevel,
    String,
    bool,
))
    ensures
        ({
            let (l, t, e) = line_classification(line@, error, error_output);
            r.0 == l && r.1@ == t && r.2 == e
        }),
{
    let v = chars_of(line);
    match get_line_parts(line) {
        Some((level, text)) => {
            let lv = chars_of(level.as_str());
            let l = if eq_chars(&lv, &['W', 'A', 'R', 'N']) || eq_chars(
                &lv,
                &['W', 'A', 'R', 'N', 'I', 'N', 'G'],
            ) {
                LogLevel::Warn
            } else if eq_chars(&lv, &['F', 'A', 'T', 'A', 'L']) || eq_chars(
                &lv,
                &['E', 'R', 'R', 'O', 'R'],
            ) {
                LogLevel::Error
            } else if error || error_output {
                LogLevel::Error
            } else {
                LogLevel::Info
            };
            (l, text, error_output)
        },
        None => {
            let owned = string_of(&v);
            if find_seq(&v, &['E', 'r', 'r', 'o', 'r']).is_some() {
                (LogLevel::Error, owned, error_output)
            } else if v.len() >= 19 && eq_chars(
                &slice_chars(&v, 0, 19),
                &[
                    'E',
                    'x',
                    'c',
                    'e',
                    'p',
                    't',
                    'i',
                    'o',
                    'n',
                    ' ',
                    'i',
                    'n',
                    ' ',
                    't',
                    'h',
                    'r',
                    'e',
                    'a',
                    'd',
                ],
            ) {
                (LogLevel::Error, owned, true)
            } else if error_output {
                (LogLevel::Error, owned, error_output)
            } else {
                (LogLevel::Info, owned, error_output)
            }
        },
    }
}

} // verus!
