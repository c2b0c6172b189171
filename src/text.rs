//! Character-level text handling: whitespace, lines, tokens and searches,
//! each stated as a spec function over `Seq<char>` and carried out on
//! `Vec<char>`.

use vstd::prelude::*;

verus! {

/// Unicode `White_Space`, the set that `char::is_whitespace` tests.
pub open spec fn is_ws(c: char) -> bool {
    let u = c as u32;
    (9 <= u && u <= 13) || u == 32 || u == 0x85 || u == 0xA0 || u == 0x1680 || (0x2000 <= u
        && u <= 0x200A) || u == 0x2028 || u == 0x2029 || u == 0x202F || u == 0x205F || u == 0x3000
}

/// The character sequences held by a sequence of character vectors.
pub open spec fn views(v: Seq<Vec<char>>) -> Seq<Seq<char>> {
    Seq::new(v.len(), |k: int| v[k]@)
}

/// The first index at or after `i` that holds `c`, or the length if none does.
pub open spec fn scan_to(s: Seq<char>, c: char, i: int) -> int
    decreases s.len() - i,
{
    if i < 0 || i >= s.len() || s[i] == c {
        i
    } else {
        scan_to(s, c, i + 1)
    }
}

/// The first index at or after `i` that holds whitespace, or the length.
pub open spec fn scan_word(s: Seq<char>, i: int) -> int
    decreases s.len() - i,
{
    if i < 0 || i >= s.len() || is_ws(s[i]) {
        i
    } else {
        scan_word(s, i + 1)
    }
}

/// The first index at or after `i` that holds no whitespace, or the length.
pub open spec fn skip_ws(s: Seq<char>, i: int) -> int
    decreases s.len() - i,
{
    if i < 0 || i >= s.len() || !is_ws(s[i]) {
        i
    } else {
        skip_ws(s, i + 1)
    }
}

/// The last index before `j` that holds `c`, or -1 if none does.
pub open spec fn rfind_from(s: Seq<char>, c: char, j: int) -> int
    decreases j,
{
    if j <= 0 {
        -1
    } else if s[j - 1] == c {
        j - 1
    } else {
        rfind_from(s, c, j - 1)
    }
}

/// The index just past the last non-whitespace character before `j`.
pub open spec fn rskip_ws(s: Seq<char>, j: int) -> int
    decreases j,
{
    if j <= 0 || !is_ws(s[j - 1]) {
        j
    } else {
        rskip_ws(s, j - 1)
    }
}

/// Whether `s` holds `c`.
pub open spec fn has_char(s: Seq<char>, c: char) -> bool {
    scan_to(s, c, 0) < s.len()
}

/// Whether `s` starts with `c`.
pub open spec fn starts_with_char(s: Seq<char>, c: char) -> bool {
    s.len() > 0 && s[0] == c
}

/// Whether `s` ends with `c`.
pub open spec fn ends_with_char(s: Seq<char>, c: char) -> bool {
    s.len() > 0 && s[s.len() - 1] == c
}

/// Whether `s` starts with `p`.
pub open spec fn starts_with_seq(s: Seq<char>, p: Seq<char>) -> bool {
    p.len() <= s.len() && s.subrange(0, p.len() as int) == p
}

/// `s` without trailing whitespace.
pub open spec fn trim_end(s: Seq<char>) -> Seq<char> {
    s.subrange(0, rskip_ws(s, s.len() as int))
}

/// `s` without one trailing carriage return.
pub open spec fn strip_cr(s: Seq<char>) -> Seq<char> {
    if ends_with_char(s, '\r') {
        s.drop_last()
    } else {
        s
    }
}

/// The lines of `s` from index `i` on: split at `\n`, a `\r` before the `\n`
/// dropped, and no empty line after a final `\n`.
pub open spec fn lines_from(s: Seq<char>, i: int) -> Seq<Seq<char>>
    decreases s.len() - i,
{
    if i < 0 || i >= s.len() {
        Seq::empty()
    } else {
        let j = scan_to(s, '\n', i);
        proof {
            lemma_scan_to_bounds(s, '\n', i);
        }
        if j >= s.len() {
            seq![s.subrange(i, s.len() as int)]
        } else {
            seq![strip_cr(s.subrange(i, j))] + lines_from(s, j + 1)
        }
    }
}

/// The lines of `s`.
pub open spec fn lines_of(s: Seq<char>) -> Seq<Seq<char>> {
    lines_from(s, 0)
}

/// The maximal runs of non-whitespace characters of `s` from index `i` on.
pub open spec fn tokens_from(s: Seq<char>, i: int) -> Seq<Seq<char>>
    decreases s.len() - i,
{
    let a = skip_ws(s, i);
    if i < 0 || a >= s.len() {
        Seq::empty()
    } else {
        let b = scan_word(s, a);
        proof {
            lemma_skip_ws_bounds(s, i);
            lemma_scan_word_bounds(s, a + 1);
        }
        seq![s.subrange(a, b)] + tokens_from(s, b)
    }
}

/// The whitespace-separated tokens of `s`.
pub open spec fn tokens(s: Seq<char>) -> Seq<Seq<char>> {
    tokens_from(s, 0)
}

/// `s` with every `.` replaced by `/`.
pub open spec fn slashes(s: Seq<char>) -> Seq<char> {
    s.map_values(|c: char| if c == '.' { '/' } else { c })
}

/// The index of the first occurrence of `p` in `s` at or after `i`, or -1.
pub open spec fn find_from(s: Seq<char>, p: Seq<char>, i: int) -> int
    decreases s.len() + 1 - i,
{
    if i < 0 || i + p.len() > s.len() {
        -1
    } else if s.subrange(i, i + p.len()) == p {
        i
    } else {
        find_from(s, p, i + 1)
    }
}

/// `s` from index `i` on with every occurrence of the non-empty `p` replaced
/// by `r`, scanning left to right without overlaps.
pub open spec fn replace_from(s: Seq<char>, p: Seq<char>, r: Seq<char>, i: int) -> Seq<char>
    decreases s.len() + 1 - i,
{
    let k = find_from(s, p, i);
    if i < 0 || i > s.len() || p.len() == 0 || k < 0 {
        s.subrange(i, s.len() as int)
    } else {
        proof {
            lemma_find_from_bounds(s, p, i);
        }
        s.subrange(i, k) + r + replace_from(s, p, r, k + p.len())
    }
}

/// `s` with every occurrence of the non-empty `p` replaced by `r`.
pub open spec fn replace_all(s: Seq<char>, p: Seq<char>, r: Seq<char>) -> Seq<char> {
    replace_from(s, p, r, 0)
}

/// Whether `p` occurs in `s`.
pub open spec fn has_seq(s: Seq<char>, p: Seq<char>) -> bool {
    find_from(s, p, 0) >= 0
}

pub proof fn lemma_find_from_bounds(s: Seq<char>, p: Seq<char>, i: int)
    requires
        0 <= i,
    ensures
        find_from(s, p, i) >= 0 ==> i <= find_from(s, p, i) && find_from(s, p, i) + p.len()
            <= s.len(),
    decreases s.len() + 1 - i,
{
    if i + p.len() <= s.len() && s.subrange(i, i + p.len()) != p {
        lemma_find_from_bounds(s, p, i + 1);
    }
}

pub proof fn lemma_scan_to_bounds(s: Seq<char>, c: char, i: int)
    requires
        0 <= i,
    ensures
        i <= scan_to(s, c, i),
        i <= s.len() ==> scan_to(s, c, i) <= s.len(),
        scan_to(s, c, i) < s.len() ==> s[scan_to(s, c, i)] == c,
        forall|k: int| i <= k < scan_to(s, c, i) ==> s[k] != c,
    decreases s.len() - i,
{
    if i < s.len() && s[i] != c {
        lemma_scan_to_bounds(s, c, i + 1);
    }
}

pub proof fn lemma_scan_word_bounds(s: Seq<char>, i: int)
    requires
        0 <= i,
    ensures
        i <= scan_word(s, i),
        i <= s.len() ==> scan_word(s, i) <= s.len(),
        forall|k: int| i <= k < scan_word(s, i) ==> !is_ws(s[k]),
    decreases s.len() - i,
{
    if i < s.len() && !is_ws(s[i]) {
        lemma_scan_word_bounds(s, i + 1);
    }
}

pub proof fn lemma_skip_ws_bounds(s: Seq<char>, i: int)
    requires
        0 <= i,
    ensures
        i <= skip_ws(s, i),
        i <= s.len() ==> skip_ws(s, i) <= s.len(),
        skip_ws(s, i) < s.len() ==> !is_ws(s[skip_ws(s, i)]),
    decreases s.len() - i,
{
    if i < s.len() && is_ws(s[i]) {
        lemma_skip_ws_bounds(s, i + 1);
    }
}

pub proof fn lemma_rfind_bounds(s: Seq<char>, c: char, j: int)
    requires
        j <= s.len(),
    ensures
        -1 <= rfind_from(s, c, j) < j || (j <= 0 && rfind_from(s, c, j) == -1),
        rfind_from(s, c, j) >= 0 ==> s[rfind_from(s, c, j)] == c,
    decreases j,
{
    if j > 0 && s[j - 1] != c {
        lemma_rfind_bounds(s, c, j - 1);
    }
}

/// Executable `is_ws`.
pub fn is_whitespace(c: char) -> (r: bool)
    ensures
        r == is_ws(c),
{
    let u = c as u32;
    (9 <= u && u <= 13) || u == 32 || u == 0x85 || u == 0xA0 || u == 0x1680 || (0x2000 <= u && u
        <= 0x200A) || u == 0x2028 || u == 0x2029 || u == 0x202F || u == 0x205F || u == 0x3000
}

/// Relies on `str::chars`: the characters of `s` in order.
#[verifier::external_body]
pub(crate) fn chars_of(s: &str) -> (r: Vec<char>)
    ensures
        r@ == s@,
{
    s.chars().collect()
}

/// Relies on `FromIterator<&char> for String`: a string of the given characters.
#[verifier::external_body]
pub(crate) fn string_of(v: &Vec<char>) -> (r: String)
    ensures
        r@ == v@,
{
    v.iter().collect()
}

/// The characters of `s` from `i` to `j`.
pub fn slice_chars(s: &Vec<char>, i: usize, j: usize) -> (r: Vec<char>)
    requires
        i <= j <= s.len(),
    ensures
        r@ == s@.subrange(i as int, j as int),
{
    let mut r: Vec<char> = Vec::new();
    let mut k: usize = i;
    while k < j
        invariant
            i <= k <= j <= s.len(),
            r@ == s@.subrange(i as int, k as int),
        decreases j - k,
    {
        r.push(s[k]);
        k = k + 1;
        assert(r@ =~= s@.subrange(i as int, k as int));
    }
    r
}

/// Appends the characters of `b` to `a`.
pub fn append_chars(a: &mut Vec<char>, b: &Vec<char>)
    ensures
        final(a)@ == old(a)@ + b@,
{
    let mut k: usize = 0;
    while k < b.len()
        invariant
            k <= b.len(),
            a@ == old(a)@ + b@.subrange(0, k as int),
        decreases b.len() - k,
    {
        a.push(b[k]);
        k = k + 1;
        assert(a@ =~= old(a)@ + b@.subrange(0, k as int));
    }
    assert(b@.subrange(0, b.len() as int) =~= b@);
}

/// Whether `s` equals `p`.
pub fn eq_chars(s: &Vec<char>, p: &[char]) -> (r: bool)
    ensures
        r == (s@ == p@),
{
    if s.len() != p.len() {
        return false;
    }
    let mut k: usize = 0;
    while k < s.len()
        invariant
            k <= s.len() == p@.len(),
            forall|m: int| 0 <= m < k ==> s@[m] == p@[m],
        decreases s.len() - k,
    {
        if s[k] != p[k] {
            return false;
        }
        k = k + 1;
    }
    assert(s@ =~= p@);
    true
}

/// `scan_to(s, c, i)`, computed.
pub fn find_char_from(s: &Vec<char>, c: char, i: usize) -> (r: usize)
    requires
        i <= s.len(),
    ensures
        r == scan_to(s@, c, i as int),
        i <= r <= s.len(),
{
    let mut j: usize = i;
    while j < s.len() && s[j] != c
        invariant
            i <= j <= s.len(),
            scan_to(s@, c, i as int) == scan_to(s@, c, j as int),
        decreases s.len() - j,
    {
        j = j + 1;
    }
    j
}

/// Whether `s` holds `c`.
pub fn contains_char(s: &Vec<char>, c: char) -> (r: bool)
    ensures
        r == has_char(s@, c),
{
    find_char_from(s, c, 0) < s.len()
}

/// `rfind_from(s, c, j)`, computed; `None` stands for -1.
pub fn rfind_char(s: &Vec<char>, c: char, j: usize) -> (r: Option<usize>)
    requires
        j <= s.len(),
    ensures
        match r {
            Some(k) => rfind_from(s@, c, j as int) == k && k < j,
            None => rfind_from(s@, c, j as int) == -1,
        },
{
    let mut e: usize = j;
    while e > 0 && s[e - 1] != c
        invariant
            e <= j <= s.len(),
            rfind_from(s@, c, j as int) == rfind_from(s@, c, e as int),
        decreases e,
    {
        e = e - 1;
    }
    if e == 0 {
        None
    } else {
        Some(e - 1)
    }
}

/// The string `a` followed by `b`.
pub fn concat_str(a: &str, b: &str) -> (r: String)
    ensures
        r@ == a@ + b@,
{
    let mut v = chars_of(a);
    append_chars(&mut v, &chars_of(b));
    string_of(&v)
}

/// `slashes(s)`, computed.
pub fn dots_to_slashes(s: &Vec<char>) -> (r: Vec<char>)
    ensures
        r@ == slashes(s@),
{
    let mut r: Vec<char> = Vec::new();
    let mut k: usize = 0;
    while k < s.len()
        invariant
            k <= s.len(),
            r@ == slashes(s@.subrange(0, k as int)),
        decreases s.len() - k,
    {
        let c = s[k];
        if c == '.' {
            r.push('/');
        } else {
            r.push(c);
        }
        k = k + 1;
        assert(r@ =~= slashes(s@.subrange(0, k as int)));
    }
    assert(s@.subrange(0, s.len() as int) =~= s@);
    r
}

/// `lines_of(s)`, computed.
pub fn split_lines(s: &Vec<char>) -> (r: Vec<Vec<char>>)
    ensures
        views(r@) == lines_of(s@),
{
    let mut out: Vec<Vec<char>> = Vec::new();
    let mut i: usize = 0;
    while i < s.len()
        invariant
            i <= s.len(),
            lines_of(s@) == views(out@) + lines_from(s@, i as int),
        decreases s.len() - i,
    {
        let j = find_char_from(s, '\n', i);
        let mut line = slice_chars(s, i, j);
        let ghost before = views(out@);
        if j < s.len() {
            if line.len() > 0 && line[line.len() - 1] == '\r' {
                line.pop();
            }
            assert(line@ == strip_cr(s@.subrange(i as int, j as int)));
            out.push(line);
            assert(views(out@) =~= before.push(line@));
            i = j + 1;
        } else {
            out.push(line);
            assert(views(out@) =~= before.push(line@));
            i = j;
        }
    }
    assert(views(out@) + lines_from(s@, i as int) =~= views(out@));
    out
}

/// `tokens(s)`, computed.
pub fn split_whitespace(s: &Vec<char>) -> (r: Vec<Vec<char>>)
    ensures
        views(r@) == tokens(s@),
{
    let mut out: Vec<Vec<char>> = Vec::new();
    let mut i: usize = 0;
    while i < s.len()
        invariant
            i <= s.len(),
            tokens(s@) == views(out@) + tokens_from(s@, i as int),
        decreases s.len() - i,
    {
        let mut a: usize = i;
        while a < s.len() && is_whitespace(s[a])
            invariant
                i <= a <= s.len(),
                skip_ws(s@, i as int) == skip_ws(s@, a as int),
            decreases s.len() - a,
        {
            a = a + 1;
        }
        if a == s.len() {
            i = a;
        } else {
            let mut b: usize = a;
            while b < s.len() && !is_whitespace(s[b])
                invariant
                    a <= b <= s.len(),
                    scan_word(s@, a as int) == scan_word(s@, b as int),
                decreases s.len() - b,
            {
                b = b + 1;
            }
            let word = slice_chars(s, a, b);
            let ghost before = views(out@);
            out.push(word);
            assert(views(out@) =~= before.push(word@));
            i = b;
        }
    }
    assert(views(out@) + tokens_from(s@, i as int) =~= views(out@));
    out
}

/// Whether `s` starts with `p`.
pub fn starts_with_chars(s: &Vec<char>, p: &[char]) -> (r: bool)
    ensures
        r == starts_with_seq(s@, p@),
{
    if p.len() > s.len() {
        return false;
    }
    let mut k: usize = 0;
    while k < p.len()
        invariant
            p.len() <= s.len(),
            k <= p.len(),
            forall|m: int| 0 <= m < k ==> s@[m] == p@[m],
        decreases p.len() - k,
    {
        if s[k] != p[k] {
            assert(s@.subrange(0, p@.len() as int)[k as int] != p@[k as int]);
            return false;
        }
        k = k + 1;
    }
    assert(s@.subrange(0, p@.len() as int) =~= p@);
    true
}

/// `trim_end(s)`, computed.
pub fn trim_end_chars(s: &Vec<char>) -> (r: Vec<char>)
    ensures
        r@ == trim_end(s@),
{
    let mut e: usize = s.len();
    while e > 0 && is_whitespace(s[e - 1])
        invariant
            e <= s.len(),
            rskip_ws(s@, s.len() as int) == rskip_ws(s@, e as int),
        decreases e,
    {
        e = e - 1;
    }
    slice_chars(s, 0, e)
}

/// `find_from(s, p, i)`, computed; `None` stands for -1.
pub fn find_seq_from(s: &Vec<char>, p: &[char], i: usize) -> (r: Option<usize>)
    requires
        i <= s.len(),
    ensures
        match r {
            Some(k) => find_from(s@, p@, i as int) == k && i <= k && k + p@.len() <= s.len(),
            None => find_from(s@, p@, i as int) == -1,
        },
{
    if p.len() > s.len() {
        return None;
    }
    let mut j: usize = i;
    while j <= s.len() - p.len()
        invariant
            i <= j,
            p.len() <= s.len(),
            find_from(s@, p@, i as int) == find_from(s@, p@, j as int),
        decreases s.len() - j,
    {
        let mut k: usize = 0;
        let mut same = true;
        while k < p.len()
            invariant
                j + p.len() <= s.len(),
                k <= p.len(),
                same == (forall|m: int| 0 <= m < k ==> s@[j + m] == p@[m]),
            decreases p.len() - k,
        {
            if s[j + k] != p[k] {
                same = false;
            }
            k = k + 1;
        }
        if same {
            assert(s@.subrange(j as int, j + p@.len()) =~= p@);
            return Some(j);
        }
        assert(s@.subrange(j as int, j + p@.len()) != p@) by {
            let m = choose|m: int| 0 <= m < p@.len() && s@[j + m] != p@[m];
            assert(s@.subrange(j as int, j + p@.len())[m] != p@[m]);
        }
        j = j + 1;
    }
    None
}

/// `find_from(s, p, 0)`, computed; `None` stands for -1.
pub fn find_seq(s: &Vec<char>, p: &[char]) -> (r: Option<usize>)
    ensures
        match r {
            Some(k) => find_from(s@, p@, 0) == k && k + p@.len() <= s.len(),
            None => find_from(s@, p@, 0) == -1,
        },
{
    find_seq_from(s, p, 0)
}

/// `replace_all(s, p, r)`, computed.
pub fn replace_chars(s: &Vec<char>, p: &Vec<char>, r: &Vec<char>) -> (out: Vec<char>)
    requires
        p@.len() > 0,
    ensures
        out@ == replace_all(s@, p@, r@),
{
    let mut out: Vec<char> = Vec::new();
    let mut i: usize = 0;
    loop
        invariant
            i <= s.len(),
            p@.len() > 0,
            replace_all(s@, p@, r@) == out@ + replace_from(s@, p@, r@, i as int),
        decreases s.len() - i,
    {
        match find_seq_from(s, p.as_slice(), i) {
            None => {
                let rest = slice_chars(s, i, s.len());
                append_chars(&mut out, &rest);
                return out;
            },
            Some(k) => {
                let ghost before = out@;
                let head = slice_chars(s, i, k);
                append_chars(&mut out, &head);
                append_chars(&mut out, r);
                assert(out@ == before + s@.subrange(i as int, k as int) + r@);
                assert(replace_from(s@, p@, r@, i as int) == s@.subrange(i as int, k as int) + r@
                    + replace_from(s@, p@, r@, k + p@.len()));
                assert(before + (s@.subrange(i as int, k as int) + r@ + replace_from(
                    s@,
                    p@,
                    r@,
                    k + p@.len(),
                )) =~= out@ + replace_from(s@, p@, r@, k + p@.len()));
                i = k + p.len();
            },
        }
    }
}

} // verus!
