//! The name-mapping engine: the class relation, nested-name resolution, the
//! member-table record parser, descriptor rewriting and the renaming table
//! it all produces.

use vstd::prelude::*;
use crate::ordering::{concat_lines, join_chars, join_lines, lemma_sorted_unique, sort_lines, sorted_lex};
use crate::table::NameTable;
use crate::text::{
    append_chars, chars_of, contains_char, dots_to_slashes, ends_with_char, eq_chars,
    find_char_from, find_from, find_seq, has_char, lemma_rfind_bounds, lemma_scan_to_bounds,
    lines_of, rfind_char, rfind_from, scan_to, slashes, slice_chars, split_lines,
    split_whitespace, starts_with_char, string_of, tokens, trim_end, trim_end_chars, views,
};

verus! {

// ---------------------------------------------------------------------------
// The model
// ---------------------------------------------------------------------------

/// A member record as the contracts see it.
pub enum MemberSpec {
    Field { declared_type: Seq<char>, name: Seq<char>, vendor_name: Seq<char> },
    Method { return_type: Seq<char>, name: Seq<char>, args: Seq<char>, vendor_name: Seq<char> },
}

/// The separator between the two names of a class header.
pub open spec fn arrow() -> Seq<char> {
    seq![' ', '-', '>', ' ']
}

/// The arrow token of a member line.
pub open spec fn arrow_token() -> Seq<char> {
    seq!['-', '>']
}

/// Vendor names that would collide with a keyword of the output format.
pub open spec fn is_reserved_keyword(v: Seq<char>) -> bool {
    v == seq!['i', 'f'] || v == seq!['d', 'o']
}

/// The vendor name of constructors.
pub open spec fn init_name() -> Seq<char> {
    seq!['<', 'i', 'n', 'i', 't', '>']
}

/// The vendor name of static initializers.
pub open spec fn clinit_name() -> Seq<char> {
    seq!['<', 'c', 'l', 'i', 'n', 'i', 't', '>']
}

/// Whether a line is a class header: it ends with `:` once trimmed (trimming
/// the start does not change how a line ends).
pub open spec fn is_class_header(line: Seq<char>) -> bool {
    ends_with_char(trim_end(line), ':')
}

/// The (verbose, intermediate) names of a class header, slash-normalised and
/// taken from the line with only its trailing whitespace removed; none
/// without the separator or with nothing between it and the colon.
pub open spec fn class_header(line: Seq<char>) -> Option<(Seq<char>, Seq<char>)> {
    let t = trim_end(line);
    let k = find_from(t, arrow(), 0);
    if !ends_with_char(t, ':') || k < 0 || k + 4 >= t.len() - 1 {
        None
    } else {
        Some((slashes(t.subrange(0, k)), slashes(t.subrange(k + 4, t.len() - 1))))
    }
}

/// `s` after its last `:` (all of `s` when it holds none).
pub open spec fn after_last_colon(s: Seq<char>) -> Seq<char> {
    s.subrange(rfind_from(s, ':', s.len() as int) + 1, s.len() as int)
}

/// The record of a member line, after the exclusion rules; methods are kept
/// only when `emit_methods` holds, and a method name must close its
/// argument list with `)`.
pub open spec fn member_record(line: Seq<char>, emit_methods: bool) -> Option<MemberSpec> {
    let t = tokens(line);
    if t.len() < 4 || t[2] != arrow_token() {
        None
    } else {
        let ty = after_last_colon(t[0]);
        let name = t[1];
        let vendor = t[3];
        let p = scan_to(name, '(', 0);
        if p < name.len() {
            let short = name.subrange(0, p);
            let args = name.subrange(p + 1, name.len() - 1);
            if !ends_with_char(name, ')') || !emit_methods || vendor == short || has_char(short, '$') || vendor == init_name()
                || vendor == clinit_name() {
                None
            } else {
                Some(MemberSpec::Method { return_type: ty, name: short, args, vendor_name: vendor })
            }
        } else if has_char(name, '$') || (vendor == name && (emit_methods || !is_reserved_keyword(
            vendor,
        ))) {
            None
        } else {
            Some(MemberSpec::Field { declared_type: ty, name, vendor_name: vendor })
        }
    }
}

/// The single-letter JVM code of a primitive type keyword.
pub open spec fn jvm_code(v: Seq<char>) -> Option<char> {
    if v == seq!['b', 'y', 't', 'e'] {
        Some('B')
    } else if v == seq!['c', 'h', 'a', 'r'] {
        Some('C')
    } else if v == seq!['d', 'o', 'u', 'b', 'l', 'e'] {
        Some('D')
    } else if v == seq!['f', 'l', 'o', 'a', 't'] {
        Some('F')
    } else if v == seq!['i', 'n', 't'] {
        Some('I')
    } else if v == seq!['l', 'o', 'n', 'g'] {
        Some('J')
    } else if v == seq!['s', 'h', 'o', 'r', 't'] {
        Some('S')
    } else if v == seq!['b', 'o', 'o', 'l', 'e', 'a', 'n'] {
        Some('Z')
    } else if v == seq!['v', 'o', 'i', 'd'] {
        Some('V')
    } else {
        None
    }
}

/// Resolution of `name[..k]` for the `$` positions `k` before `end`, the
/// rightmost first; the unresolved suffix `name[k..]` is kept verbatim.
pub open spec fn resolve_nested(m: Map<Seq<char>, Seq<char>>, name: Seq<char>, end: int) -> Option<
    Seq<char>,
>
    decreases end,
{
    let k = rfind_from(name, '$', end);
    if end <= 0 || end > name.len() || k < 0 {
        None
    } else {
        proof {
            lemma_rfind_bounds(name, '$', end);
        }
        let prefix = name.subrange(0, k);
        if m.contains_key(prefix) {
            Some(m[prefix] + name.subrange(k, name.len() as int))
        } else {
            resolve_nested(m, name, k)
        }
    }
}

/// What `name` maps to: an exact key first, then the nested resolution.
pub open spec fn resolve(m: Map<Seq<char>, Seq<char>>, name: Seq<char>) -> Option<Seq<char>> {
    if m.contains_key(name) {
        Some(m[name])
    } else {
        resolve_nested(m, name, name.len() as int)
    }
}

/// A verbose name through the auxiliary relation, then through the primary one.
pub open spec fn translate_name(
    aux: Map<Seq<char>, Seq<char>>,
    primary: Map<Seq<char>, Seq<char>>,
    name: Seq<char>,
) -> Option<Seq<char>> {
    match resolve(aux, name) {
        Some(x) => resolve(primary, x),
        None => None,
    }
}

/// Whether `v` ends with `[]`.
pub open spec fn is_array_type(v: Seq<char>) -> bool {
    v.len() >= 2 && v[v.len() - 2] == '[' && v[v.len() - 1] == ']'
}

/// The JVM descriptor of a source type.
pub open spec fn translate_type(
    v: Seq<char>,
    aux: Map<Seq<char>, Seq<char>>,
    primary: Map<Seq<char>, Seq<char>>,
) -> Seq<char>
    decreases v.len(),
{
    match jvm_code(v) {
        Some(c) => seq![c],
        None => if is_array_type(v) {
            if v.len() == 2 {
                seq!['[', ']']
            } else {
                seq!['['] + translate_type(v.subrange(0, v.len() - 2), aux, primary)
            }
        } else {
            let c = slashes(v);
            let r = match translate_name(aux, primary, c) {
                Some(x) => x,
                None => c,
            };
            seq!['L'] + r + seq![';']
        },
    }
}

/// The descriptors of the comma-separated types of `s` from index `i` on,
/// empty segments skipped.
pub open spec fn args_descriptor_from(
    s: Seq<char>,
    i: int,
    aux: Map<Seq<char>, Seq<char>>,
    primary: Map<Seq<char>, Seq<char>>,
) -> Seq<char>
    decreases s.len() - i,
{
    if i < 0 || i > s.len() {
        Seq::empty()
    } else {
        let j = scan_to(s, ',', i);
        proof {
            lemma_scan_to_bounds(s, ',', i);
        }
        let d = if j > i {
            translate_type(s.subrange(i, j), aux, primary)
        } else {
            Seq::empty()
        };
        if j >= s.len() {
            d
        } else {
            d + args_descriptor_from(s, j + 1, aux, primary)
        }
    }
}

/// The descriptor of a method: `(` argument descriptors `)` return descriptor.
pub open spec fn descriptor(
    args: Seq<char>,
    return_type: Seq<char>,
    aux: Map<Seq<char>, Seq<char>>,
    primary: Map<Seq<char>, Seq<char>>,
) -> Seq<char> {
    seq!['('] + args_descriptor_from(args, 0, aux, primary) + seq![')'] + translate_type(
        return_type,
        aux,
        primary,
    )
}

/// The output line of a member of `class`.
pub open spec fn member_output(
    class: Seq<char>,
    m: MemberSpec,
    emit_methods: bool,
    aux: Map<Seq<char>, Seq<char>>,
    primary: Map<Seq<char>, Seq<char>>,
) -> Seq<char> {
    match m {
        MemberSpec::Field { name, vendor_name, .. } => class + seq![' '] + vendor_name + (if !emit_methods
            && is_reserved_keyword(vendor_name) {
            seq!['_']
        } else {
            Seq::empty()
        }) + seq![' '] + name,
        MemberSpec::Method { return_type, name, args, vendor_name } => class + seq![' ']
            + vendor_name + seq![' '] + descriptor(args, return_type, aux, primary) + seq![' ']
            + name,
    }
}

/// The comment lines among the first `n` lines.
pub open spec fn comments_upto(lines: Seq<Seq<char>>, n: int) -> Seq<Seq<char>>
    decreases n,
{
    if n <= 0 || n > lines.len() {
        Seq::empty()
    } else {
        let prev = comments_upto(lines, n - 1);
        if starts_with_char(lines[n - 1], '#') {
            prev.push(lines[n - 1])
        } else {
            prev
        }
    }
}

/// The two names of a primary-relation line that splits into exactly two tokens.
pub open spec fn name_pair(line: Seq<char>) -> Option<(Seq<char>, Seq<char>)> {
    let t = tokens(line);
    if t.len() == 2 {
        Some((t[0], t[1]))
    } else {
        None
    }
}

/// The primary relation built from the first `n` lines.
pub open spec fn primary_upto(lines: Seq<Seq<char>>, n: int) -> Map<Seq<char>, Seq<char>>
    decreases n,
{
    if n <= 0 || n > lines.len() {
        Map::empty()
    } else {
        let prev = primary_upto(lines, n - 1);
        if starts_with_char(lines[n - 1], '#') {
            prev
        } else {
            match name_pair(lines[n - 1]) {
                Some((a, b)) => prev.insert(a, b),
                None => prev,
            }
        }
    }
}

/// `base` with the class headers among the first `n` lines added.
pub open spec fn headers_upto(
    base: Map<Seq<char>, Seq<char>>,
    lines: Seq<Seq<char>>,
    n: int,
) -> Map<Seq<char>, Seq<char>>
    decreases n,
{
    if n <= 0 || n > lines.len() {
        base
    } else {
        let prev = headers_upto(base, lines, n - 1);
        match class_header(lines[n - 1]) {
            Some((a, b)) => prev.insert(a, b),
            None => prev,
        }
    }
}

/// The active class after a class header line.
pub open spec fn header_context(line: Seq<char>, primary: Map<Seq<char>, Seq<char>>) -> Option<
    Seq<char>,
> {
    match class_header(line) {
        Some((_, obf)) => resolve(primary, obf),
        None => None,
    }
}

/// The active class and the member output lines after the first `n` lines of
/// the member table.
pub open spec fn scan_upto(
    lines: Seq<Seq<char>>,
    n: int,
    emit_methods: bool,
    aux: Map<Seq<char>, Seq<char>>,
    primary: Map<Seq<char>, Seq<char>>,
) -> (Option<Seq<char>>, Seq<Seq<char>>)
    decreases n,
{
    if n <= 0 || n > lines.len() {
        (None, Seq::empty())
    } else {
        let prev = scan_upto(lines, n - 1, emit_methods, aux, primary);
        let line = lines[n - 1];
        if starts_with_char(line, '#') {
            prev
        } else if is_class_header(line) {
            (header_context(line, primary), prev.1)
        } else {
            match prev.0 {
                None => prev,
                Some(class) => match member_record(line, emit_methods) {
                    Some(m) => (prev.0, prev.1.push(member_output(class, m, emit_methods, aux, primary))),
                    None => prev,
                },
            }
        }
    }
}

/// The auxiliary relation of a member table: built only when methods are emitted.
pub open spec fn auxiliary(mojang: Seq<char>, emit_methods: bool) -> Map<Seq<char>, Seq<char>> {
    let lines = lines_of(mojang);
    if emit_methods {
        headers_upto(Map::empty(), lines, lines.len() as int)
    } else {
        Map::empty()
    }
}

/// The unsorted member output lines: one per surviving member.
pub open spec fn output_records(m: MapperView, mojang: Seq<char>, emit_methods: bool) -> Seq<
    Seq<char>,
> {
    let lines = lines_of(mojang);
    scan_upto(
        lines,
        lines.len() as int,
        emit_methods,
        auxiliary(mojang, emit_methods),
        m.classes,
    ).1
}

/// `r` is the `head` lines in their order, then `records` sorted
/// lexicographically, all joined by newlines.
pub open spec fn is_sorted_join(r: Seq<char>, head: Seq<Seq<char>>, records: Seq<Seq<char>>) -> bool {
    exists|s: Seq<Seq<char>>|
        #[trigger] sorted_lex(s) && s.to_multiset() == records.to_multiset() && r == join_lines(
            head + s,
        )
}

// ---------------------------------------------------------------------------
// Records and class context
// ---------------------------------------------------------------------------

/// A parsed member line.
pub enum MappedMember {
    Field { field_type: String, name: String, obf_name: String },
    Method { return_type: String, name: String, args: String, obf_name: String },
}

impl View for MappedMember {
    type V = MemberSpec;

    open spec fn view(&self) -> MemberSpec {
        match self {
            MappedMember::Field { field_type, name, obf_name } => MemberSpec::Field {
                declared_type: field_type@,
                name: name@,
                vendor_name: obf_name@,
            },
            MappedMember::Method { return_type, name, args, obf_name } => MemberSpec::Method {
                return_type: return_type@,
                name: name@,
                args: args@,
                vendor_name: obf_name@,
            },
        }
    }
}

/// The class whose members are being read, if its name could be mapped.
pub enum ClassContext {
    NoActiveClass,
    InClass(Vec<char>),
}

impl View for ClassContext {
    type V = Option<Seq<char>>;

    open spec fn view(&self) -> Option<Seq<char>> {
        match self {
            ClassContext::NoActiveClass => None,
            ClassContext::InClass(c) => Some(c@),
        }
    }
}

/// The view of an optional character vector.
pub open spec fn opt_view(o: Option<Vec<char>>) -> Option<Seq<char>> {
    match o {
        Some(v) => Some(v@),
        None => None,
    }
}

/// The view of an optional string.
pub open spec fn str_opt_view(o: Option<String>) -> Option<Seq<char>> {
    match o {
        Some(v) => Some(v@),
        None => None,
    }
}

/// The view of an optional member.
pub open spec fn member_view(o: Option<MappedMember>) -> Option<MemberSpec> {
    match o {
        Some(m) => Some(m@),
        None => None,
    }
}

/// The view of an optional pair of character vectors.
pub open spec fn pair_view(o: Option<(Vec<char>, Vec<char>)>) -> Option<(Seq<char>, Seq<char>)> {
    match o {
        Some((a, b)) => Some((a@, b@)),
        None => None,
    }
}

// ---------------------------------------------------------------------------
// Computation on characters
// ---------------------------------------------------------------------------

/// `resolve`, computed.
fn resolve_chars(table: &NameTable, name: &Vec<char>) -> (r: Option<Vec<char>>)
    ensures
        opt_view(r) == resolve(table@, name@),
{
    let key = string_of(name);
    match table.get(key.as_str()) {
        Some(v) => {
            return Some(chars_of(v.as_str()));
        },
        None => {},
    }
    let mut end: usize = name.len();
    loop
        invariant
            end <= name.len(),
            !table@.contains_key(name@),
            resolve(table@, name@) == resolve_nested(table@, name@, end as int),
        decreases end,
    {
        match rfind_char(name, '$', end) {
            None => {
                return None;
            },
            Some(k) => {
                proof {
                    lemma_rfind_bounds(name@, '$', end as int);
                }
                let prefix = slice_chars(name, 0, k);
                let pkey = string_of(&prefix);
                match table.get(pkey.as_str()) {
                    Some(v) => {
                        let mut out = chars_of(v.as_str());
                        let suffix = slice_chars(name, k, name.len());
                        append_chars(&mut out, &suffix);
                        return Some(out);
                    },
                    None => {
                        end = k;
                    },
                }
            },
        }
    }
}

/// `class_header`, computed.
fn parse_class_header(line: &Vec<char>) -> (r: Option<(Vec<char>, Vec<char>)>)
    ensures
        pair_view(r) == class_header(line@),
{
    let t = trim_end_chars(line);
    if t.len() == 0 || t[t.len() - 1] != ':' {
        return None;
    }
    match find_seq(&t, &[' ', '-', '>', ' ']) {
        None => None,
        Some(k) => {
            if k + 4 >= t.len() - 1 {
                None
            } else {
                let left = slice_chars(&t, 0, k);
                let right = slice_chars(&t, k + 4, t.len() - 1);
                Some((dots_to_slashes(&left), dots_to_slashes(&right)))
            }
        },
    }
}

/// `is_class_header`, computed.
fn is_header_line(line: &Vec<char>) -> (r: bool)
    ensures
        r == is_class_header(line@),
{
    let t = trim_end_chars(line);
    t.len() > 0 && t[t.len() - 1] == ':'
}

/// `member_record`, computed.
fn parse_member(line: &Vec<char>, emit_methods: bool) -> (r: Option<MappedMember>)
    ensures
        member_view(r) == member_record(line@, emit_methods),
{
    let toks = split_whitespace(line);
    proof {
        assert(tokens(line@) == views(toks@));
    }
    if toks.len() < 4 || !eq_chars(&toks[2], &['-', '>']) {
        return None;
    }
    let t0 = &toks[0];
    let ty = match rfind_char(t0, ':', t0.len()) {
        Some(k) => slice_chars(t0, k + 1, t0.len()),
        None => slice_chars(t0, 0, t0.len()),
    };
    let name = &toks[1];
    let vendor = &toks[3];
    assert(ty@ == after_last_colon(tokens(line@)[0]));
    assert(name@ == tokens(line@)[1]);
    assert(vendor@ == tokens(line@)[3]);
    let p = find_char_from(name, '(', 0);
    if p < name.len() {
        if !emit_methods {
            return None;
        }
        if name[name.len() - 1] != ')' {
            return None;
        }
        proof {
            lemma_scan_to_bounds(name@, '(', 0);
        }
        let short = slice_chars(name, 0, p);
        let args = slice_chars(name, p + 1, name.len() - 1);
        if eq_chars(vendor, short.as_slice()) || contains_char(&short, '$') || eq_chars(
            vendor,
            &['<', 'i', 'n', 'i', 't', '>'],
        ) || eq_chars(vendor, &['<', 'c', 'l', 'i', 'n', 'i', 't', '>']) {
            return None;
        }
        Some(
            MappedMember::Method {
                return_type: string_of(&ty),
                name: string_of(&short),
                args: string_of(&args),
                obf_name: string_of(vendor),
            },
        )
    } else {
        let keyword = eq_chars(vendor, &['i', 'f']) || eq_chars(vendor, &['d', 'o']);
        if contains_char(name, '$') || (eq_chars(vendor, name.as_slice()) && (emit_methods
            || !keyword)) {
            return None;
        }
        Some(
            MappedMember::Field {
                field_type: string_of(&ty),
                name: string_of(name),
                obf_name: string_of(vendor),
            },
        )
    }
}

/// `jvm_code`, computed.
fn jvm_code_of(v: &Vec<char>) -> (r: Option<char>)
    ensures
        r == jvm_code(v@),
{
    if eq_chars(v, &['b', 'y', 't', 'e']) {
        Some('B')
    } else if eq_chars(v, &['c', 'h', 'a', 'r']) {
        Some('C')
    } else if eq_chars(v, &['d', 'o', 'u', 'b', 'l', 'e']) {
        Some('D')
    } else if eq_chars(v, &['f', 'l', 'o', 'a', 't']) {
        Some('F')
    } else if eq_chars(v, &['i', 'n', 't']) {
        Some('I')
    } else if eq_chars(v, &['l', 'o', 'n', 'g']) {
        Some('J')
    } else if eq_chars(v, &['s', 'h', 'o', 'r', 't']) {
        Some('S')
    } else if eq_chars(v, &['b', 'o', 'o', 'l', 'e', 'a', 'n']) {
        Some('Z')
    } else if eq_chars(v, &['v', 'o', 'i', 'd']) {
        Some('V')
    } else {
        None
    }
}

/// `translate_name`, computed.
fn translate_name_chars(aux: &NameTable, primary: &NameTable, name: &Vec<char>) -> (r: Option<
    Vec<char>,
>)
    ensures
        opt_view(r) == translate_name(aux@, primary@, name@),
{
    match resolve_chars(aux, name) {
        Some(x) => resolve_chars(primary, &x),
        None => None,
    }
}

/// `translate_type`, computed.
fn translate_type_chars(value: &Vec<char>, aux: &NameTable, primary: &NameTable) -> (r: Vec<char>)
    ensures
        r@ == translate_type(value@, aux@, primary@),
    decreases value.len(),
{
    match jvm_code_of(value) {
        Some(c) => {
            let mut r: Vec<char> = Vec::new();
            r.push(c);
            assert(r@ =~= seq![c]);
            r
        },
        None => {
            let n = value.len();
            if n >= 2 && value[n - 2] == '[' && value[n - 1] == ']' {
                let mut r: Vec<char> = Vec::new();
                r.push('[');
                if n == 2 {
                    r.push(']');
                    assert(r@ =~= seq!['[', ']']);
                } else {
                    let inner = slice_chars(value, 0, n - 2);
                    let seg = translate_type_chars(&inner, aux, primary);
                    append_chars(&mut r, &seg);
                    assert(r@ =~= seq!['['] + seg@);
                }
                r
            } else {
                let c = dots_to_slashes(value);
                let resolved = match translate_name_chars(aux, primary, &c) {
                    Some(x) => x,
                    None => c,
                };
                let mut r: Vec<char> = Vec::new();
                r.push('L');
                append_chars(&mut r, &resolved);
                r.push(';');
                assert(r@ =~= seq!['L'] + resolved@ + seq![';']);
                r
            }
        },
    }
}

/// `descriptor`, computed.
fn descriptor_chars(
    args: &Vec<char>,
    return_type: &Vec<char>,
    aux: &NameTable,
    primary: &NameTable,
) -> (r: Vec<char>)
    ensures
        r@ == descriptor(args@, return_type@, aux@, primary@),
{
    let mut out: Vec<char> = Vec::new();
    out.push('(');
    let ghost whole = seq!['('] + args_descriptor_from(args@, 0, aux@, primary@);
    let mut i: usize = 0;
    let mut done = false;
    while !done
        invariant
            i <= args.len(),
            !done ==> whole == out@ + args_descriptor_from(args@, i as int, aux@, primary@),
            done ==> whole == out@,
        decreases args.len() + 1 - i, if done { 0int } else { 1int },
    {
        let j = find_char_from(args, ',', i);
        let ghost before = out@;
        if j > i {
            let piece = slice_chars(args, i, j);
            let t = translate_type_chars(&piece, aux, primary);
            append_chars(&mut out, &t);
        }
        if j >= args.len() {
            assert(whole == out@) by {
                if j <= i {
                    assert(out@ =~= before + Seq::<char>::empty());
                }
            }
            done = true;
        } else {
            assert(whole == out@ + args_descriptor_from(args@, j + 1, aux@, primary@)) by {
                if j <= i {
                    assert(out@ =~= before + Seq::<char>::empty());
                }
                assert(args_descriptor_from(args@, i as int, aux@, primary@) == (if j > i {
                    translate_type(args@.subrange(i as int, j as int), aux@, primary@)
                } else {
                    Seq::empty()
                }) + args_descriptor_from(args@, j + 1, aux@, primary@));
            }
            i = j + 1;
        }
    }
    out.push(')');
    let ret = translate_type_chars(return_type, aux, primary);
    append_chars(&mut out, &ret);
    assert(out@ =~= whole + seq![')'] + ret@);
    out
}

/// `member_output`, computed.
fn format_member(
    class: &Vec<char>,
    m: &MappedMember,
    emit_methods: bool,
    aux: &NameTable,
    primary: &NameTable,
) -> (r: Vec<char>)
    ensures
        r@ == member_output(class@, m@, emit_methods, aux@, primary@),
{
    let mut out = slice_chars(class, 0, class.len());
    out.push(' ');
    match m {
        MappedMember::Field { name, obf_name, .. } => {
            let vendor = chars_of(obf_name.as_str());
            append_chars(&mut out, &vendor);
            let keyword = eq_chars(&vendor, &['i', 'f']) || eq_chars(&vendor, &['d', 'o']);
            let ghost mid = out@;
            if !emit_methods && keyword {
                out.push('_');
            }
            let ghost suffix = out@;
            out.push(' ');
            let n = chars_of(name.as_str());
            append_chars(&mut out, &n);
            assert(out@ =~= class@ + seq![' '] + obf_name@ + (if !emit_methods
                && is_reserved_keyword(obf_name@) {
                seq!['_']
            } else {
                Seq::empty()
            }) + seq![' '] + name@);
        },
        MappedMember::Method { return_type, name, args, obf_name } => {
            let vendor = chars_of(obf_name.as_str());
            append_chars(&mut out, &vendor);
            out.push(' ');
            let a = chars_of(args.as_str());
            let rt = chars_of(return_type.as_str());
            let d = descriptor_chars(&a, &rt, aux, primary);
            append_chars(&mut out, &d);
            out.push(' ');
            let n = chars_of(name.as_str());
            append_chars(&mut out, &n);
            assert(out@ =~= class@ + seq![' '] + obf_name@ + seq![' '] + d@ + seq![' '] + name@);
        },
    }
    out
}

/// Adds the class headers of `lines` to `out`.
fn load_header_lines(lines: &Vec<Vec<char>>, out: &mut NameTable)
    ensures
        final(out)@ == headers_upto(old(out)@, views(lines@), lines.len() as int),
{
    let mut i: usize = 0;
    while i < lines.len()
        invariant
            i <= lines.len(),
            out@ == headers_upto(old(out)@, views(lines@), i as int),
        decreases lines.len() - i,
    {
        assert(views(lines@)[i as int] == lines@[i as int]@);
        match parse_class_header(&lines[i]) {
            Some((a, b)) => {
                let ka = string_of(&a);
                let kb = string_of(&b);
                out.insert(ka, kb);
            },
            None => {},
        }
        i = i + 1;
    }
}

// ---------------------------------------------------------------------------
// The mapper
// ---------------------------------------------------------------------------

/// What a mapper holds, as the contracts see it.
pub struct MapperView {
    pub comments: Seq<Seq<char>>,
    pub classes: Map<Seq<char>, Seq<char>>,
}

/// Converts, merges and renames mapping files: holds the comment lines and the
/// obfuscated-to-public class relation read from a class mapping text.
pub struct Mapper {
    comments: Vec<Vec<char>>,
    obf_2_bukkit: NameTable,
}

impl View for Mapper {
    type V = MapperView;

    closed spec fn view(&self) -> MapperView {
        MapperView { comments: views(self.comments@), classes: self.obf_2_bukkit@ }
    }
}

impl Mapper {
    /// Reads a class mapping text: `#` lines are kept as comments, and every
    /// other line of exactly two whitespace-separated names adds a pair.
    pub fn new(bukkit: &str) -> (r: Mapper)
        ensures
            ({
                let lines = lines_of(bukkit@);
                r@.comments == comments_upto(lines, lines.len() as int) && r@.classes
                    == primary_upto(lines, lines.len() as int)
            }),
    {
        let text = chars_of(bukkit);
        let lines = split_lines(&text);
        let ghost ls = views(lines@);
        let mut comments: Vec<Vec<char>> = Vec::new();
        let mut table = NameTable::new();
        let mut i: usize = 0;
        while i < lines.len()
            invariant
                i <= lines.len(),
                ls == views(lines@),
                views(comments@) == comments_upto(ls, i as int),
                table@ == primary_upto(ls, i as int),
            decreases lines.len() - i,
        {
            let line = &lines[i];
            assert(ls[i as int] == line@);
            if line.len() > 0 && line[0] == '#' {
                let ghost before = views(comments@);
                comments.push(slice_chars(line, 0, line.len()));
                assert(line@.subrange(0, line@.len() as int) =~= line@);
                assert(views(comments@) =~= before.push(line@));
            } else {
                match Self::try_parse_bukkit(line) {
                    Some((a, b)) => {
                        table.insert(a, b);
                    },
                    None => {},
                }
            }
            i = i + 1;
        }
        Mapper { comments, obf_2_bukkit: table }
    }

    /// The two names of a primary-relation line.
    fn try_parse_bukkit(line: &Vec<char>) -> (r: Option<(String, String)>)
        ensures
            match r {
                Some((a, b)) => name_pair(line@) == Some((a@, b@)),
                None => name_pair(line@) is None,
            },
    {
        let toks = split_whitespace(line);
        if toks.len() != 2 {
            return None;
        }
        let a = string_of(&toks[0]);
        let b = string_of(&toks[1]);
        assert(views(toks@)[0] == toks@[0]@ && views(toks@)[1] == toks@[1]@);
        Some((a, b))
    }

    /// Produces the renaming table for a member table: the comment lines of
    /// the class mappings in their order, then one line per surviving member
    /// of each class whose name maps, sorted, all joined by newlines. Methods are included only when `members` holds.
    pub fn make_csrg(&mut self, mojang: &str, members: bool) -> (r: String)
        ensures
            final(self)@ == old(self)@,
            is_sorted_join(r@, old(self)@.comments, output_records(old(self)@, mojang@, members)),
    {
        let text = chars_of(mojang);
        let lines = split_lines(&text);
        let ghost ls = views(lines@);
        let mut aux = NameTable::new();
        if members {
            load_header_lines(&lines, &mut aux);
        }
        if !members {
            assert(aux@ =~= auxiliary(mojang@, members));
        }
        let mut out: Vec<Vec<char>> = Vec::new();
        let ghost head = Seq::<Seq<char>>::empty();
        assert(views(out@) =~= head);
        let mut context = ClassContext::NoActiveClass;
        let mut i: usize = 0;
        while i < lines.len()
            invariant
                i <= lines.len(),
                ls == views(lines@),
                head == Seq::<Seq<char>>::empty(),
                views(out@) == head + scan_upto(ls, i as int, members, aux@, self@.classes).1,
                context@ == scan_upto(ls, i as int, members, aux@, self@.classes).0,
            decreases lines.len() - i,
        {
            let line = &lines[i];
            assert(ls[i as int] == line@);
            if line.len() > 0 && line[0] == '#' {
            } else if is_header_line(line) {
                context =
                match parse_class_header(line) {
                    Some((_, obf)) => match resolve_chars(&self.obf_2_bukkit, &obf) {
                        Some(name) => ClassContext::InClass(name),
                        None => ClassContext::NoActiveClass,
                    },
                    None => ClassContext::NoActiveClass,
                };
            } else {
                match &context {
                    ClassContext::InClass(class) => {
                        match parse_member(line, members) {
                            Some(m) => {
                                let ghost before = views(out@);
                                let formatted = format_member(
                                    class,
                                    &m,
                                    members,
                                    &aux,
                                    &self.obf_2_bukkit,
                                );
                                out.push(formatted);
                                assert(views(out@) =~= before.push(formatted@));
                            },
                            None => {},
                        }
                    },
                    ClassContext::NoActiveClass => {},
                }
            }
            i = i + 1;
        }
        assert(views(out@) =~= output_records(self@, mojang@, members));
        sort_lines(&mut out);
        let all = concat_lines(&self.comments, &out);
        let joined = join_chars(&all);
        let r = string_of(&joined);
        assert(sorted_lex(views(out@)));
        r
    }

    /// Resolves `value` in `map`: an exact key first, else the nested
    /// resolution that strips `$`-separated suffixes from the right.
    pub fn mapped_value(value: &str, map: &NameTable) -> (r: Option<String>)
        ensures
            str_opt_view(r) == resolve(map@, value@),
    {
        let v = chars_of(value);
        match resolve_chars(map, &v) {
            Some(x) => Some(string_of(&x)),
            None => None,
        }
    }

    /// The public name of an obfuscated class name.
    pub fn get_bukkit_name(&self, obfuscated: &str) -> (r: Option<String>)
        ensures
            str_opt_view(r) == resolve(self@.classes, obfuscated@),
    {
        Self::mapped_value(obfuscated, &self.obf_2_bukkit)
    }

    /// The public name of a verbose class name, through `mappings` (verbose
    /// to obfuscated) and then the class relation.
    pub fn translate_name(&self, mojang: &str, mappings: &NameTable) -> (r: Option<String>)
        ensures
            str_opt_view(r) == translate_name(mappings@, self@.classes, mojang@),
    {
        let v = chars_of(mojang);
        match translate_name_chars(mappings, &self.obf_2_bukkit, &v) {
            Some(x) => Some(string_of(&x)),
            None => None,
        }
    }

    /// Adds the class headers of a member table to `out`, verbose name to
    /// obfuscated name.
    pub fn load_mojang(mojang: &str, out: &mut NameTable)
        ensures
            ({
                let lines = lines_of(mojang@);
                final(out)@ == headers_upto(old(out)@, lines, lines.len() as int)
            }),
    {
        let text = chars_of(mojang);
        let lines = split_lines(&text);
        load_header_lines(&lines, out);
    }

    /// The (verbose, obfuscated) names of a class header line.
    pub fn try_parse_class_line(line: &str) -> (r: Option<(String, String)>)
        ensures
            match r {
                Some((a, b)) => class_header(line@) == Some((a@, b@)),
                None => class_header(line@) is None,
            },
    {
        let v = chars_of(line);
        match parse_class_header(&v) {
            Some((a, b)) => Some((string_of(&a), string_of(&b))),
            None => None,
        }
    }

    /// The record of a member line; method lines give none unless `methods`.
    pub fn try_parse_member_line(line: &str, methods: bool) -> (r: Option<MappedMember>)
        ensures
            member_view(r) == member_record(line@, methods),
    {
        let v = chars_of(line);
        parse_member(&v, methods)
    }

    /// The descriptor of a method with the given argument list and return type.
    pub fn make_csrg_descriptor(&mut self, args: &str, return_type: &str, mappings: &NameTable) -> (r:
        String)
        ensures
            final(self)@ == old(self)@,
            r@ == descriptor(args@, return_type@, mappings@, old(self)@.classes),
    {
        let a = chars_of(args);
        let t = chars_of(return_type);
        let d = descriptor_chars(&a, &t, mappings, &self.obf_2_bukkit);
        string_of(&d)
    }

    /// The JVM code of a primitive type keyword.
    pub fn get_jvm_type(value: &str) -> (r: Option<char>)
        ensures
            r == jvm_code(value@),
    {
        let v = chars_of(value);
        jvm_code_of(&v)
    }

    /// The descriptor of a source type.
    pub fn convert_type(&self, value: &str, mappings: &NameTable) -> (r: String)
        ensures
            r@ == translate_type(value@, mappings@, self@.classes),
    {
        let v = chars_of(value);
        let t = translate_type_chars(&v, mappings, &self.obf_2_bukkit);
        string_of(&t)
    }
}

// ---------------------------------------------------------------------------
// Facts about the mapping
// ---------------------------------------------------------------------------

/// A name without `$` that is no key of the relation does not resolve.
pub proof fn lemma_plain_miss(m: Map<Seq<char>, Seq<char>>, name: Seq<char>)
    requires
        !has_char(name, '$'),
        !m.contains_key(name),
    ensures
        resolve(m, name) is None,
{
    lemma_scan_to_bounds(name, '$', 0);
    lemma_rfind_bounds(name, '$', name.len() as int);
}

/// Resolving a key of the relation gives its value unchanged, and resolving
/// a name without `$` that is no key fails rather than echoing the name.
pub proof fn lemma_resolve_identity(m: Map<Seq<char>, Seq<char>>, name: Seq<char>)
    ensures
        m.contains_key(name) ==> resolve(m, name) == Some(m[name]),
        !m.contains_key(name) && !has_char(name, '$') ==> resolve(m, name) is None,
{
    if !m.contains_key(name) && !has_char(name, '$') {
        lemma_plain_miss(m, name);
    }
}

proof fn lemma_rfind_at_least(s: Seq<char>, c: char, k: int, end: int)
    requires
        0 <= k < end <= s.len(),
        s[k] == c,
    ensures
        k <= rfind_from(s, c, end) < end,
    decreases end,
{
    if s[end - 1] != c {
        lemma_rfind_at_least(s, c, k, end - 1);
    }
}

proof fn lemma_resolve_nested_rightmost(
    m: Map<Seq<char>, Seq<char>>,
    name: Seq<char>,
    k: int,
    end: int,
)
    requires
        0 <= k < end <= name.len(),
        name[k] == '$',
        m.contains_key(name.subrange(0, k)),
        forall|j: int|
            k < j < name.len() && name[j] == '$' ==> !m.contains_key(#[trigger] name.subrange(0, j)),
    ensures
        resolve_nested(m, name, end) == Some(m[name.subrange(0, k)] + name.subrange(
            k,
            name.len() as int,
        )),
    decreases end,
{
    lemma_rfind_at_least(name, '$', k, end);
    lemma_rfind_bounds(name, '$', end);
    let j = rfind_from(name, '$', end);
    if j > k {
        lemma_resolve_nested_rightmost(m, name, k, j);
    }
}

/// A name that is no key resolves through its longest `$`-delimited prefix
/// that is a key: the prefix is replaced and the rest kept verbatim, and no
/// shorter prefix is tried first.
pub proof fn lemma_resolve_rightmost(m: Map<Seq<char>, Seq<char>>, name: Seq<char>, k: int)
    requires
        !m.contains_key(name),
        0 <= k < name.len(),
        name[k] == '$',
        m.contains_key(name.subrange(0, k)),
        forall|j: int|
            k < j < name.len() && name[j] == '$' ==> !m.contains_key(#[trigger] name.subrange(0, j)),
    ensures
        resolve(m, name) == Some(m[name.subrange(0, k)] + name.subrange(k, name.len() as int)),
{
    lemma_resolve_nested_rightmost(m, name, k, name.len() as int);
}

/// A class type that no relation maps is written `L` + its slash-normalised
/// name + `;`.
pub proof fn lemma_class_fallback(
    v: Seq<char>,
    aux: Map<Seq<char>, Seq<char>>,
    primary: Map<Seq<char>, Seq<char>>,
)
    requires
        jvm_code(v) is None,
        !is_array_type(v),
        resolve(aux, slashes(v)) is None,
    ensures
        translate_type(v, aux, primary) == seq!['L'] + slashes(v) + seq![';'],
{
}

/// Constructors and static initializers never become method records, and a
/// record's vendor name differs from its source name unless it is a field
/// whose vendor name is a reserved keyword in a fields-only pass.
pub proof fn lemma_member_exclusions(line: Seq<char>, emit_methods: bool)
    ensures
        match member_record(line, emit_methods) {
            Some(MemberSpec::Method { name, vendor_name, .. }) => emit_methods && vendor_name
                != init_name() && vendor_name != clinit_name() && vendor_name != name && !has_char(
                name,
                '$',
            ),
            Some(MemberSpec::Field { name, vendor_name, .. }) => !has_char(name, '$') && (
            vendor_name != name || (!emit_methods && is_reserved_keyword(vendor_name))),
            None => true,
        },
{
}

/// In a fields-only pass a field whose vendor name is a reserved keyword is
/// written with `_` appended to the vendor name.
pub proof fn lemma_keyword_suffix(
    class: Seq<char>,
    declared_type: Seq<char>,
    name: Seq<char>,
    vendor_name: Seq<char>,
    aux: Map<Seq<char>, Seq<char>>,
    primary: Map<Seq<char>, Seq<char>>,
)
    requires
        is_reserved_keyword(vendor_name),
    ensures
        member_output(
            class,
            MemberSpec::Field { declared_type, name, vendor_name },
            false,
            aux,
            primary,
        ) == class + seq![' '] + vendor_name + seq!['_', ' '] + name,
{
    assert(seq!['_'] + seq![' '] =~= seq!['_', ' ']);
    assert(class + seq![' '] + vendor_name + seq!['_'] + seq![' '] + name =~= class + seq![' ']
        + vendor_name + seq!['_', ' '] + name);
}

/// Two outputs for the same mapper, member table and flag are identical.
pub proof fn lemma_output_deterministic(
    m: MapperView,
    mojang: Seq<char>,
    emit_methods: bool,
    r1: Seq<char>,
    r2: Seq<char>,
)
    requires
        is_sorted_join(r1, m.comments, output_records(m, mojang, emit_methods)),
        is_sorted_join(r2, m.comments, output_records(m, mojang, emit_methods)),
    ensures
        r1 == r2,
{
    let recs = output_records(m, mojang, emit_methods);
    let s1 = choose|s: Seq<Seq<char>>|
        #[trigger] sorted_lex(s) && s.to_multiset() == recs.to_multiset() && r1 == join_lines(
            m.comments + s,
        );
    let s2 = choose|s: Seq<Seq<char>>|
        #[trigger] sorted_lex(s) && s.to_multiset() == recs.to_multiset() && r2 == join_lines(
            m.comments + s,
        );
    lemma_sorted_unique(s1, s2);
}

} // verus!
