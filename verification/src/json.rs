//! A JSON document tree and a verified serializer and parser for it.
//!
//! The serializer emits compact JSON: no whitespace, strings with `"` and
//! `\` escaped and control characters written as `\b`, `\t`, `\n`, `\f`,
//! `\r` or a four-digit hexadecimal escape, numbers as unsigned decimal
//! integers.  The parser accepts that output and, more liberally,
//! whitespace between tokens, the standard escapes including `\uXXXX` and
//! surrogate pairs (an unrecognized escape or a lone surrogate is an
//! error), objects and arrays in any member order, and number tokens
//! beyond the unsigned integers (fractions, exponents, signs), which are
//! carried as opaque text.  Both directions are specified by spec
//! functions, and the parser is proved to invert the serializer.

use vstd::prelude::*;

verus! {

broadcast use vstd::seq::axiom_seq_index_decreases, vstd::seq::axiom_seq_subrange_decreases, vstd::std_specs::vec::axiom_vec_index_decreases, vstd::std_specs::vec::axiom_vec_decreases_to_view;

/// The mathematical JSON tree the contracts speak about.
pub enum JsonV {
    Null,
    Bool(bool),
    Num(u64),
    NumRaw(Seq<char>),
    Str(Seq<char>),
    Arr(Seq<JsonV>),
    Obj(Seq<(Seq<char>, JsonV)>),
}

/// The executable JSON tree.
pub enum Json {
    Null,
    Bool(bool),
    Num(u64),
    NumRaw(Vec<char>),
    Str(Vec<char>),
    Arr(Vec<Json>),
    Obj(Vec<(Vec<char>, Json)>),
}

/// The tree a `Json` value stands for.
pub open spec fn json_view(j: Json) -> JsonV
    decreases j, 1int,
{
    match j {
        Json::Null => JsonV::Null,
        Json::Bool(b) => JsonV::Bool(b),
        Json::Num(n) => JsonV::Num(n),
        Json::NumRaw(t) => JsonV::NumRaw(t@),
        Json::Str(s) => JsonV::Str(s@),
        Json::Arr(a) => {
            proof {
                assert(decreases_to!(a => a@));
            }
            JsonV::Arr(arr_views(a@))
        },
        Json::Obj(o) => {
            proof {
                assert(decreases_to!(o => o@));
            }
            JsonV::Obj(obj_views(o@))
        },
    }
}

pub open spec fn arr_views(a: Seq<Json>) -> Seq<JsonV>
    decreases a, 0int,
{
    if a.len() == 0 {
        Seq::empty()
    } else {
        seq![json_view(a[0])] + arr_views(a.drop_first())
    }
}

pub open spec fn obj_views(o: Seq<(Vec<char>, Json)>) -> Seq<(Seq<char>, JsonV)>
    decreases o, 0int,
{
    if o.len() == 0 {
        Seq::empty()
    } else {
        proof {
            assert(decreases_to!(o[0] => o[0].1));
        }
        seq![(o[0].0@, json_view(o[0].1))] + obj_views(o.drop_first())
    }
}

impl View for Json {
    type V = JsonV;

    open spec fn view(&self) -> JsonV {
        json_view(*self)
    }
}

/// `arr_views` is the element-wise view.
pub proof fn lemma_arr_views(a: Seq<Json>)
    ensures
        arr_views(a).len() == a.len(),
        forall|i: int| 0 <= i < a.len() ==> arr_views(a)[i] == json_view(a[i]),
    decreases a.len(),
{
    if a.len() > 0 {
        lemma_arr_views(a.drop_first());
        assert forall|i: int| 0 <= i < a.len() implies arr_views(a)[i] == json_view(a[i]) by {
            if i > 0 {
                assert(a.drop_first()[i - 1] == a[i]);
            }
        }
    }
}

/// `obj_views` is the member-wise view.
pub proof fn lemma_obj_views(o: Seq<(Vec<char>, Json)>)
    ensures
        obj_views(o).len() == o.len(),
        forall|i: int| 0 <= i < o.len() ==> obj_views(o)[i] == (o[i].0@, json_view(o[i].1)),
    decreases o.len(),
{
    if o.len() > 0 {
        lemma_obj_views(o.drop_first());
        assert forall|i: int| 0 <= i < o.len() implies obj_views(o)[i] == (
            o[i].0@,
            json_view(o[i].1),
        ) by {
            if i > 0 {
                assert(o.drop_first()[i - 1] == o[i]);
            }
        }
    }
}

// ---------------------------------------------------------------------------
// Digits
// ---------------------------------------------------------------------------

pub open spec fn is_digit(c: char) -> bool {
    c == '0' || c == '1' || c == '2' || c == '3' || c == '4' || c == '5' || c == '6' || c == '7'
        || c == '8' || c == '9'
}

/// The digit character of a value below ten.
pub open spec fn dchar(d: u64) -> char {
    if d == 0 {
        '0'
    } else if d == 1 {
        '1'
    } else if d == 2 {
        '2'
    } else if d == 3 {
        '3'
    } else if d == 4 {
        '4'
    } else if d == 5 {
        '5'
    } else if d == 6 {
        '6'
    } else if d == 7 {
        '7'
    } else if d == 8 {
        '8'
    } else {
        '9'
    }
}

/// The value of a digit character.
pub open spec fn dval(c: char) -> u64 {
    if c == '0' {
        0
    } else if c == '1' {
        1
    } else if c == '2' {
        2
    } else if c == '3' {
        3
    } else if c == '4' {
        4
    } else if c == '5' {
        5
    } else if c == '6' {
        6
    } else if c == '7' {
        7
    } else if c == '8' {
        8
    } else {
        9
    }
}

fn exec_is_digit(c: char) -> (r: bool)
    ensures
        r == is_digit(c),
{
    c == '0' || c == '1' || c == '2' || c == '3' || c == '4' || c == '5' || c == '6' || c == '7'
        || c == '8' || c == '9'
}

fn exec_dchar(d: u64) -> (r: char)
    requires
        d < 10,
    ensures
        r == dchar(d),
{
    if d == 0 {
        '0'
    } else if d == 1 {
        '1'
    } else if d == 2 {
        '2'
    } else if d == 3 {
        '3'
    } else if d == 4 {
        '4'
    } else if d == 5 {
        '5'
    } else if d == 6 {
        '6'
    } else if d == 7 {
        '7'
    } else if d == 8 {
        '8'
    } else {
        '9'
    }
}

fn exec_dval(c: char) -> (r: u64)
    ensures
        r == dval(c),
{
    if c == '0' {
        0
    } else if c == '1' {
        1
    } else if c == '2' {
        2
    } else if c == '3' {
        3
    } else if c == '4' {
        4
    } else if c == '5' {
        5
    } else if c == '6' {
        6
    } else if c == '7' {
        7
    } else if c == '8' {
        8
    } else {
        9
    }
}

pub open spec fn is_hex(c: char) -> bool {
    is_digit(c) || ('a' <= c && c <= 'f') || ('A' <= c && c <= 'F')
}

/// The value of a hexadecimal digit character.
pub open spec fn hex_val(c: char) -> u32 {
    if is_digit(c) {
        dval(c) as u32
    } else if 'a' <= c && c <= 'f' {
        ((c as u32) - 97 + 10) as u32
    } else {
        ((c as u32) - 65 + 10) as u32
    }
}

/// The lowercase hexadecimal digit character of a value below sixteen.
pub open spec fn hexdig(d: u32) -> char {
    if d < 10 {
        dchar(d as u64)
    } else if d == 10 {
        'a'
    } else if d == 11 {
        'b'
    } else if d == 12 {
        'c'
    } else if d == 13 {
        'd'
    } else if d == 14 {
        'e'
    } else {
        'f'
    }
}

fn exec_is_hex(c: char) -> (r: bool)
    ensures
        r == is_hex(c),
{
    exec_is_digit(c) || ('a' <= c && c <= 'f') || ('A' <= c && c <= 'F')
}

fn exec_hex_val(c: char) -> (r: u32)
    requires
        is_hex(c),
    ensures
        r == hex_val(c),
        r < 16,
{
    if exec_is_digit(c) {
        exec_dval(c) as u32
    } else if 'a' <= c && c <= 'f' {
        (c as u32) - 97 + 10
    } else {
        (c as u32) - 65 + 10
    }
}

fn exec_hexdig(d: u32) -> (r: char)
    requires
        d < 16,
    ensures
        r == hexdig(d),
{
    if d < 10 {
        exec_dchar(d as u64)
    } else if d == 10 {
        'a'
    } else if d == 11 {
        'b'
    } else if d == 12 {
        'c'
    } else if d == 13 {
        'd'
    } else if d == 14 {
        'e'
    } else {
        'f'
    }
}

/// Relies on `char::from_u32`: the character with the given code, for every
/// valid Unicode scalar value, and nothing for surrogate codes or values
/// above the Unicode range.
#[verifier::external_body]
fn char_from_u32(cp: u32) -> (r: Option<char>)
    ensures
        (cp < 0xD800 || (0xE000 <= cp && cp <= 0x10FFFF)) ==> r == Some(cp as char),
        !(cp < 0xD800 || (0xE000 <= cp && cp <= 0x10FFFF)) ==> r is None,
{
    char::from_u32(cp)
}

// ---------------------------------------------------------------------------
// The serializer's specification
// ---------------------------------------------------------------------------

/// Decimal digits of `n`, most significant first.
pub open spec fn ser_num(n: u64) -> Seq<char>
    decreases n,
{
    if n < 10 {
        seq![dchar(n)]
    } else {
        ser_num((n / 10) as u64).push(dchar(n % 10))
    }
}

/// A string character as it appears between the quotes: quote and
/// backslash escaped, control characters under their short forms or as a
/// four-digit hexadecimal escape.
pub open spec fn esc_char(c: char) -> Seq<char> {
    if c == '"' || c == '\\' {
        seq!['\\', c]
    } else if c == '\u{8}' {
        seq!['\\', 'b']
    } else if c == '\t' {
        seq!['\\', 't']
    } else if c == '\n' {
        seq!['\\', 'n']
    } else if c == '\u{c}' {
        seq!['\\', 'f']
    } else if c == '\r' {
        seq!['\\', 'r']
    } else if (c as u32) < 0x20 {
        seq!['\\', 'u', '0', '0', hexdig((c as u32) / 16), hexdig((c as u32) % 16)]
    } else {
        seq![c]
    }
}

/// String content with `"` and `\` escaped.
pub open spec fn esc(s: Seq<char>) -> Seq<char>
    decreases s.len(),
{
    if s.len() == 0 {
        Seq::empty()
    } else {
        esc_char(s[0]) + esc(s.drop_first())
    }
}

/// The serialized text of a JSON value: compact, no whitespace.
pub open spec fn ser(v: JsonV) -> Seq<char>
    decreases v, 2int,
{
    match v {
        JsonV::Null => seq!['n', 'u', 'l', 'l'],
        JsonV::Bool(b) => if b {
            seq!['t', 'r', 'u', 'e']
        } else {
            seq!['f', 'a', 'l', 's', 'e']
        },
        JsonV::Num(n) => ser_num(n),
        JsonV::NumRaw(t) => t,
        JsonV::Str(s) => seq!['"'] + esc(s) + seq!['"'],
        JsonV::Arr(a) => if a.len() == 0 {
            seq!['[', ']']
        } else {
            seq!['['] + ser_items(a) + seq![']']
        },
        JsonV::Obj(o) => if o.len() == 0 {
            seq!['{', '}']
        } else {
            seq!['{'] + ser_pairs(o) + seq!['}']
        },
    }
}

/// Comma-joined serialized elements of a non-empty array.
pub open spec fn ser_items(a: Seq<JsonV>) -> Seq<char>
    decreases a, 1int,
{
    if a.len() == 0 {
        Seq::empty()
    } else if a.len() == 1 {
        ser(a[0])
    } else {
        ser(a[0]) + seq![','] + ser_items(a.drop_first())
    }
}

/// Comma-joined serialized members of a non-empty object.
pub open spec fn ser_pairs(o: Seq<(Seq<char>, JsonV)>) -> Seq<char>
    decreases o, 1int,
{
    if o.len() == 0 {
        Seq::empty()
    } else {
        let kv = seq!['"'] + esc(o[0].0) + seq!['"', ':'] + ser(o[0].1);
        if o.len() == 1 {
            kv
        } else {
            kv + seq![','] + ser_pairs(o.drop_first())
        }
    }
}

// ---------------------------------------------------------------------------
// The executable serializer
// ---------------------------------------------------------------------------

fn write_num(n: u64, out: &mut Vec<char>)
    ensures
        final(out)@ == old(out)@ + ser_num(n),
    decreases n,
{
    if n < 10 {
        out.push(exec_dchar(n));
        proof {
            assert(out@ =~= old(out)@ + ser_num(n));
        }
    } else {
        write_num(n / 10, out);
        out.push(exec_dchar(n % 10));
        proof {
            assert(out@ =~= old(out)@ + ser_num(n));
        }
    }
}

proof fn lemma_esc_snoc(s: Seq<char>, c: char)
    ensures
        esc(s.push(c)) == esc(s) + esc_char(c),
    decreases s.len(),
{
    if s.len() == 0 {
        assert(s.push(c)[0] == c);
        assert(s.push(c).drop_first() =~= Seq::<char>::empty());
        assert(esc(s.push(c).drop_first()) == Seq::<char>::empty());
        assert(esc(s.push(c)) =~= esc(s) + esc_char(c));
    } else {
        lemma_esc_snoc(s.drop_first(), c);
        assert(s.push(c).drop_first() =~= s.drop_first().push(c));
        assert(s.push(c)[0] == s[0]);
        assert(esc(s.push(c)) == esc_char(s[0]) + esc(s.drop_first().push(c)));
        assert(esc(s.push(c)) == esc_char(s[0]) + (esc(s.drop_first()) + esc_char(c)));
        assert(esc(s) == esc_char(s[0]) + esc(s.drop_first()));
        assert(esc(s.push(c)) =~= esc(s) + esc_char(c));
    }
}

fn write_esc(s: &Vec<char>, out: &mut Vec<char>)
    ensures
        final(out)@ == old(out)@ + esc(s@),
{
    let ghost base = out@;
    let mut i: usize = 0;
    proof {
        assert(s@.subrange(0, 0) =~= Seq::<char>::empty());
        assert(out@ =~= base + esc(s@.subrange(0, 0)));
    }
    while i < s.len()
        invariant
            i <= s@.len(),
            out@ == base + esc(s@.subrange(0, i as int)),
        decreases s@.len() - i,
    {
        let c = s[i];
        if c == '"' || c == '\\' {
            out.push('\\');
            out.push(c);
        } else if c == '\u{8}' {
            out.push('\\');
            out.push('b');
        } else if c == '\t' {
            out.push('\\');
            out.push('t');
        } else if c == '\n' {
            out.push('\\');
            out.push('n');
        } else if c == '\u{c}' {
            out.push('\\');
            out.push('f');
        } else if c == '\r' {
            out.push('\\');
            out.push('r');
        } else if (c as u32) < 0x20 {
            let d = c as u32;
            out.push('\\');
            out.push('u');
            out.push('0');
            out.push('0');
            out.push(exec_hexdig(d / 16));
            out.push(exec_hexdig(d % 16));
        } else {
            out.push(c);
        }
        proof {
            lemma_esc_snoc(s@.subrange(0, i as int), c);
            assert(s@.subrange(0, i + 1) =~= s@.subrange(0, i as int).push(c));
            assert(out@ =~= base + esc(s@.subrange(0, i + 1)));
        }
        i = i + 1;
    }
    proof {
        assert(s@.subrange(0, s@.len() as int) =~= s@);
    }
}

/// Appends the serialized text of `j` to `out`.
pub fn write_json(j: &Json, out: &mut Vec<char>)
    ensures
        final(out)@ == old(out)@ + ser(j@),
    decreases j,
{
    broadcast use vstd::std_specs::vec::axiom_vec_index_decreases;

    match j {
        Json::Null => {
            out.push('n');
            out.push('u');
            out.push('l');
            out.push('l');
            proof {
                assert(out@ =~= old(out)@ + ser(j@));
            }
        },
        Json::Bool(b) => {
            if *b {
                out.push('t');
                out.push('r');
                out.push('u');
                out.push('e');
            } else {
                out.push('f');
                out.push('a');
                out.push('l');
                out.push('s');
                out.push('e');
            }
            proof {
                assert(out@ =~= old(out)@ + ser(j@));
            }
        },
        Json::Num(n) => {
            write_num(*n, out);
        },
        Json::NumRaw(t) => {
            let ghost base = out@;
            let m = t.len();
            let mut k: usize = 0;
            proof {
                assert(out@ =~= base + t@.take(0));
            }
            while k < m
                invariant
                    0 <= k <= m,
                    m == t@.len(),
                    out@ == base + t@.take(k as int),
                decreases m - k,
            {
                out.push(t[k]);
                proof {
                    assert(t@.take(k as int).push(t@[k as int]) =~= t@.take(k as int + 1));
                }
                k = k + 1;
            }
            proof {
                assert(t@.take(m as int) =~= t@);
            }
        },
        Json::Str(s) => {
            out.push('"');
            write_esc(s, out);
            out.push('"');
            proof {
                assert(out@ =~= old(out)@ + ser(j@));
            }
        },
        Json::Arr(a) => {
            out.push('[');
            if a.len() > 0 {
                write_items(a, 0, out);
            }
            out.push(']');
            proof {
                if a@.len() > 0 {
                    lemma_arr_views(a@);
                    assert(arr_view(a@, 0) =~= arr_views(a@));
                }
                assert(out@ =~= old(out)@ + ser(j@));
            }
        },
        Json::Obj(o) => {
            out.push('{');
            if o.len() > 0 {
                write_members(o, 0, out);
            }
            out.push('}');
            proof {
                if o@.len() > 0 {
                    lemma_obj_views(o@);
                    assert(obj_view(o@, 0) =~= obj_views(o@));
                }
                assert(out@ =~= old(out)@ + ser(j@));
            }
        },
    }
}

/// The view of the elements of `a` from `i` on.
pub open spec fn arr_view(a: Seq<Json>, i: int) -> Seq<JsonV> {
    Seq::new((a.len() - i) as nat, |k: int| a[i + k]@)
}

/// The view of the members of `o` from `i` on.
pub open spec fn obj_view(o: Seq<(Vec<char>, Json)>, i: int) -> Seq<(Seq<char>, JsonV)> {
    Seq::new((o.len() - i) as nat, |k: int| (o[i + k].0@, o[i + k].1@))
}

fn write_items(a: &Vec<Json>, i: usize, out: &mut Vec<char>)
    requires
        i < a@.len(),
    ensures
        final(out)@ == old(out)@ + ser_items(arr_view(a@, i as int)),
    decreases a, a@.len() - i,
{
    broadcast use vstd::std_specs::vec::axiom_vec_index_decreases;

    let n = a.len();
    write_json(&a[i], out);
    if i + 1 < n {
        out.push(',');
        write_items(a, i + 1, out);
    }
    proof {
        let items = arr_view(a@, i as int);
        assert(items[0] == a@[i as int]@);
        if i + 1 < a@.len() {
            assert(items.drop_first() =~= arr_view(a@, i as int + 1));
            assert(out@ =~= old(out)@ + ser_items(items));
        } else {
            assert(items.len() == 1);
            assert(out@ =~= old(out)@ + ser_items(items));
        }
    }
}

fn write_members(o: &Vec<(Vec<char>, Json)>, i: usize, out: &mut Vec<char>)
    requires
        i < o@.len(),
    ensures
        final(out)@ == old(out)@ + ser_pairs(obj_view(o@, i as int)),
    decreases o, o@.len() - i,
{
    let n = o.len();
    out.push('"');
    write_esc(&o[i].0, out);
    out.push('"');
    out.push(':');
    write_json(&o[i].1, out);
    if i + 1 < n {
        out.push(',');
        write_members(o, i + 1, out);
    }
    proof {
        let mems = obj_view(o@, i as int);
        assert(mems[0] == (o@[i as int].0@, o@[i as int].1@));
        if i + 1 < o@.len() {
            assert(mems.drop_first() =~= obj_view(o@, i as int + 1));
            assert(out@ =~= old(out)@ + ser_pairs(mems));
        } else {
            assert(mems.len() == 1);
            assert(out@ =~= old(out)@ + ser_pairs(mems));
        }
    }
}

/// The serialized text of `j`, as a fresh character vector.
pub fn json_to_chars(j: &Json) -> (r: Vec<char>)
    ensures
        r@ == ser(j@),
{
    let mut out: Vec<char> = Vec::new();
    write_json(j, &mut out);
    proof {
        assert(out@ =~= ser(j@));
    }
    out
}

// ---------------------------------------------------------------------------
// The parser's specification
// ---------------------------------------------------------------------------

pub open spec fn is_ws(c: char) -> bool {
    c == ' ' || c == '\n' || c == '\r' || c == '\t'
}

/// The first position at or after `i` holding no whitespace.
pub open spec fn skip_ws(s: Seq<char>, i: int) -> int
    decreases s.len() - i,
{
    if 0 <= i < s.len() && is_ws(s[i]) {
        skip_ws(s, i + 1)
    } else {
        i
    }
}

/// The code held in four hexadecimal digits starting at `i`.
pub open spec fn hex4(s: Seq<char>, i: int) -> u32 {
    (hex_val(s[i]) * 4096 + hex_val(s[i + 1]) * 256 + hex_val(s[i + 2]) * 16 + hex_val(
        s[i + 3],
    )) as u32
}

/// Whether four hexadecimal digits stand at `i`.
pub open spec fn hex4_at(s: Seq<char>, i: int) -> bool {
    i + 4 <= s.len() && is_hex(s[i]) && is_hex(s[i + 1]) && is_hex(s[i + 2]) && is_hex(s[i + 3])
}

/// One `\u` escape whose backslash stands at `i`: the decoded character
/// (a surrogate pair taken as one) and the position just after the escape;
/// nothing on missing hexadecimal digits or a lone surrogate.
pub open spec fn pu_escape(s: Seq<char>, i: int) -> Option<(char, int)> {
    if !hex4_at(s, i + 2) {
        None
    } else {
        let cp = hex4(s, i + 2);
        if 0xD800 <= cp && cp < 0xDC00 {
            if i + 8 <= s.len() && s[i + 6] == '\\' && s[i + 7] == 'u' && hex4_at(s, i + 8) {
                let lo = hex4(s, i + 8);
                if 0xDC00 <= lo && lo < 0xE000 {
                    Some(((0x10000 + (cp - 0xD800) * 0x400 + (lo - 0xDC00)) as char, i + 12))
                } else {
                    None
                }
            } else {
                None
            }
        } else if 0xDC00 <= cp && cp < 0xE000 {
            None
        } else {
            Some((cp as char, i + 6))
        }
    }
}

/// String content from `i` (just after the opening quote) up to the closing
/// quote.  The eight standard escapes are decoded; a `\u` escape gives the
/// coded character, with a surrogate pair taken as one character; any other
/// escape, and a lone surrogate, is an error.
pub open spec fn pstr_rec(s: Seq<char>, i: int, acc: Seq<char>) -> Option<(Seq<char>, int)>
    decreases s.len() - i,
{
    if i < 0 || i >= s.len() {
        None
    } else if s[i] == '"' {
        Some((acc, i + 1))
    } else if s[i] == '\\' {
        if i + 1 >= s.len() {
            None
        } else {
            let e = s[i + 1];
            if e == '"' || e == '\\' || e == '/' {
                pstr_rec(s, i + 2, acc.push(e))
            } else if e == 'b' {
                pstr_rec(s, i + 2, acc.push('\u{8}'))
            } else if e == 't' {
                pstr_rec(s, i + 2, acc.push('\t'))
            } else if e == 'n' {
                pstr_rec(s, i + 2, acc.push('\n'))
            } else if e == 'f' {
                pstr_rec(s, i + 2, acc.push('\u{c}'))
            } else if e == 'r' {
                pstr_rec(s, i + 2, acc.push('\r'))
            } else if e == 'u' {
                match pu_escape(s, i) {
                    Some((c2, j)) => if i + 2 <= j && j <= s.len() {
                        pstr_rec(s, j, acc.push(c2))
                    } else {
                        None
                    },
                    None => None,
                }
            } else {
                None
            }
        }
    } else {
        pstr_rec(s, i + 1, acc.push(s[i]))
    }
}

/// Whether a character can stand in a number token.
pub open spec fn is_numch(c: char) -> bool {
    is_digit(c) || c == '.' || c == 'e' || c == 'E' || c == '+' || c == '-'
}

/// The first position at or after `i` holding no number character.
pub open spec fn numtok_end(s: Seq<char>, i: int) -> int
    decreases s.len() - i,
{
    if 0 <= i < s.len() && is_numch(s[i]) {
        numtok_end(s, i + 1)
    } else {
        i
    }
}

/// Whether every character of `t` is a decimal digit.
pub open spec fn all_digits(t: Seq<char>) -> bool {
    forall|k: int| 0 <= k < t.len() ==> is_digit(#[trigger] t[k])
}

/// The digit run from `i` on, folded onto `acc`, and its end position.
pub open spec fn pnum_rec(s: Seq<char>, i: int, acc: nat) -> (nat, int)
    decreases s.len() - i,
{
    if 0 <= i < s.len() && is_digit(s[i]) {
        pnum_rec(s, i + 1, acc * 10 + dval(s[i]) as nat)
    } else {
        (acc, i)
    }
}

/// A JSON value starting exactly at `i`, and the position just after it.
pub open spec fn pval(s: Seq<char>, i: int) -> Option<(JsonV, int)>
    decreases s.len() - i, 0int,
{
    if i < 0 || i >= s.len() {
        None
    } else if s[i] == 'n' {
        if i + 4 <= s.len() && s[i + 1] == 'u' && s[i + 2] == 'l' && s[i + 3] == 'l' {
            Some((JsonV::Null, i + 4))
        } else {
            None
        }
    } else if s[i] == 't' {
        if i + 4 <= s.len() && s[i + 1] == 'r' && s[i + 2] == 'u' && s[i + 3] == 'e' {
            Some((JsonV::Bool(true), i + 4))
        } else {
            None
        }
    } else if s[i] == 'f' {
        if i + 5 <= s.len() && s[i + 1] == 'a' && s[i + 2] == 'l' && s[i + 3] == 's' && s[i + 4]
            == 'e' {
            Some((JsonV::Bool(false), i + 5))
        } else {
            None
        }
    } else if s[i] == '"' {
        match pstr_rec(s, i + 1, Seq::empty()) {
            Some((t, j)) => Some((JsonV::Str(t), j)),
            None => None,
        }
    } else if is_digit(s[i]) || (s[i] == '-' && i + 1 < s.len() && is_digit(s[i + 1])) {
        let e = numtok_end(s, i);
        if e < i || e > s.len() {
            None
        } else {
            let t = s.subrange(i, e);
            if all_digits(t) && dseq_val(t) <= u64::MAX {
                Some((JsonV::Num(dseq_val(t) as u64), e))
            } else {
                Some((JsonV::NumRaw(t), e))
            }
        }
    } else if s[i] == '[' {
        let j = skip_ws(s, i + 1);
        if j < i + 1 || j > s.len() {
            None
        } else if j < s.len() && s[j] == ']' {
            Some((JsonV::Arr(Seq::empty()), j + 1))
        } else {
            match parr(s, j) {
                Some((a, e)) => Some((JsonV::Arr(a), e)),
                None => None,
            }
        }
    } else if s[i] == '{' {
        let j = skip_ws(s, i + 1);
        if j < i + 1 || j > s.len() {
            None
        } else if j < s.len() && s[j] == '}' {
            Some((JsonV::Obj(Seq::empty()), j + 1))
        } else {
            match pobj(s, j) {
                Some((o, e)) => Some((JsonV::Obj(o), e)),
                None => None,
            }
        }
    } else {
        None
    }
}

/// The elements of a non-empty array from `i` (at the first element) up to
/// and including the closing bracket.
pub open spec fn parr(s: Seq<char>, i: int) -> Option<(Seq<JsonV>, int)>
    decreases s.len() - i, 1int,
{
    match pval(s, i) {
        None => None,
        Some((v, j)) => {
            if j <= i || j > s.len() {
                None
            } else {
                let k = skip_ws(s, j);
                if k < j || k > s.len() {
                    None
                } else if k < s.len() && s[k] == ',' {
                    let m = skip_ws(s, k + 1);
                    if m < k + 1 || m > s.len() {
                        None
                    } else {
                        match parr(s, m) {
                            None => None,
                            Some((rest, e)) => Some((seq![v] + rest, e)),
                        }
                    }
                } else if k < s.len() && s[k] == ']' {
                    Some((seq![v], k + 1))
                } else {
                    None
                }
            }
        },
    }
}

/// The members of a non-empty object from `i` (at the first key's quote) up
/// to and including the closing brace.
pub open spec fn pobj(s: Seq<char>, i: int) -> Option<(Seq<(Seq<char>, JsonV)>, int)>
    decreases s.len() - i, 1int,
{
    if i < 0 || i >= s.len() || s[i] != '"' {
        None
    } else {
        match pstr_rec(s, i + 1, Seq::empty()) {
            None => None,
            Some((key, j)) => {
                if j <= i || j > s.len() {
                    None
                } else {
                    let k = skip_ws(s, j);
                    if k < j || k > s.len() {
                        None
                    } else if k < s.len() && s[k] == ':' {
                        let m = skip_ws(s, k + 1);
                        if m < k + 1 || m > s.len() {
                            None
                        } else {
                            match pval(s, m) {
                                None => None,
                                Some((v, e)) => {
                                    if e <= m || e > s.len() {
                                        None
                                    } else {
                                        let f = skip_ws(s, e);
                                        if f < e || f > s.len() {
                                            None
                                        } else if f < s.len() && s[f] == ',' {
                                            let g = skip_ws(s, f + 1);
                                            if g < f + 1 || g > s.len() {
                                                None
                                            } else {
                                                match pobj(s, g) {
                                                    None => None,
                                                    Some((rest, h)) => Some(
                                                        (seq![(key, v)] + rest, h),
                                                    ),
                                                }
                                            }
                                        } else if f < s.len() && s[f] == '}' {
                                            Some((seq![(key, v)], f + 1))
                                        } else {
                                            None
                                        }
                                    }
                                },
                            }
                        }
                    } else {
                        None
                    }
                }
            },
        }
    }
}

/// A whole text: one JSON value, possibly surrounded by whitespace, and
/// nothing else.
pub open spec fn parse_text(s: Seq<char>) -> Option<JsonV> {
    match pval(s, skip_ws(s, 0)) {
        Some((v, j)) => if skip_ws(s, j) == s.len() {
            Some(v)
        } else {
            None
        },
        None => None,
    }
}

fn e_skip_ws(s: &Vec<char>, i: usize) -> (r: usize)
    requires
        i <= s@.len(),
    ensures
        r == skip_ws(s@, i as int),
        i <= r <= s@.len(),
{
    let n = s.len();
    let mut k = i;
    while k < n && (s[k] == ' ' || s[k] == '\n' || s[k] == '\r' || s[k] == '\t')
        invariant
            i <= k <= n,
            n == s@.len(),
            skip_ws(s@, i as int) == skip_ws(s@, k as int),
        decreases s@.len() - k,
    {
        k = k + 1;
    }
    k
}

/// Reads one `\u` escape whose backslash stands at `k`, exactly as
/// `pu_escape` says.
#[verifier::spinoff_prover]
fn parse_u_escape(s: &Vec<char>, k: usize) -> (r: Option<(char, usize)>)
    requires
        k + 1 < s@.len(),
    ensures
        match r {
            Some((c2, k2)) => pu_escape(s@, k as int) == Some((c2, k2 as int)) && k + 2 <= k2
                <= s@.len(),
            None => pu_escape(s@, k as int) is None,
        },
{
    let n = s.len();
    if n - k < 6 {
        return None;
    }
    if !(exec_is_hex(s[k + 2]) && exec_is_hex(s[k + 3]) && exec_is_hex(s[k + 4]) && exec_is_hex(
        s[k + 5],
    )) {
        return None;
    }
    let a1 = exec_hex_val(s[k + 2]);
    let a2 = exec_hex_val(s[k + 3]);
    let a3 = exec_hex_val(s[k + 4]);
    let a4 = exec_hex_val(s[k + 5]);
    let cp: u32 = a1 * 4096 + a2 * 256 + a3 * 16 + a4;
    if 0xD800 <= cp && cp < 0xDC00 {
        if n - k < 12 {
            return None;
        }
        if !(s[k + 6] == '\\' && s[k + 7] == 'u') {
            return None;
        }
        if !(exec_is_hex(s[k + 8]) && exec_is_hex(s[k + 9]) && exec_is_hex(s[k + 10])
            && exec_is_hex(s[k + 11])) {
            return None;
        }
        let b1 = exec_hex_val(s[k + 8]);
        let b2 = exec_hex_val(s[k + 9]);
        let b3 = exec_hex_val(s[k + 10]);
        let b4 = exec_hex_val(s[k + 11]);
        let lo: u32 = b1 * 4096 + b2 * 256 + b3 * 16 + b4;
        if !(0xDC00 <= lo && lo < 0xE000) {
            return None;
        }
        let scalar: u32 = 0x10000 + (cp - 0xD800) * 0x400 + (lo - 0xDC00);
        let c2 = match char_from_u32(scalar) {
            Some(c2) => c2,
            None => {
                proof {
                    assert(false);
                }
                ' '
            },
        };
        Some((c2, k + 12))
    } else if 0xDC00 <= cp && cp < 0xE000 {
        None
    } else {
        let c2 = match char_from_u32(cp) {
            Some(c2) => c2,
            None => {
                proof {
                    assert(false);
                }
                ' '
            },
        };
        Some((c2, k + 6))
    }
}

fn parse_string(s: &Vec<char>, i: usize) -> (r: Option<(Vec<char>, usize)>)
    requires
        i <= s@.len(),
    ensures
        (r is Some <==> pstr_rec(s@, i as int, Seq::empty()) is Some),
        r matches Some((t, e)) ==> pstr_rec(s@, i as int, Seq::empty()) == Some((t@, e as int))
            && i < e <= s@.len(),
{
    let n = s.len();
    let mut acc: Vec<char> = Vec::new();
    let mut k = i;
    proof {
        assert(acc@ =~= Seq::<char>::empty());
    }
    loop
        invariant
            i <= k <= n,
            n == s@.len(),
            pstr_rec(s@, i as int, Seq::empty()) == pstr_rec(s@, k as int, acc@),
        decreases s@.len() - k,
    {
        if k >= n {
            return None;
        }
        let c = s[k];
        if c == '"' {
            return Some((acc, k + 1));
        } else if c == '\\' {
            if k + 1 >= n {
                return None;
            }
            let e = s[k + 1];
            if e == '"' || e == '\\' || e == '/' {
                acc.push(e);
                k = k + 2;
            } else if e == 'b' {
                acc.push('\u{8}');
                k = k + 2;
            } else if e == 't' {
                acc.push('\t');
                k = k + 2;
            } else if e == 'n' {
                acc.push('\n');
                k = k + 2;
            } else if e == 'f' {
                acc.push('\u{c}');
                k = k + 2;
            } else if e == 'r' {
                acc.push('\r');
                k = k + 2;
            } else if e == 'u' {
                match parse_u_escape(s, k) {
                    Some((c2, k2)) => {
                        acc.push(c2);
                        k = k2;
                    },
                    None => {
                        return None;
                    },
                }
            } else {
                return None;
            }
        } else {
            acc.push(c);
            k = k + 1;
        }
    }
}

proof fn lemma_numtok_bounds(s: Seq<char>, i: int)
    requires
        0 <= i <= s.len(),
    ensures
        i <= numtok_end(s, i) <= s.len(),
    decreases s.len() - i,
{
    if i < s.len() && is_numch(s[i]) {
        lemma_numtok_bounds(s, i + 1);
    }
}


proof fn lemma_pnum_mono(s: Seq<char>, i: int, acc: nat)
    ensures
        pnum_rec(s, i, acc).0 >= acc,
    decreases s.len() - i,
{
    if 0 <= i < s.len() && is_digit(s[i]) {
        lemma_pnum_mono(s, i + 1, acc * 10 + dval(s[i]) as nat);
    }
}

proof fn lemma_num_step(acc: u64, d: u64)
    requires
        d < 10,
    ensures
        acc as int <= ((u64::MAX - d) as int) / 10 ==> acc as int * 10 + d <= u64::MAX,
        acc as int > ((u64::MAX - d) as int) / 10 ==> acc as int * 10 + d > u64::MAX,
{
    let m = (u64::MAX - d) as int;
    vstd::arithmetic::div_mod::lemma_fundamental_div_mod(m, 10);
    vstd::arithmetic::div_mod::lemma_mod_bound(m, 10);
    let q = m / 10;
    assert(acc as int <= q ==> acc as int * 10 <= q * 10) by (nonlinear_arith);
    assert(acc as int > q ==> acc as int * 10 >= (q + 1) * 10) by (nonlinear_arith);
}

fn exec_is_numch(c: char) -> (r: bool)
    ensures
        r == is_numch(c),
{
    exec_is_digit(c) || c == '.' || c == 'e' || c == 'E' || c == '+' || c == '-'
}

fn e_numtok_end(s: &Vec<char>, i: usize) -> (r: usize)
    requires
        i <= s@.len(),
    ensures
        r == numtok_end(s@, i as int),
        i <= r <= s@.len(),
{
    let n = s.len();
    let mut k = i;
    while k < n && exec_is_numch(s[k])
        invariant
            i <= k <= n,
            n == s@.len(),
            numtok_end(s@, i as int) == numtok_end(s@, k as int),
        decreases s@.len() - k,
    {
        k = k + 1;
    }
    k
}

/// Reads the number token at `i`: a plain unsigned integer becomes a
/// number, anything else in the number alphabet is carried as opaque text.
fn parse_number(s: &Vec<char>, i: usize) -> (r: (Json, usize))
    requires
        i <= s@.len(),
    ensures
        r.1 == numtok_end(s@, i as int),
        i <= r.1 <= s@.len(),
        ({
            let t = s@.subrange(i as int, numtok_end(s@, i as int));
            if all_digits(t) && dseq_val(t) <= u64::MAX {
                json_view(r.0) == JsonV::Num(dseq_val(t) as u64)
            } else {
                json_view(r.0) == JsonV::NumRaw(t)
            }
        }),
{
    let e = e_numtok_end(s, i);
    let ghost tv = s@.subrange(i as int, e as int);
    let mut t: Vec<char> = Vec::new();
    let mut digits = true;
    let mut k = i;
    proof {
        assert(t@ =~= s@.subrange(i as int, i as int));
    }
    while k < e
        invariant
            i <= k <= e <= s@.len(),
            e as int == numtok_end(s@, i as int),
            tv == s@.subrange(i as int, e as int),
            t@ == s@.subrange(i as int, k as int),
            digits <==> all_digits(s@.subrange(i as int, k as int)),
        decreases e - k,
    {
        let ghost digits_before = digits;
        let c = s[k];
        if !exec_is_digit(c) {
            digits = false;
        }
        t.push(c);
        proof {
            let pre = s@.subrange(i as int, k as int);
            let post = s@.subrange(i as int, k as int + 1);
            assert(pre.push(s@[k as int]) =~= post);
            if digits_before && is_digit(s@[k as int]) {
                assert forall|m: int| 0 <= m < post.len() implies is_digit(#[trigger] post[m]) by {
                    if m < pre.len() {
                        assert(post[m] == pre[m]);
                    } else {
                        assert(post[m] == s@[k as int]);
                    }
                }
            } else if !is_digit(s@[k as int]) {
                assert(post[k - i] == s@[k as int]);
                assert(!all_digits(post));
            } else {
                let w = choose|m: int| 0 <= m < pre.len() && !is_digit(#[trigger] pre[m]);
                assert(post[w] == pre[w]);
                assert(!all_digits(post));
            }
        }
        k = k + 1;
    }
    proof {
        assert(t@ =~= tv);
    }
    if !digits {
        return (Json::NumRaw(t), e);
    }
    // the token is a digit run: fold its value, or keep it opaque when it
    // does not fit
    proof {
        assert(tv.subrange(0, tv.len() as int) =~= tv);
        lemma_pnum_scan(tv, 0, tv, 0);
        assert(pnum_rec(tv, 0, 0) == (dseq_val(tv), tv.len() as int));
    }
    let m = t.len();
    let mut acc: u64 = 0;
    let mut k2: usize = 0;
    while k2 < m
        invariant
            0 <= k2 <= m,
            i <= e <= s@.len(),
            e as int == numtok_end(s@, i as int),
            tv == s@.subrange(i as int, e as int),
            m == t@.len(),
            t@ == tv,
            all_digits(tv),
            pnum_rec(tv, 0, 0) == (dseq_val(tv), tv.len() as int),
            pnum_rec(tv, 0, 0) == pnum_rec(tv, k2 as int, acc as nat),
        decreases m - k2,
    {
        let d = exec_dval(t[k2]);
        proof {
            lemma_num_step(acc, d);
        }
        if acc > (u64::MAX - d) / 10 {
            proof {
                lemma_pnum_mono(tv, k2 as int + 1, (acc * 10 + d) as nat);
            }
            return (Json::NumRaw(t), e);
        }
        acc = acc * 10 + d;
        k2 = k2 + 1;
    }
    (Json::Num(acc), e)
}

/// A JSON value starting exactly at `i`; returns the value and the position
/// just after it, exactly as `pval` says.
pub fn parse_value(s: &Vec<char>, i: usize) -> (r: Option<(Json, usize)>)
    requires
        i <= s@.len(),
    ensures
        (r is Some <==> pval(s@, i as int) is Some),
        r matches Some((j, e)) ==> pval(s@, i as int) == Some((json_view(j), e as int)) && i < e
            <= s@.len(),
    decreases s@.len() - i, 0int,
{
    let n = s.len();
    if i >= n {
        return None;
    }
    let c = s[i];
    if c == 'n' {
        if n - i >= 4 && s[i + 1] == 'u' && s[i + 2] == 'l' && s[i + 3] == 'l' {
            Some((Json::Null, i + 4))
        } else {
            None
        }
    } else if c == 't' {
        if n - i >= 4 && s[i + 1] == 'r' && s[i + 2] == 'u' && s[i + 3] == 'e' {
            Some((Json::Bool(true), i + 4))
        } else {
            None
        }
    } else if c == 'f' {
        if n - i >= 5 && s[i + 1] == 'a' && s[i + 2] == 'l' && s[i + 3] == 's' && s[i + 4] == 'e' {
            Some((Json::Bool(false), i + 5))
        } else {
            None
        }
    } else if c == '"' {
        match parse_string(s, i + 1) {
            Some((t, e)) => Some((Json::Str(t), e)),
            None => None,
        }
    } else if exec_is_digit(c) || (c == '-' && i + 1 < n && exec_is_digit(s[i + 1])) {
        let (j, e) = parse_number(s, i);
        proof {
            lemma_numtok_bounds(s@, i as int + 1);
            assert(numtok_end(s@, i as int) == numtok_end(s@, i as int + 1));
        }
        Some((j, e))
    } else if c == '[' {
        let j = e_skip_ws(s, i + 1);
        if j < n && s[j] == ']' {
            let a: Vec<Json> = Vec::new();
            proof {
                assert(arr_views(a@) =~= Seq::<JsonV>::empty());
            }
            Some((Json::Arr(a), j + 1))
        } else {
            match parse_array(s, j) {
                Some((a, e)) => Some((Json::Arr(a), e)),
                None => None,
            }
        }
    } else if c == '{' {
        let j = e_skip_ws(s, i + 1);
        if j < n && s[j] == '}' {
            let o: Vec<(Vec<char>, Json)> = Vec::new();
            proof {
                assert(obj_views(o@) =~= Seq::<(Seq<char>, JsonV)>::empty());
            }
            Some((Json::Obj(o), j + 1))
        } else {
            match parse_object(s, j) {
                Some((o, e)) => Some((Json::Obj(o), e)),
                None => None,
            }
        }
    } else {
        None
    }
}

fn parse_array(s: &Vec<char>, i: usize) -> (r: Option<(Vec<Json>, usize)>)
    requires
        i <= s@.len(),
    ensures
        (r is Some <==> parr(s@, i as int) is Some),
        r matches Some((a, e)) ==> parr(s@, i as int) == Some((arr_views(a@), e as int)) && i < e
            <= s@.len(),
    decreases s@.len() - i, 1int,
{
    let n = s.len();
    match parse_value(s, i) {
        None => None,
        Some((v, j)) => {
            let k = e_skip_ws(s, j);
            if k < n && s[k] == ',' {
                let m = e_skip_ws(s, k + 1);
                match parse_array(s, m) {
                    None => None,
                    Some((rest, e)) => {
                        let ghost rest_view = arr_views(rest@);
                        let mut out = rest;
                        out.insert(0, v);
                        proof {
                            assert(out@.drop_first() =~= rest@);
                            assert(arr_views(out@) =~= seq![json_view(v)] + rest_view);
                        }
                        Some((out, e))
                    },
                }
            } else if k < n && s[k] == ']' {
                let mut out: Vec<Json> = Vec::new();
                out.push(v);
                proof {
                    assert(out@.drop_first() =~= Seq::<Json>::empty());
                    assert(arr_views(out@.drop_first()) =~= Seq::<JsonV>::empty());
                    assert(arr_views(out@) =~= seq![json_view(v)]);
                }
                Some((out, k + 1))
            } else {
                None
            }
        },
    }
}

fn parse_object(s: &Vec<char>, i: usize) -> (r: Option<(Vec<(Vec<char>, Json)>, usize)>)
    requires
        i <= s@.len(),
    ensures
        (r is Some <==> pobj(s@, i as int) is Some),
        r matches Some((o, e)) ==> pobj(s@, i as int) == Some((obj_views(o@), e as int)) && i < e
            <= s@.len(),
    decreases s@.len() - i, 1int,
{
    let n = s.len();
    if i >= n {
        return None;
    }
    if s[i] != '"' {
        return None;
    }
    match parse_string(s, i + 1) {
        None => None,
        Some((key, j)) => {
            let k = e_skip_ws(s, j);
            if k < n && s[k] == ':' {
                let m = e_skip_ws(s, k + 1);
                match parse_value(s, m) {
                    None => None,
                    Some((v, e)) => {
                        let f = e_skip_ws(s, e);
                        if f < n && s[f] == ',' {
                            let g = e_skip_ws(s, f + 1);
                            match parse_object(s, g) {
                                None => None,
                                Some((rest, h)) => {
                                    let ghost rest_view = obj_views(rest@);
                                    let ghost key_view = key@;
                                    let mut out = rest;
                                    out.insert(0, (key, v));
                                    proof {
                                        assert(out@.drop_first() =~= rest@);
                                        assert(obj_views(out@) =~= seq![
                                            (key_view, json_view(v)),
                                        ] + rest_view);
                                    }
                                    Some((out, h))
                                },
                            }
                        } else if f < n && s[f] == '}' {
                            let ghost key_view = key@;
                            let mut out: Vec<(Vec<char>, Json)> = Vec::new();
                            out.push((key, v));
                            proof {
                                assert(out@.drop_first() =~= Seq::<(Vec<char>, Json)>::empty());
                                assert(obj_views(out@.drop_first()) =~= Seq::<(Seq<char>, JsonV)>::empty());
                                assert(obj_views(out@) =~= seq![(key_view, json_view(v))]);
                            }
                            Some((out, f + 1))
                        } else {
                            None
                        }
                    },
                }
            } else {
                None
            }
        },
    }
}

// ---------------------------------------------------------------------------
// The parser inverts the serializer
// ---------------------------------------------------------------------------

proof fn lemma_window_index(s: Seq<char>, i: int, w: Seq<char>, k: int)
    requires
        0 <= i,
        i + w.len() <= s.len(),
        s.subrange(i, i + w.len()) == w,
        0 <= k < w.len(),
    ensures
        s[i + k] == w[k],
{
    assert(s.subrange(i, i + w.len())[k] == w[k]);
}

proof fn lemma_window_split(s: Seq<char>, i: int, a: Seq<char>, b: Seq<char>)
    requires
        0 <= i,
        i + a.len() + b.len() <= s.len(),
        s.subrange(i, i + a.len() + b.len()) == a + b,
    ensures
        s.subrange(i, i + a.len()) == a,
        s.subrange(i + a.len(), i + a.len() + b.len()) == b,
{
    assert forall|k: int| 0 <= k < a.len() implies s.subrange(i, i + a.len())[k] == a[k] by {
        assert(s.subrange(i, i + a.len() + b.len())[k] == (a + b)[k]);
    }
    assert(s.subrange(i, i + a.len()) =~= a);
    assert forall|k: int| 0 <= k < b.len() implies s.subrange(
        i + a.len(),
        i + a.len() + b.len(),
    )[k] == b[k] by {
        assert(s.subrange(i, i + a.len() + b.len())[a.len() + k] == (a + b)[a.len() + k]);
        assert((a + b)[a.len() + k] == b[k]);
        assert(s[i + a.len() + k] == b[k]);
        assert(s.subrange(i + a.len(), i + a.len() + b.len())[k] == s[(i + a.len()) + k]);
    }
    assert(s.subrange(i + a.len(), i + a.len() + b.len()) =~= b);
}

pub open spec fn pow10(k: nat) -> nat
    decreases k,
{
    if k == 0 {
        1
    } else {
        10 * pow10((k - 1) as nat)
    }
}

/// The value of a run of digit characters, most significant first.
pub open spec fn dseq_val(d: Seq<char>) -> nat
    decreases d.len(),
{
    if d.len() == 0 {
        0
    } else {
        dval(d[0]) as nat * pow10((d.len() - 1) as nat) + dseq_val(d.drop_first())
    }
}

proof fn lemma_dseq_snoc(x: Seq<char>, c: char)
    ensures
        dseq_val(x.push(c)) == dseq_val(x) * 10 + dval(c),
    decreases x.len(),
{
    if x.len() == 0 {
        assert(x.push(c)[0] == c);
        assert(x.push(c).drop_first() =~= Seq::<char>::empty());
        assert(dseq_val(x.push(c).drop_first()) == 0);
    } else {
        lemma_dseq_snoc(x.drop_first(), c);
        assert(x.push(c).drop_first() =~= x.drop_first().push(c));
        assert(x.push(c)[0] == x[0]);
        let v0 = dval(x[0]) as nat;
        let k = (x.len() - 1) as nat;
        assert(dseq_val(x.push(c)) == v0 * pow10(x.len() as nat) + (dseq_val(x.drop_first()) * 10
            + dval(c)));
        assert(pow10(x.len() as nat) == 10 * pow10(k));
        assert(v0 * (10 * pow10(k)) == (v0 * pow10(k)) * 10) by (nonlinear_arith);
        assert((v0 * pow10(k) + dseq_val(x.drop_first())) * 10 == v0 * pow10(k) * 10 + dseq_val(
            x.drop_first(),
        ) * 10) by (nonlinear_arith);
    }
}

proof fn lemma_ser_num_val(n: u64)
    ensures
        dseq_val(ser_num(n)) == n,
        ser_num(n).len() >= 1,
        forall|k: int| 0 <= k < ser_num(n).len() ==> is_digit(#[trigger] ser_num(n)[k]),
    decreases n,
{
    if n < 10 {
        assert(ser_num(n) == seq![dchar(n)]);
        assert(ser_num(n).drop_first() =~= Seq::<char>::empty());
        assert(dseq_val(ser_num(n).drop_first()) == 0);
        assert(pow10(0) == 1);
        assert(dseq_val(ser_num(n)) == dval(dchar(n)) as nat * pow10(0) + 0);
    } else {
        lemma_ser_num_val(n / 10);
        lemma_dseq_snoc(ser_num(n / 10), dchar(n % 10));
        assert(dseq_val(ser_num(n)) == (n / 10) * 10 + (n % 10));
        assert(n == (n / 10) * 10 + (n % 10)) by {
            vstd::arithmetic::div_mod::lemma_fundamental_div_mod(n as int, 10);
        }
        assert forall|k: int| 0 <= k < ser_num(n).len() implies is_digit(
            #[trigger] ser_num(n)[k],
        ) by {
            if k < ser_num(n / 10).len() {
                assert(ser_num(n)[k] == ser_num(n / 10)[k]);
            } else {
                assert(ser_num(n)[k] == dchar(n % 10));
            }
        }
    }
}

/// Scanning a window of digits folds their value onto the accumulator.
proof fn lemma_pnum_scan(s: Seq<char>, i: int, d: Seq<char>, acc: nat)
    requires
        0 <= i,
        i + d.len() <= s.len(),
        s.subrange(i, i + d.len()) == d,
        forall|k: int| 0 <= k < d.len() ==> is_digit(#[trigger] d[k]),
        i + d.len() == s.len() || !is_digit(s[i + d.len()]),
    ensures
        pnum_rec(s, i, acc) == (acc * pow10(d.len()) + dseq_val(d), i + d.len()),
    decreases d.len(),
{
    if d.len() == 0 {
        if i < s.len() {
            assert(!is_digit(s[i]));
        }
        assert(pow10(0) == 1);
        assert(dseq_val(d) == 0);
        assert(acc * pow10(d.len()) == acc * 1);
        assert(acc * 1 == acc) by (nonlinear_arith);
        assert(acc * pow10(d.len()) + dseq_val(d) == acc);
    } else {
        lemma_window_index(s, i, d, 0);
        assert(is_digit(s[i]));
        let d2 = d.drop_first();
        assert(d =~= seq![d[0]] + d2);
        lemma_window_split(s, i, seq![d[0]], d2);
        lemma_pnum_scan(s, i + 1, d2, acc * 10 + dval(s[i]) as nat);
        let k = (d.len() - 1) as nat;
        assert(pow10(d.len() as nat) == 10 * pow10(k));
        assert((acc * 10 + dval(d[0]) as nat) * pow10(k) == acc * (10 * pow10(k)) + dval(
            d[0],
        ) as nat * pow10(k)) by (nonlinear_arith);
    }
}

/// What the first character of serialized output can be: never whitespace
/// and never a separator or closer.
proof fn lemma_ser_first(v: JsonV)
    requires
        no_raw(v),
    ensures
        ser(v).len() >= 1,
        !is_ws(ser(v)[0]),
        ser(v)[0] != ']',
        ser(v)[0] != '}',
        ser(v)[0] != ',',
        ser(v)[0] != ':',
        ser(v)[0] != '"' || v is Str,
{
    match v {
        JsonV::Num(n) => {
            lemma_ser_num_val(n);
            assert(is_digit(ser(v)[0]));
        },
        JsonV::NumRaw(_) => {
            assert(false);
        },
        JsonV::Str(s) => {
            assert(ser(v)[0] == (seq!['"'] + esc(s) + seq!['"'])[0]);
        },
        JsonV::Arr(a) => {
            if a.len() == 0 {
            } else {
                assert(ser(v)[0] == (seq!['['] + ser_items(a) + seq![']'])[0]);
            }
        },
        JsonV::Obj(o) => {
            if o.len() == 0 {
            } else {
                assert(ser(v)[0] == (seq!['{'] + ser_pairs(o) + seq!['}'])[0]);
            }
        },
        _ => {},
    }
}

/// A hexadecimal digit character carries its value back.
proof fn lemma_hexdig_val(d: u32)
    requires
        d < 16,
    ensures
        is_hex(hexdig(d)),
        hex_val(hexdig(d)) == d,
{
}

/// Scanning serialized, escaped string content recovers the string.
proof fn lemma_pstr_content(t: Seq<char>, s: Seq<char>, i: int, acc: Seq<char>)
    requires
        0 <= i,
        i + esc(t).len() < s.len(),
        s.subrange(i, i + esc(t).len()) == esc(t),
        s[i + esc(t).len()] == '"',
    ensures
        pstr_rec(s, i, acc) == Some((acc + t, i + esc(t).len() + 1)),
    decreases t.len(),
{
    if t.len() == 0 {
        assert(esc(t).len() == 0);
        assert(s[i] == '"');
        assert(acc + t =~= acc);
    } else {
        let c = t[0];
        let t2 = t.drop_first();
        assert(esc(t) == esc_char(c) + esc(t2));
        lemma_window_split(s, i, esc_char(c), esc(t2));
        let w = esc_char(c);
        if c == '"' || c == '\\' {
            lemma_window_index(s, i, w, 0);
            lemma_window_index(s, i, w, 1);
            assert(s[i] == '\\' && s[i + 1] == c);
            lemma_pstr_content(t2, s, i + 2, acc.push(c));
            assert(acc.push(c) + t2 =~= acc + t);
        } else if c == '\u{8}' || c == '\t' || c == '\n' || c == '\u{c}' || c == '\r' {
            lemma_window_index(s, i, w, 0);
            lemma_window_index(s, i, w, 1);
            assert(s[i] == '\\');
            lemma_pstr_content(t2, s, i + 2, acc.push(c));
            assert(acc.push(c) + t2 =~= acc + t);
        } else if (c as u32) < 0x20 {
            lemma_window_index(s, i, w, 0);
            lemma_window_index(s, i, w, 1);
            lemma_window_index(s, i, w, 2);
            lemma_window_index(s, i, w, 3);
            lemma_window_index(s, i, w, 4);
            lemma_window_index(s, i, w, 5);
            let hi = (c as u32) / 16;
            let lo = (c as u32) % 16;
            lemma_hexdig_val(hi);
            lemma_hexdig_val(lo);
            assert(s[i] == '\\' && s[i + 1] == 'u');
            assert(s[i + 2] == '0' && s[i + 3] == '0');
            assert(s[i + 4] == hexdig(hi) && s[i + 5] == hexdig(lo));
            assert(is_hex('0') && hex_val('0') == 0);
            assert(hex4_at(s, i + 2));
            assert(hex4(s, i + 2) == hi * 16 + lo);
            assert(hi * 16 + lo == c as u32) by {
                vstd::arithmetic::div_mod::lemma_fundamental_div_mod(c as u32 as int, 16);
            }
            assert(hex4(s, i + 2) < 0x20);
            vstd::utf8::char_u32_cast(c, c as u32);
            assert((hex4(s, i + 2) as char) == c);
            assert(pu_escape(s, i) == Some((c, i + 6)));
            lemma_pstr_content(t2, s, i + 6, acc.push(c));
            assert(acc.push(c) + t2 =~= acc + t);
        } else {
            lemma_window_index(s, i, w, 0);
            assert(s[i] == c);
            lemma_pstr_content(t2, s, i + 1, acc.push(c));
            assert(acc.push(c) + t2 =~= acc + t);
        }
    }
}

/// Whether a tree holds no opaque number node.  Opaque numbers carry the
/// verbatim token text of the wire, which the serializer cannot promise to
/// reproduce recognizably, so the inversion law is stated for trees without
/// them; nothing in this crate ever builds one.
pub open spec fn no_raw(v: JsonV) -> bool
    decreases v, 1int,
{
    match v {
        JsonV::NumRaw(_) => false,
        JsonV::Arr(a) => no_raw_list(a),
        JsonV::Obj(o) => no_raw_obj(o),
        _ => true,
    }
}

pub open spec fn no_raw_list(a: Seq<JsonV>) -> bool
    decreases a, 0int,
{
    a.len() == 0 || (no_raw(a[0]) && no_raw_list(a.drop_first()))
}

pub open spec fn no_raw_obj(o: Seq<(Seq<char>, JsonV)>) -> bool
    decreases o, 0int,
{
    o.len() == 0 || ({
        proof {
            assert(decreases_to!(o[0] => o[0].1));
        }
        no_raw(o[0].1) && no_raw_obj(o.drop_first())
    })
}

/// A list whose elements all lack opaque numbers lacks them itself.
pub proof fn lemma_no_raw_list_all(a: Seq<JsonV>)
    requires
        forall|i: int| 0 <= i < a.len() ==> no_raw(#[trigger] a[i]),
    ensures
        no_raw_list(a),
    decreases a.len(),
{
    if a.len() > 0 {
        assert forall|i: int| 0 <= i < a.drop_first().len() implies no_raw(
            #[trigger] a.drop_first()[i],
        ) by {
            assert(a.drop_first()[i] == a[i + 1]);
        }
        lemma_no_raw_list_all(a.drop_first());
    }
}

/// An object whose member values all lack opaque numbers lacks them itself.
pub proof fn lemma_no_raw_obj_all(o: Seq<(Seq<char>, JsonV)>)
    requires
        forall|i: int| 0 <= i < o.len() ==> no_raw(#[trigger] o[i].1),
    ensures
        no_raw_obj(o),
    decreases o.len(),
{
    if o.len() > 0 {
        assert forall|i: int| 0 <= i < o.drop_first().len() implies no_raw(
            #[trigger] o.drop_first()[i].1,
        ) by {
            assert(o.drop_first()[i] == o[i + 1]);
        }
        lemma_no_raw_obj_all(o.drop_first());
    }
}

/// Scanning a window of digits ends exactly at its boundary.
proof fn lemma_numtok_scan(s: Seq<char>, i: int, d: Seq<char>)
    requires
        0 <= i,
        i + d.len() <= s.len(),
        s.subrange(i, i + d.len()) == d,
        all_digits(d),
        i + d.len() == s.len() || !is_numch(s[i + d.len()]),
    ensures
        numtok_end(s, i) == i + d.len(),
    decreases d.len(),
{
    if d.len() == 0 {
        if i < s.len() {
            assert(!is_numch(s[i]));
        }
    } else {
        lemma_window_index(s, i, d, 0);
        assert(is_digit(s[i]));
        let d2 = d.drop_first();
        assert(d =~= seq![d[0]] + d2);
        lemma_window_split(s, i, seq![d[0]], d2);
        assert forall|k: int| 0 <= k < d2.len() implies is_digit(#[trigger] d2[k]) by {
            assert(d2[k] == d[k + 1]);
        }
        lemma_numtok_scan(s, i + 1, d2);
    }
}

/// Parsing starts where serialized output starts: at a value, whose first
/// character is never whitespace, so a leading whitespace skip stands still.
proof fn lemma_skip_at(s: Seq<char>, i: int)
    requires
        i == s.len() || (0 <= i < s.len() && !is_ws(s[i])),
    ensures
        skip_ws(s, i) == i,
{
}

/// The parser, run on a window holding the serialized text of `v` (with no
/// digit immediately after), returns exactly `v` and stops just after it.
proof fn lemma_pval_ser(v: JsonV, s: Seq<char>, i: int)
    requires
        no_raw(v),
        0 <= i,
        i + ser(v).len() <= s.len(),
        s.subrange(i, i + ser(v).len()) == ser(v),
        i + ser(v).len() == s.len() || !is_numch(s[i + ser(v).len()]),
    ensures
        pval(s, i) == Some((v, i + ser(v).len())),
    decreases v, 2int,
{
    let w = ser(v);
    lemma_ser_first(v);
    lemma_window_index(s, i, w, 0);
    match v {
        JsonV::Null => {
            lemma_window_index(s, i, w, 1);
            lemma_window_index(s, i, w, 2);
            lemma_window_index(s, i, w, 3);
        },
        JsonV::Bool(b) => {
            lemma_window_index(s, i, w, 1);
            lemma_window_index(s, i, w, 2);
            lemma_window_index(s, i, w, 3);
            if !b {
                lemma_window_index(s, i, w, 4);
            }
        },
        JsonV::Num(n) => {
            lemma_ser_num_val(n);
            lemma_numtok_scan(s, i, w);
            assert(s.subrange(i, numtok_end(s, i)) == w);
            assert(dseq_val(w) == n);
        },
        JsonV::NumRaw(_) => {
            assert(false);
        },
        JsonV::Str(t) => {
            let e = esc(t);
            assert(w =~= seq!['"'] + (e + seq!['"']));
            lemma_window_split(s, i, seq!['"'], e + seq!['"']);
            lemma_window_split(s, i + 1, e, seq!['"']);
            lemma_window_index(s, i + 1 + e.len(), seq!['"'], 0);
            lemma_pstr_content(t, s, i + 1, Seq::empty());
            assert(Seq::empty() + t =~= t);
        },
        JsonV::Arr(a) => {
            if a.len() == 0 {
                lemma_window_index(s, i, w, 1);
                lemma_skip_at(s, i + 1);
                assert(a =~= Seq::<JsonV>::empty());
            } else {
                let items = ser_items(a);
                assert(w =~= seq!['['] + (items + seq![']']));
                lemma_window_split(s, i, seq!['['], items + seq![']']);
                lemma_window_split(s, i + 1, items, seq![']']);
                lemma_window_index(s, i + 1 + items.len(), seq![']'], 0);
                lemma_ser_first(a[0]);
                assert(items[0] == ser(a[0])[0]);
                lemma_window_index(s, i + 1, items, 0);
                lemma_skip_at(s, i + 1);
                lemma_parr_ser(a, s, i + 1);
            }
        },
        JsonV::Obj(o) => {
            if o.len() == 0 {
                lemma_window_index(s, i, w, 1);
                lemma_skip_at(s, i + 1);
                assert(o =~= Seq::<(Seq<char>, JsonV)>::empty());
            } else {
                let pairs = ser_pairs(o);
                assert(w =~= seq!['{'] + (pairs + seq!['}']));
                lemma_window_split(s, i, seq!['{'], pairs + seq!['}']);
                lemma_window_split(s, i + 1, pairs, seq!['}']);
                lemma_window_index(s, i + 1 + pairs.len(), seq!['}'], 0);
                assert(pairs[0] == '"');
                lemma_window_index(s, i + 1, pairs, 0);
                lemma_skip_at(s, i + 1);
                lemma_pobj_ser(o, s, i + 1);
            }
        },
    }
}

/// As `lemma_pval_ser`, for the element list of a non-empty array: the
/// window holds the comma-joined elements and a closing bracket follows.
proof fn lemma_parr_ser(a: Seq<JsonV>, s: Seq<char>, i: int)
    requires
        no_raw_list(a),
        a.len() >= 1,
        0 <= i,
        i + ser_items(a).len() < s.len(),
        s.subrange(i, i + ser_items(a).len()) == ser_items(a),
        s[i + ser_items(a).len()] == ']',
    ensures
        parr(s, i) == Some((a, i + ser_items(a).len() + 1)),
    decreases a, 1int,
{
    let v0 = a[0];
    let w0 = ser(v0);
    lemma_ser_first(v0);
    if a.len() == 1 {
        assert(ser_items(a) == w0);
        lemma_pval_ser(v0, s, i);
        let j = i + w0.len();
        lemma_skip_at(s, j);
        assert(seq![v0] =~= a);
    } else {
        let rest = a.drop_first();
        assert(no_raw(a[0]) && no_raw_list(rest));
        assert(no_raw(rest[0]));
        let items2 = ser_items(rest);
        assert(ser_items(a) =~= w0 + (seq![','] + items2));
        lemma_window_split(s, i, w0, seq![','] + items2);
        lemma_window_split(s, i + w0.len(), seq![','], items2);
        lemma_window_index(s, i + w0.len(), seq![','], 0);
        lemma_pval_ser(v0, s, i);
        let j = i + w0.len();
        lemma_skip_at(s, j);
        lemma_ser_first(rest[0]);
        assert(items2[0] == ser(rest[0])[0]);
        lemma_window_index(s, j + 1, items2, 0);
        lemma_skip_at(s, j + 1);
        lemma_parr_ser(rest, s, j + 1);
        assert(seq![v0] + rest =~= a);
    }
}

/// As `lemma_pval_ser`, for the member list of a non-empty object: the
/// window holds the comma-joined members and a closing brace follows.
proof fn lemma_pobj_ser(o: Seq<(Seq<char>, JsonV)>, s: Seq<char>, i: int)
    requires
        no_raw_obj(o),
        o.len() >= 1,
        0 <= i,
        i + ser_pairs(o).len() < s.len(),
        s.subrange(i, i + ser_pairs(o).len()) == ser_pairs(o),
        s[i + ser_pairs(o).len()] == '}',
    ensures
        pobj(s, i) == Some((o, i + ser_pairs(o).len() + 1)),
    decreases o, 1int,
{
    let key = o[0].0;
    let val = o[0].1;
    let ek = esc(key);
    let wv = ser(val);
    let kv = seq!['"'] + ek + seq!['"', ':'] + wv;
    lemma_ser_first(val);
    let klen = kv.len();
    if o.len() == 1 {
        assert(ser_pairs(o) == kv);
    } else {
        assert(ser_pairs(o) =~= kv + (seq![','] + ser_pairs(o.drop_first())));
        lemma_window_split(s, i, kv, seq![','] + ser_pairs(o.drop_first()));
    }
    // the member window: quote, escaped key, quote, colon, value
    assert(kv =~= (seq!['"'] + ek) + (seq!['"', ':'] + wv));
    lemma_window_split(s, i, seq!['"'] + ek, seq!['"', ':'] + wv);
    lemma_window_split(s, i, seq!['"'], ek);
    lemma_window_split(s, i + 1 + ek.len(), seq!['"', ':'], wv);
    lemma_window_index(s, i, seq!['"'], 0);
    lemma_window_index(s, i + 1 + ek.len(), seq!['"', ':'], 0);
    lemma_window_index(s, i + 1 + ek.len(), seq!['"', ':'], 1);
    lemma_pstr_content(key, s, i + 1, Seq::empty());
    assert(Seq::empty() + key =~= key);
    let j = i + 1 + ek.len() + 1;
    lemma_skip_at(s, j);
    let m = j + 1;
    lemma_window_index(s, m, wv, 0);
    lemma_skip_at(s, m);
    let e = m + wv.len();
    assert(e == i + klen);
    if o.len() == 1 {
        lemma_window_index(s, i, ser_pairs(o), klen - 1);
        lemma_pval_ser(val, s, m);
        lemma_skip_at(s, e);
        assert(o[0] == (key, val));
        assert(seq![(key, val)] =~= o);
    } else {
        let rest = o.drop_first();
        assert(no_raw(o[0].1) && no_raw_obj(rest));
        assert(no_raw(rest[0].1));
        let pairs2 = ser_pairs(rest);
        lemma_window_index(s, i + klen, seq![','] + pairs2, 0);
        lemma_pval_ser(val, s, m);
        lemma_skip_at(s, e);
        lemma_window_split(s, i + klen, seq![','], pairs2);
        assert(pairs2[0] == '"');
        lemma_window_index(s, i + klen + 1, pairs2, 0);
        lemma_skip_at(s, i + klen + 1);
        lemma_pobj_ser(rest, s, i + klen + 1);
        assert(o[0] == (key, val));
        assert(seq![(key, val)] + rest =~= o);
    }
}

/// The parser inverts the serializer: the serialized text of any JSON value
/// without opaque number nodes parses back to exactly that value.
pub proof fn lemma_parse_ser(v: JsonV)
    requires
        no_raw(v),
    ensures
        parse_text(ser(v)) == Some(v),
{
    let s = ser(v);
    lemma_ser_first(v);
    lemma_skip_at(s, 0);
    assert(s.subrange(0, s.len() as int) =~= s);
    lemma_pval_ser(v, s, 0);
    lemma_skip_at(s, s.len() as int);
}

/// Parses a whole text: one JSON value, possibly surrounded by whitespace,
/// and nothing else, exactly as `parse_text` says.
pub fn parse_json_text(s: &Vec<char>) -> (r: Option<Json>)
    ensures
        (r is Some <==> parse_text(s@) is Some),
        r matches Some(j) ==> parse_text(s@) == Some(json_view(j)),
{
    let i = e_skip_ws(s, 0);
    match parse_value(s, i) {
        Some((j, e)) => {
            let f = e_skip_ws(s, e);
            if f == s.len() {
                Some(j)
            } else {
                None
            }
        },
        None => None,
    }
}

} // verus!
