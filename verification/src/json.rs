//! Canonical JSON: the queue wire format and payload model.
//!
//! Values are modelled by [`JsonVal`]; executable code works on [`Json`].
//! Numbers keep their literal spelling, so every integer literal survives a
//! round trip unchanged. The serializer emits a canonical form (no
//! whitespace, `\"` and `\\` as the only escapes) and the parser accepts
//! exactly that form; [`lemma_parse_serialize`] proves that parsing a
//! serialized value gives the value back.

use vstd::prelude::*;
use vstd::string::*;

verus! {

/// A JSON value, as held by executable code.
pub enum Json {
    Null,
    Bool(bool),
    /// An integer literal, kept as written (for example `-12` or `0`).
    Num(String),
    Str(String),
    Arr(Vec<Json>),
    Obj(Vec<(String, Json)>),
}

/// The mathematical model of a JSON value.
#[verifier::ext_equal]
pub enum JsonVal {
    Null,
    Bool(bool),
    Num(Seq<char>),
    Str(Seq<char>),
    Arr(Seq<JsonVal>),
    Obj(Seq<(Seq<char>, JsonVal)>),
}

pub open spec fn view_json(j: Json) -> JsonVal
    decreases j,
{
    match j {
        Json::Null => JsonVal::Null,
        Json::Bool(b) => JsonVal::Bool(b),
        Json::Num(s) => JsonVal::Num(s@),
        Json::Str(s) => JsonVal::Str(s@),
        Json::Arr(es) => JsonVal::Arr(view_json_list(es@)),
        Json::Obj(ms) => JsonVal::Obj(view_json_members(ms@)),
    }
}

pub open spec fn view_json_list(es: Seq<Json>) -> Seq<JsonVal>
    decreases es,
{
    if es.len() == 0 {
        Seq::empty()
    } else {
        view_json_list(es.drop_last()).push(view_json(es.last()))
    }
}

pub open spec fn view_json_members(ms: Seq<(String, Json)>) -> Seq<(Seq<char>, JsonVal)>
    decreases ms,
{
    if ms.len() == 0 {
        Seq::empty()
    } else {
        view_json_members(ms.drop_last()).push((ms.last().0@, view_json(ms.last().1)))
    }
}

impl View for Json {
    type V = JsonVal;

    open spec fn view(&self) -> JsonVal {
        view_json(*self)
    }
}

pub broadcast proof fn lemma_view_json_list_len(es: Seq<Json>)
    ensures
        #[trigger] view_json_list(es).len() == es.len(),
    decreases es,
{
    if es.len() > 0 {
        lemma_view_json_list_len(es.drop_last());
    }
}

pub broadcast proof fn lemma_view_json_list_index(es: Seq<Json>, i: int)
    requires
        0 <= i < es.len(),
    ensures
        view_json_list(es).len() == es.len(),
        #[trigger] view_json_list(es)[i] == view_json(es[i]),
    decreases es,
{
    lemma_view_json_list_len(es);
    if i < es.len() - 1 {
        lemma_view_json_list_index(es.drop_last(), i);
    }
}

pub broadcast proof fn lemma_view_json_members_len(ms: Seq<(String, Json)>)
    ensures
        #[trigger] view_json_members(ms).len() == ms.len(),
    decreases ms,
{
    if ms.len() > 0 {
        lemma_view_json_members_len(ms.drop_last());
    }
}

pub broadcast proof fn lemma_view_json_members_index(ms: Seq<(String, Json)>, i: int)
    requires
        0 <= i < ms.len(),
    ensures
        view_json_members(ms).len() == ms.len(),
        #[trigger] view_json_members(ms)[i] == (ms[i].0@, view_json(ms[i].1)),
    decreases ms,
{
    lemma_view_json_members_len(ms);
    if i < ms.len() - 1 {
        lemma_view_json_members_index(ms.drop_last(), i);
    }
}

// ---------------------------------------------------------------------------
// Well-formedness
// ---------------------------------------------------------------------------

/// A character that may stand raw in a string: anything but a control
/// character; `"` and `\` are escaped by the serializer.
pub open spec fn spec_string_char_ok(c: char) -> bool {
    c as u32 >= 32
}

pub open spec fn spec_is_digit(c: char) -> bool {
    '0' <= c && c <= '9'
}

/// Insignificant whitespace between tokens.
pub open spec fn spec_is_ws(c: char) -> bool {
    c == ' ' || c == '\t' || c == '\n' || c == '\r'
}

/// A character that could extend a number literal to its right.
pub open spec fn spec_num_cont(c: char) -> bool {
    spec_is_digit(c) || c == '.' || c == 'e' || c == 'E'
}

/// A JSON number literal: exactly a string [`spec_p_num`] accepts whole.
pub open spec fn spec_num_lit_wf(s: Seq<char>) -> bool {
    spec_p_num(s, 0) == Some((s, s.len() as int))
}

/// A value the wire format can carry.
pub open spec fn spec_json_wf(v: JsonVal) -> bool
    decreases v, 1nat,
{
    match v {
        JsonVal::Null => true,
        JsonVal::Bool(_) => true,
        JsonVal::Num(s) => spec_num_lit_wf(s),
        JsonVal::Str(_) => true,
        JsonVal::Arr(es) => spec_json_seq_wf(es),
        JsonVal::Obj(ms) => spec_json_obj_wf(ms),
    }
}

/// Every element of a sequence of values is well-formed.
pub open spec fn spec_json_seq_wf(es: Seq<JsonVal>) -> bool
    decreases es, 0nat,
{
    es.len() == 0 || (spec_json_wf(es[0]) && spec_json_seq_wf(es.skip(1)))
}

/// A well-formed object member: a carryable value; every key is carryable.
pub open spec fn spec_json_member_wf(m: (Seq<char>, JsonVal)) -> bool
    decreases m, 2nat,
{
    spec_json_wf(m.1)
}

/// Every member of an object is well-formed.
pub open spec fn spec_json_obj_wf(ms: Seq<(Seq<char>, JsonVal)>) -> bool
    decreases ms, 0nat,
{
    ms.len() == 0 || (spec_json_member_wf(ms[0]) && spec_json_obj_wf(ms.skip(1)))
}

// ---------------------------------------------------------------------------
// Serialization (specification)
// ---------------------------------------------------------------------------

/// The lowercase hexadecimal digit of a value below 16.
pub open spec fn spec_hex_digit(n: nat) -> char {
    if n == 0 {
        '0'
    } else if n == 1 {
        '1'
    } else if n == 2 {
        '2'
    } else if n == 3 {
        '3'
    } else if n == 4 {
        '4'
    } else if n == 5 {
        '5'
    } else if n == 6 {
        '6'
    } else if n == 7 {
        '7'
    } else if n == 8 {
        '8'
    } else if n == 9 {
        '9'
    } else if n == 10 {
        'a'
    } else if n == 11 {
        'b'
    } else if n == 12 {
        'c'
    } else if n == 13 {
        'd'
    } else if n == 14 {
        'e'
    } else {
        'f'
    }
}

/// The value of a hexadecimal digit in either case; 16 for anything else.
pub open spec fn spec_hex_val(c: char) -> nat {
    if c == '0' {
        0
    } else if c == '1' {
        1
    } else if c == '2' {
        2
    } else if c == '3' {
        3
    } else if c == '4' {
        4
    } else if c == '5' {
        5
    } else if c == '6' {
        6
    } else if c == '7' {
        7
    } else if c == '8' {
        8
    } else if c == '9' {
        9
    } else if c == 'a' || c == 'A' {
        10
    } else if c == 'b' || c == 'B' {
        11
    } else if c == 'c' || c == 'C' {
        12
    } else if c == 'd' || c == 'D' {
        13
    } else if c == 'e' || c == 'E' {
        14
    } else if c == 'f' || c == 'F' {
        15
    } else {
        16
    }
}

/// The character whose code is `n`.
pub open spec fn spec_cp_char(n: nat) -> char {
    n as char
}

/// The code of one `\uXXXX` escape: four hexadecimal digits from `i`.
pub open spec fn spec_hex4(s: Seq<char>, i: int) -> nat {
    4096 * spec_hex_val(s[i]) + 256 * spec_hex_val(s[i + 1]) + 16 * spec_hex_val(s[i + 2])
        + spec_hex_val(s[i + 3])
}

/// A surrogate code point: not a scalar value on its own.
pub open spec fn spec_is_surrogate(n: nat) -> bool {
    0xD800 <= n < 0xE000
}

/// What a short escape letter stands for: the two quoting characters, the
/// solidus, and the five named control characters.
pub open spec fn spec_short_escape(c: char) -> Option<char> {
    if c == '"' {
        Some('"')
    } else if c == '\\' {
        Some('\\')
    } else if c == '/' {
        Some('/')
    } else if c == 'b' {
        Some('\u{8}')
    } else if c == 't' {
        Some('\t')
    } else if c == 'n' {
        Some('\n')
    } else if c == 'f' {
        Some('\u{c}')
    } else if c == 'r' {
        Some('\r')
    } else {
        None
    }
}

/// The escaped form of one character of a string body: `"` and `\` take a
/// backslash, the five named control characters their short escapes, any
/// other control character a `\u00XX` escape, and everything else stands
/// raw.
pub open spec fn spec_esc_char(c: char) -> Seq<char> {
    if c == '"' {
        seq!['\\', '"']
    } else if c == '\\' {
        seq!['\\', '\\']
    } else if c == '\u{8}' {
        seq!['\\', 'b']
    } else if c == '\t' {
        seq!['\\', 't']
    } else if c == '\n' {
        seq!['\\', 'n']
    } else if c == '\u{c}' {
        seq!['\\', 'f']
    } else if c == '\r' {
        seq!['\\', 'r']
    } else if (c as u32) < 32 {
        seq![
            '\\',
            'u',
            '0',
            '0',
            spec_hex_digit(((c as u32) / 16) as nat),
            spec_hex_digit(((c as u32) % 16) as nat),
        ]
    } else {
        seq![c]
    }
}

/// The escaped form of a string body: `\` before `"` and `\`.
pub open spec fn spec_escape(s: Seq<char>) -> Seq<char>
    decreases s,
{
    if s.len() == 0 {
        Seq::empty()
    } else {
        spec_esc_char(s[0]) + spec_escape(s.skip(1))
    }
}

/// The canonical serialization of a value: no whitespace, object members in
/// the order held, `\"` and `\\` the only escapes.
pub open spec fn spec_ser(v: JsonVal) -> Seq<char>
    decreases v, 1nat,
{
    match v {
        JsonVal::Null => "null"@,
        JsonVal::Bool(b) => if b {
            "true"@
        } else {
            "false"@
        },
        JsonVal::Num(s) => s,
        JsonVal::Str(s) => seq!['"'] + spec_escape(s) + seq!['"'],
        JsonVal::Arr(es) => seq!['['] + spec_ser_items(es) + seq![']'],
        JsonVal::Obj(ms) => seq!['{'] + spec_ser_members(ms) + seq!['}'],
    }
}

/// Comma-separated serializations of array elements.
pub open spec fn spec_ser_items(es: Seq<JsonVal>) -> Seq<char>
    decreases es, 0nat,
{
    if es.len() == 0 {
        Seq::empty()
    } else if es.len() == 1 {
        spec_ser(es[0])
    } else {
        spec_ser(es[0]) + seq![','] + spec_ser_items(es.skip(1))
    }
}

/// Comma-separated serializations of object members, each `"key":value`.
pub open spec fn spec_ser_member(m: (Seq<char>, JsonVal)) -> Seq<char>
    decreases m, 1nat,
{
    seq!['"'] + spec_escape(m.0) + seq!['"', ':'] + spec_ser(m.1)
}

pub open spec fn spec_ser_members(ms: Seq<(Seq<char>, JsonVal)>) -> Seq<char>
    decreases ms, 0nat,
{
    if ms.len() == 0 {
        Seq::empty()
    } else if ms.len() == 1 {
        spec_ser_member(ms[0])
    } else {
        spec_ser_member(ms[0]) + seq![','] + spec_ser_members(ms.skip(1))
    }
}

// ---------------------------------------------------------------------------
// Parsing (specification)
// ---------------------------------------------------------------------------

/// `lit` stands in `s` at position `i`.
pub open spec fn spec_lit_at(s: Seq<char>, i: int, lit: Seq<char>) -> bool {
    0 <= i && i + lit.len() <= s.len() && s.subrange(i, i + lit.len()) == lit
}

/// Parses a string body from just after the opening quote to just after the
/// closing quote; yields the unescaped content.
pub open spec fn spec_p_chars(s: Seq<char>, i: int) -> Option<(Seq<char>, int)>
    decreases s.len() - i,
{
    if !(0 <= i < s.len()) {
        None
    } else if s[i] == '"' {
        Some((Seq::empty(), i + 1))
    } else if s[i] == '\\' {
        if i + 1 < s.len() && s[i + 1] == 'u' {
            if i + 5 < s.len() && spec_hex_val(s[i + 2]) < 16 && spec_hex_val(s[i + 3]) < 16
                && spec_hex_val(s[i + 4]) < 16 && spec_hex_val(s[i + 5]) < 16 && !spec_is_surrogate(
                spec_hex4(s, i + 2),
            ) {
                match spec_p_chars(s, i + 6) {
                    Some((t, j)) => Some((seq![spec_cp_char(spec_hex4(s, i + 2))] + t, j)),
                    None => None,
                }
            } else {
                None
            }
        } else if i + 1 < s.len() && spec_short_escape(s[i + 1]) is Some {
            match spec_p_chars(s, i + 2) {
                Some((t, j)) => Some((seq![spec_short_escape(s[i + 1]).unwrap()] + t, j)),
                None => None,
            }
        } else {
            None
        }
    } else if spec_string_char_ok(s[i]) {
        match spec_p_chars(s, i + 1) {
            Some((t, j)) => Some((seq![s[i]] + t, j)),
            None => None,
        }
    } else {
        None
    }
}

/// The index of the first non-whitespace character at or after `i`.
pub open spec fn spec_skip_ws(s: Seq<char>, i: int) -> int
    decreases s.len() - i,
{
    if 0 <= i < s.len() && spec_is_ws(s[i]) {
        spec_skip_ws(s, i + 1)
    } else {
        i
    }
}

/// The index just past the run of digits starting at `i`.
pub open spec fn spec_p_digits_end(s: Seq<char>, i: int) -> int
    decreases s.len() - i,
{
    if 0 <= i < s.len() && spec_is_digit(s[i]) {
        spec_p_digits_end(s, i + 1)
    } else {
        i
    }
}

/// Parses a number literal: an optional minus, an integer part without a
/// leading zero, an optional fraction, an optional exponent. Yields the
/// literal itself.
pub open spec fn spec_p_num(s: Seq<char>, i: int) -> Option<(Seq<char>, int)> {
    if i < 0 {
        None
    } else {
        let d = if i < s.len() && s[i] == '-' {
            i + 1
        } else {
            i
        };
        if !(d < s.len() && spec_is_digit(s[d])) {
            None
        } else {
            let ie = if s[d] == '0' {
                d + 1
            } else {
                spec_p_digits_end(s, d)
            };
            if ie < s.len() && s[ie] == '.' {
                if spec_p_digits_end(s, ie + 1) == ie + 1 {
                    None
                } else {
                    spec_p_num_exp(s, i, spec_p_digits_end(s, ie + 1))
                }
            } else {
                spec_p_num_exp(s, i, ie)
            }
        }
    }
}

/// Parses the optional exponent from `m` on; yields the literal from `i`.
pub open spec fn spec_p_num_exp(s: Seq<char>, i: int, m: int) -> Option<(Seq<char>, int)> {
    if m < s.len() && (s[m] == 'e' || s[m] == 'E') {
        let sp = if m + 1 < s.len() && (s[m + 1] == '+' || s[m + 1] == '-') {
            m + 2
        } else {
            m + 1
        };
        if spec_p_digits_end(s, sp) == sp {
            None
        } else {
            Some((s.subrange(i, spec_p_digits_end(s, sp)), spec_p_digits_end(s, sp)))
        }
    } else {
        Some((s.subrange(i, m), m))
    }
}

/// Parses one value starting at `i`. `fuel` bounds the nesting depth; any
/// fuel above the remaining length gives the same result.
pub open spec fn spec_p_value(s: Seq<char>, i: int, fuel: nat) -> Option<(JsonVal, int)>
    decreases fuel, s.len() - i, 0nat,
{
    let j = spec_skip_ws(s, i);
    if fuel == 0 || !(0 <= i && j < s.len()) {
        None
    } else {
        let c = s[j];
        if c == 'n' {
            if spec_lit_at(s, j, "null"@) {
                Some((JsonVal::Null, j + 4))
            } else {
                None
            }
        } else if c == 't' {
            if spec_lit_at(s, j, "true"@) {
                Some((JsonVal::Bool(true), j + 4))
            } else {
                None
            }
        } else if c == 'f' {
            if spec_lit_at(s, j, "false"@) {
                Some((JsonVal::Bool(false), j + 5))
            } else {
                None
            }
        } else if c == '"' {
            match spec_p_chars(s, j + 1) {
                Some((t, k)) => Some((JsonVal::Str(t), k)),
                None => None,
            }
        } else if c == '-' || spec_is_digit(c) {
            match spec_p_num(s, j) {
                Some((t, k)) => Some((JsonVal::Num(t), k)),
                None => None,
            }
        } else if c == '[' {
            let a = spec_skip_ws(s, j + 1);
            if a < s.len() && s[a] == ']' {
                Some((JsonVal::Arr(Seq::empty()), a + 1))
            } else {
                match spec_p_items(s, j + 1, (fuel - 1) as nat) {
                    Some((es, k)) => Some((JsonVal::Arr(es), k)),
                    None => None,
                }
            }
        } else if c == '{' {
            let a = spec_skip_ws(s, j + 1);
            if a < s.len() && s[a] == '}' {
                Some((JsonVal::Obj(Seq::empty()), a + 1))
            } else {
                match spec_p_members(s, j + 1, (fuel - 1) as nat) {
                    Some((ms, k)) => Some((JsonVal::Obj(ms), k)),
                    None => None,
                }
            }
        } else {
            None
        }
    }
}

/// Parses one or more comma-separated values and the closing `]`.
pub open spec fn spec_p_items(s: Seq<char>, i: int, fuel: nat) -> Option<(Seq<JsonVal>, int)>
    decreases fuel, s.len() - i, 1nat,
{
    if !(0 <= i <= s.len()) {
        None
    } else {
        match spec_p_value(s, i, fuel) {
            None => None,
            Some((v, j)) => {
                let j2 = spec_skip_ws(s, j);
                if i < j2 && j2 < s.len() && s[j2] == ',' {
                    match spec_p_items(s, j2 + 1, fuel) {
                        Some((es, k)) => Some((seq![v] + es, k)),
                        None => None,
                    }
                } else if j2 < s.len() && s[j2] == ']' {
                    Some((seq![v], j2 + 1))
                } else {
                    None
                }
            },
        }
    }
}

/// Parses one or more comma-separated `"key":value` members and the closing
/// `}`.
pub open spec fn spec_p_members(s: Seq<char>, i: int, fuel: nat) -> Option<
    (Seq<(Seq<char>, JsonVal)>, int),
>
    decreases fuel, s.len() - i, 1nat,
{
    let q = spec_skip_ws(s, i);
    if !(0 <= i && q < s.len() && s[q] == '"') {
        None
    } else {
        match spec_p_chars(s, q + 1) {
            None => None,
            Some((k, j)) => {
                let j2 = spec_skip_ws(s, j);
                if i < j2 && j2 < s.len() && s[j2] == ':' {
                    match spec_p_value(s, j2 + 1, fuel) {
                        None => None,
                        Some((v, m)) => {
                            let m2 = spec_skip_ws(s, m);
                            if i < m2 && m2 < s.len() && s[m2] == ',' {
                                match spec_p_members(s, m2 + 1, fuel) {
                                    Some((ms, e)) => Some((seq![(k, v)] + ms, e)),
                                    None => None,
                                }
                            } else if m2 < s.len() && s[m2] == '}' {
                                Some((seq![(k, v)], m2 + 1))
                            } else {
                                None
                            }
                        },
                    }
                } else {
                    None
                }
            },
        }
    }
}

// ---------------------------------------------------------------------------
// Serialization (executable)
// ---------------------------------------------------------------------------

/// Relies on `String`'s `FromIterator<char>` implementation: collecting
/// characters in order yields the string of exactly those characters.
#[verifier::external_body]
pub(crate) fn chars_to_string(v: Vec<char>) -> (r: String)
    ensures
        r@ == v@,
{
    v.into_iter().collect()
}

/// Relies on `char::from_u32`: a code point below 0x10000 that is not a
/// surrogate is a scalar value, and the character made carries exactly that
/// code.
#[verifier::external_body]
fn char_from_code(cp: u32) -> (r: char)
    requires
        cp < 0x10000,
        !spec_is_surrogate(cp as nat),
    ensures
        r == spec_cp_char(cp as nat),
{
    char::from_u32(cp).unwrap()
}

/// Builds a character vector holding the same characters as `s`.
pub fn str_to_chars(s: &str) -> (r: Vec<char>)
    ensures
        r@ == s@,
{
    let n = s.unicode_len();
    let mut out: Vec<char> = Vec::new();
    let mut k: usize = 0;
    while k < n
        invariant
            n == s@.len(),
            k <= n,
            out@ == s@.take(k as int),
        decreases n - k,
    {
        out.push(s.get_char(k));
        proof {
            assert(s@.take(k + 1 as int) =~= s@.take(k as int).push(s@[k as int]));
        }
        k = k + 1;
    }
    proof {
        assert(s@.take(n as int) =~= s@);
    }
    out
}

proof fn lemma_escape_snoc(s: Seq<char>, c: char)
    ensures
        spec_escape(s.push(c)) == spec_escape(s) + spec_esc_char(c),
    decreases s.len(),
{
    if s.len() == 0 {
        assert(spec_escape(s.push(c)) =~= spec_esc_char(c)) by {
            reveal_with_fuel(spec_escape, 3);
            assert(s.push(c).skip(1) =~= Seq::<char>::empty());
        }
        assert(spec_escape(s) + spec_esc_char(c) =~= spec_esc_char(c));
    } else {
        assert(s.push(c).skip(1) =~= s.skip(1).push(c));
        lemma_escape_snoc(s.skip(1), c);
        assert(spec_escape(s.push(c)) =~= spec_escape(s) + spec_esc_char(c));
    }
}

/// Appends the characters of `s` unchanged.
fn write_str_raw(s: &str, out: &mut Vec<char>)
    ensures
        final(out)@ == old(out)@ + s@,
{
    let n = s.unicode_len();
    let mut k: usize = 0;
    while k < n
        invariant
            n == s@.len(),
            k <= n,
            out@ == old(out)@ + s@.take(k as int),
        decreases n - k,
    {
        out.push(s.get_char(k));
        proof {
            assert(s@.take(k + 1 as int) =~= s@.take(k as int).push(s@[k as int]));
            assert(old(out)@ + s@.take(k + 1 as int) =~= (old(out)@ + s@.take(k as int)).push(
                s@[k as int],
            ));
        }
        k = k + 1;
    }
    proof {
        assert(s@.take(n as int) =~= s@);
    }
}

/// The lowercase hexadecimal digit of a value below 16.
fn hex_digit_char(d: u32) -> (r: char)
    requires
        d < 16,
    ensures
        r == spec_hex_digit(d as nat),
{
    match d {
        0 => '0',
        1 => '1',
        2 => '2',
        3 => '3',
        4 => '4',
        5 => '5',
        6 => '6',
        7 => '7',
        8 => '8',
        9 => '9',
        10 => 'a',
        11 => 'b',
        12 => 'c',
        13 => 'd',
        14 => 'e',
        _ => 'f',
    }
}

/// Appends the escaped form of `s`.
fn write_escaped(s: &str, out: &mut Vec<char>)
    ensures
        final(out)@ == old(out)@ + spec_escape(s@),
{
    let n = s.unicode_len();
    let mut k: usize = 0;
    while k < n
        invariant
            n == s@.len(),
            k <= n,
            out@ == old(out)@ + spec_escape(s@.take(k as int)),
        decreases n - k,
    {
        let c = s.get_char(k);
        if c == '"' {
            out.push('\\');
            out.push('"');
        } else if c == '\\' {
            out.push('\\');
            out.push('\\');
        } else if c == '\u{8}' {
            out.push('\\');
            out.push('b');
        } else if c == '\t' {
            out.push('\\');
            out.push('t');
        } else if c == '\n' {
            out.push('\\');
            out.push('n');
        } else if c == '\u{c}' {
            out.push('\\');
            out.push('f');
        } else if c == '\r' {
            out.push('\\');
            out.push('r');
        } else if (c as u32) < 32 {
            out.push('\\');
            out.push('u');
            out.push('0');
            out.push('0');
            out.push(hex_digit_char((c as u32) / 16));
            out.push(hex_digit_char((c as u32) % 16));
        } else {
            out.push(c);
        }
        proof {
            assert(s@.take(k + 1 as int) =~= s@.take(k as int).push(s@[k as int]));
            lemma_escape_snoc(s@.take(k as int), s@[k as int]);
            assert(out@ =~= old(out)@ + spec_escape(s@.take(k + 1 as int)));
        }
        k = k + 1;
    }
    proof {
        assert(s@.take(n as int) =~= s@);
    }
}

/// Appends the canonical serialization of `j`.
fn write_json(j: &Json, out: &mut Vec<char>)
    ensures
        final(out)@ == old(out)@ + spec_ser(j@),
    decreases j, 0nat,
{
    match j {
        Json::Null => {
            write_str_raw("null", out);
        },
        Json::Bool(b) => {
            if *b {
                write_str_raw("true", out);
            } else {
                write_str_raw("false", out);
            }
        },
        Json::Num(s) => {
            write_str_raw(s.as_str(), out);
        },
        Json::Str(s) => {
            out.push('"');
            write_escaped(s.as_str(), out);
            out.push('"');
            proof {
                assert(out@ =~= old(out)@ + spec_ser(j@));
            }
        },
        Json::Arr(es) => {
            out.push('[');
            if es.len() > 0 {
                write_items(es, 0, out);
            }
            out.push(']');
            proof {
                lemma_view_json_list_len(es@);
                if es@.len() > 0 {
                    assert(view_json_list(es@).skip(0) =~= view_json_list(es@));
                }
                assert(out@ =~= old(out)@ + spec_ser(j@));
            }
        },
        Json::Obj(ms) => {
            out.push('{');
            if ms.len() > 0 {
                write_members(ms, 0, out);
            }
            out.push('}');
            proof {
                lemma_view_json_members_len(ms@);
                if ms@.len() > 0 {
                    assert(view_json_members(ms@).skip(0) =~= view_json_members(ms@));
                }
                assert(out@ =~= old(out)@ + spec_ser(j@));
            }
        },
    }
}

/// Appends the serializations of the elements from `k` on, comma-separated.
fn write_items(es: &Vec<Json>, k: usize, out: &mut Vec<char>)
    requires
        k < es@.len(),
    ensures
        final(out)@ == old(out)@ + spec_ser_items(view_json_list(es@).skip(k as int)),
    decreases es@, es@.len() - k, 1nat,
{
    proof {
        lemma_view_json_list_len(es@);
        lemma_view_json_list_index(es@, k as int);
    }
    write_json(&es[k], out);
    let ghost tail = view_json_list(es@).skip(k as int);
    if k < es.len() - 1 {
        out.push(',');
        write_items(es, k + 1, out);
        proof {
            assert(tail.skip(1) =~= view_json_list(es@).skip(k + 1 as int));
            assert(tail[0] == view_json(es@[k as int]));
            assert(out@ =~= old(out)@ + spec_ser_items(tail));
        }
    } else {
        proof {
            assert(tail.len() == 1);
            assert(tail[0] == view_json(es@[k as int]));
            assert(out@ =~= old(out)@ + spec_ser_items(tail));
        }
    }
}

/// Appends the serializations of the members from `k` on, comma-separated.
fn write_members(ms: &Vec<(String, Json)>, k: usize, out: &mut Vec<char>)
    requires
        k < ms@.len(),
    ensures
        final(out)@ == old(out)@ + spec_ser_members(view_json_members(ms@).skip(k as int)),
    decreases ms@, ms@.len() - k, 1nat,
{
    proof {
        lemma_view_json_members_len(ms@);
        lemma_view_json_members_index(ms@, k as int);
    }
    let m = &ms[k];
    out.push('"');
    write_escaped(m.0.as_str(), out);
    out.push('"');
    out.push(':');
    write_json(&m.1, out);
    let ghost tail = view_json_members(ms@).skip(k as int);
    proof {
        assert(tail[0] == (ms@[k as int].0@, view_json(ms@[k as int].1)));
        assert(out@ =~= old(out)@ + spec_ser_member(tail[0]));
    }
    if k < ms.len() - 1 {
        out.push(',');
        write_members(ms, k + 1, out);
        proof {
            assert(tail.skip(1) =~= view_json_members(ms@).skip(k + 1 as int));
            assert(out@ =~= old(out)@ + spec_ser_members(tail));
        }
    } else {
        proof {
            assert(tail.len() == 1);
            assert(out@ =~= old(out)@ + spec_ser_members(tail));
        }
    }
}

/// The canonical serialization of `j` as a string.
pub fn to_json_string(j: &Json) -> (r: String)
    ensures
        r@ == spec_ser(j@),
{
    let mut out: Vec<char> = Vec::new();
    write_json(j, &mut out);
    chars_to_string(out)
}

// ---------------------------------------------------------------------------
// Parsing (executable)
// ---------------------------------------------------------------------------

proof fn lemma_view_json_list_cons(v: Json, rest: Seq<Json>)
    ensures
        view_json_list(seq![v] + rest) == seq![view_json(v)] + view_json_list(rest),
{
    let l = seq![v] + rest;
    lemma_view_json_list_len(l);
    lemma_view_json_list_len(rest);
    assert(view_json_list(l) =~= seq![view_json(v)] + view_json_list(rest)) by {
        assert forall|k: int| 0 <= k < l.len() implies view_json_list(l)[k] == (seq![view_json(v)]
            + view_json_list(rest))[k] by {
            lemma_view_json_list_index(l, k);
            if k > 0 {
                lemma_view_json_list_index(rest, k - 1);
            }
        }
    }
}

proof fn lemma_view_json_members_cons(m: (String, Json), rest: Seq<(String, Json)>)
    ensures
        view_json_members(seq![m] + rest) == seq![(m.0@, view_json(m.1))] + view_json_members(
            rest,
        ),
{
    let l = seq![m] + rest;
    lemma_view_json_members_len(l);
    lemma_view_json_members_len(rest);
    assert(view_json_members(l) =~= seq![(m.0@, view_json(m.1))] + view_json_members(rest)) by {
        assert forall|k: int| 0 <= k < l.len() implies view_json_members(l)[k] == (seq![
            (m.0@, view_json(m.1)),
        ] + view_json_members(rest))[k] by {
            lemma_view_json_members_index(l, k);
            if k > 0 {
                lemma_view_json_members_index(rest, k - 1);
            }
        }
    }
}

/// Whether `lit` stands in `s` at position `i`.
fn lit_at(s: &Vec<char>, i: usize, lit: &str) -> (r: bool)
    ensures
        r == spec_lit_at(s@, i as int, lit@),
{
    let n = lit.unicode_len();
    if i > s.len() || n > s.len() - i {
        return false;
    }
    let mut k: usize = 0;
    while k < n
        invariant
            n == lit@.len(),
            i + n <= s@.len(),
            s@.len() <= usize::MAX,
            k <= n,
            s@.subrange(i as int, i + k as int) == lit@.take(k as int),
        decreases n - k,
    {
        if s[i + k] != lit.get_char(k) {
            proof {
                assert(s@.subrange(i as int, i + n as int)[k as int] == s@[i + k]);
                assert(lit@[k as int] != s@[i + k]);
            }
            return false;
        }
        proof {
            assert(s@.subrange(i as int, i + (k + 1) as int) =~= s@.subrange(
                i as int,
                i + k as int,
            ).push(s@[i + k]));
            assert(lit@.take(k + 1 as int) =~= lit@.take(k as int).push(lit@[k as int]));
        }
        k = k + 1;
    }
    proof {
        assert(lit@.take(n as int) =~= lit@);
    }
    true
}

/// Copies `s[i..j]` into a fresh vector.
fn subvec_chars(s: &Vec<char>, i: usize, j: usize) -> (r: Vec<char>)
    requires
        i <= j <= s@.len(),
    ensures
        r@ == s@.subrange(i as int, j as int),
{
    let mut out: Vec<char> = Vec::new();
    let mut k: usize = i;
    while k < j
        invariant
            i <= k <= j <= s@.len(),
            out@ == s@.subrange(i as int, k as int),
        decreases j - k,
    {
        out.push(s[k]);
        proof {
            assert(s@.subrange(i as int, k + 1 as int) =~= s@.subrange(i as int, k as int).push(
                s@[k as int],
            ));
        }
        k = k + 1;
    }
    out
}

/// The value of a hexadecimal digit in either case; 16 for anything else.
fn hex_val(c: char) -> (r: u32)
    ensures
        r == spec_hex_val(c),
{
    match c {
        '0' => 0,
        '1' => 1,
        '2' => 2,
        '3' => 3,
        '4' => 4,
        '5' => 5,
        '6' => 6,
        '7' => 7,
        '8' => 8,
        '9' => 9,
        'a' | 'A' => 10,
        'b' | 'B' => 11,
        'c' | 'C' => 12,
        'd' | 'D' => 13,
        'e' | 'E' => 14,
        'f' | 'F' => 15,
        _ => 16,
    }
}

/// What a short escape letter stands for.
fn short_unescape(c: char) -> (r: Option<char>)
    ensures
        r == spec_short_escape(c),
{
    match c {
        '"' => Some('"'),
        '\\' => Some('\\'),
        '/' => Some('/'),
        'b' => Some('\u{8}'),
        't' => Some('\t'),
        'n' => Some('\n'),
        'f' => Some('\u{c}'),
        'r' => Some('\r'),
        _ => None,
    }
}

/// Mirrors [`spec_p_chars`].
fn parse_chars(s: &Vec<char>, i: usize) -> (r: Option<(Vec<char>, usize)>)
    ensures
        match r {
            Some((t, j)) => spec_p_chars(s@, i as int) == Some((t@, j as int)) && i < j
                <= s@.len(),
            None => spec_p_chars(s@, i as int) is None,
        },
    decreases s@.len() - i,
{
    if i >= s.len() {
        return None;
    }
    let c = s[i];
    if c == '"' {
        let empty: Vec<char> = Vec::new();
        proof {
            assert(empty@ =~= Seq::<char>::empty());
        }
        Some((empty, i + 1))
    } else if c == '\\' {
        if i + 1 < s.len() && s[i + 1] == 'u' {
            if s.len() - i > 5 && hex_val(s[i + 2]) < 16 && hex_val(s[i + 3]) < 16 && hex_val(
                s[i + 4],
            ) < 16 && hex_val(s[i + 5]) < 16 {
                let cp: u32 = 4096 * hex_val(s[i + 2]) + 256 * hex_val(s[i + 3]) + 16 * hex_val(
                    s[i + 4],
                ) + hex_val(s[i + 5]);
                if 0xD800 <= cp && cp < 0xE000 {
                    return None;
                }
                let ch = char_from_code(cp);
                proof {
                    assert(ch == spec_cp_char(spec_hex4(s@, i + 2 as int)));
                }
                match parse_chars(s, i + 6) {
                    Some((mut t, j)) => {
                        let mut out: Vec<char> = Vec::new();
                        out.push(ch);
                        out.append(&mut t);
                        proof {
                            assert(out@ =~= seq![ch] + spec_p_chars(s@, i + 6).unwrap().0);
                        }
                        Some((out, j))
                    },
                    None => None,
                }
            } else {
                None
            }
        } else if i + 1 < s.len() {
            match short_unescape(s[i + 1]) {
                Some(u) => match parse_chars(s, i + 2) {
                    Some((mut t, j)) => {
                        let mut out: Vec<char> = Vec::new();
                        out.push(u);
                        out.append(&mut t);
                        proof {
                            assert(out@ =~= seq![u] + spec_p_chars(s@, i + 2).unwrap().0);
                        }
                        Some((out, j))
                    },
                    None => None,
                },
                None => None,
            }
        } else {
            None
        }
    } else if (c as u32) >= 32 {
        match parse_chars(s, i + 1) {
            Some((mut t, j)) => {
                let mut out: Vec<char> = Vec::new();
                out.push(c);
                out.append(&mut t);
                proof {
                    assert(out@ =~= seq![s@[i as int]] + spec_p_chars(s@, i + 1).unwrap().0);
                }
                Some((out, j))
            },
            None => None,
        }
    } else {
        None
    }
}

/// Mirrors [`spec_skip_ws`].
fn skip_ws(s: &Vec<char>, i: usize) -> (r: usize)
    requires
        i <= s@.len(),
    ensures
        r == spec_skip_ws(s@, i as int),
        i <= r <= s@.len(),
    decreases s@.len() - i,
{
    if i < s.len() && (s[i] == ' ' || s[i] == '\t' || s[i] == '\n' || s[i] == '\r') {
        skip_ws(s, i + 1)
    } else {
        i
    }
}

/// Mirrors [`spec_p_digits_end`].
fn digits_end(s: &Vec<char>, i: usize) -> (r: usize)
    requires
        i <= s@.len(),
    ensures
        r == spec_p_digits_end(s@, i as int),
        i <= r <= s@.len(),
        i < s@.len() && spec_is_digit(s@[i as int]) ==> r >= i + 1,
    decreases s@.len() - i,
{
    if i < s.len() && s[i] >= '0' && s[i] <= '9' {
        digits_end(s, i + 1)
    } else {
        i
    }
}

/// Mirrors [`spec_p_num`].
fn parse_num(s: &Vec<char>, i: usize) -> (r: Option<(Vec<char>, usize)>)
    ensures
        match r {
            Some((t, j)) => spec_p_num(s@, i as int) == Some((t@, j as int)) && t@ == s@.subrange(
                i as int,
                j as int,
            ) && i < j <= s@.len(),
            None => spec_p_num(s@, i as int) is None,
        },
{
    let d = if i < s.len() && s[i] == '-' {
        i + 1
    } else {
        i
    };
    if !(d < s.len() && s[d] >= '0' && s[d] <= '9') {
        return None;
    }
    proof {
        assert(spec_is_digit(s@[d as int]));
    }
    let ie = if s[d] == '0' {
        d + 1
    } else {
        digits_end(s, d)
    };
    let m: usize;
    if ie < s.len() && s[ie] == '.' {
        let fe = digits_end(s, ie + 1);
        if fe == ie + 1 {
            return None;
        }
        m = fe;
    } else {
        m = ie;
    }
    if m < s.len() && (s[m] == 'e' || s[m] == 'E') {
        let sp = if m + 1 < s.len() && (s[m + 1] == '+' || s[m + 1] == '-') {
            m + 2
        } else {
            m + 1
        };
        let ee = digits_end(s, sp);
        if ee == sp {
            return None;
        }
        Some((subvec_chars(s, i, ee), ee))
    } else {
        Some((subvec_chars(s, i, m), m))
    }
}

/// Mirrors [`spec_p_value`].
fn parse_value(s: &Vec<char>, i: usize, fuel: usize) -> (r: Option<(Json, usize)>)
    ensures
        match r {
            Some((v, j)) => spec_p_value(s@, i as int, fuel as nat) == Some((v@, j as int)) && i
                < j <= s@.len(),
            None => spec_p_value(s@, i as int, fuel as nat) is None,
        },
    decreases fuel, s@.len() - i, 0nat,
{
    if fuel == 0 || i > s.len() {
        return None;
    }
    let j = skip_ws(s, i);
    if j >= s.len() {
        return None;
    }
    let c = s[j];
    if c == 'n' {
        if lit_at(s, j, "null") {
            proof {
                reveal_strlit("null");
            }
            Some((Json::Null, j + 4))
        } else {
            None
        }
    } else if c == 't' {
        if lit_at(s, j, "true") {
            proof {
                reveal_strlit("true");
            }
            Some((Json::Bool(true), j + 4))
        } else {
            None
        }
    } else if c == 'f' {
        if lit_at(s, j, "false") {
            proof {
                reveal_strlit("false");
            }
            Some((Json::Bool(false), j + 5))
        } else {
            None
        }
    } else if c == '"' {
        match parse_chars(s, j + 1) {
            Some((t, k)) => Some((Json::Str(chars_to_string(t)), k)),
            None => None,
        }
    } else if c == '-' || (c >= '0' && c <= '9') {
        match parse_num(s, j) {
            Some((t, k)) => Some((Json::Num(chars_to_string(t)), k)),
            None => None,
        }
    } else if c == '[' {
        let a = skip_ws(s, j + 1);
        if a < s.len() && s[a] == ']' {
            let empty: Vec<Json> = Vec::new();
            proof {
                assert(view_json_list(empty@) =~= Seq::<JsonVal>::empty());
            }
            Some((Json::Arr(empty), a + 1))
        } else {
            match parse_items(s, j + 1, fuel - 1) {
                Some((es, k)) => Some((Json::Arr(es), k)),
                None => None,
            }
        }
    } else if c == '{' {
        let a = skip_ws(s, j + 1);
        if a < s.len() && s[a] == '}' {
            let empty: Vec<(String, Json)> = Vec::new();
            proof {
                assert(view_json_members(empty@) =~= Seq::<(Seq<char>, JsonVal)>::empty());
            }
            Some((Json::Obj(empty), a + 1))
        } else {
            match parse_members(s, j + 1, fuel - 1) {
                Some((ms, k)) => Some((Json::Obj(ms), k)),
                None => None,
            }
        }
    } else {
        None
    }
}

/// Mirrors [`spec_p_items`].
fn parse_items(s: &Vec<char>, i: usize, fuel: usize) -> (r: Option<(Vec<Json>, usize)>)
    ensures
        match r {
            Some((es, j)) => spec_p_items(s@, i as int, fuel as nat) == Some(
                (view_json_list(es@), j as int),
            ) && i < j <= s@.len(),
            None => spec_p_items(s@, i as int, fuel as nat) is None,
        },
    decreases fuel, s@.len() - i, 1nat,
{
    if i > s.len() {
        return None;
    }
    match parse_value(s, i, fuel) {
        None => None,
        Some((v, j)) => {
            let j2 = skip_ws(s, j);
            if j2 < s.len() && s[j2] == ',' {
                match parse_items(s, j2 + 1, fuel) {
                    Some((mut es, k)) => {
                        let ghost rest = es@;
                        let mut out: Vec<Json> = Vec::new();
                        out.push(v);
                        out.append(&mut es);
                        proof {
                            assert(out@ =~= seq![v] + rest);
                            lemma_view_json_list_cons(v, rest);
                            assert(seq![view_json(v)] + view_json_list(rest)
                                == spec_p_items(s@, i as int, fuel as nat).unwrap().0);
                        }
                        Some((out, k))
                    },
                    None => None,
                }
            } else if j2 < s.len() && s[j2] == ']' {
                let mut out: Vec<Json> = Vec::new();
                out.push(v);
                proof {
                    assert(out@ =~= seq![v] + Seq::<Json>::empty());
                    lemma_view_json_list_cons(v, Seq::<Json>::empty());
                    assert(seq![v] + Seq::<Json>::empty() =~= seq![v]);
                    assert(seq![view_json(v)] + view_json_list(Seq::<Json>::empty()) =~= seq![
                        view_json(v),
                    ]);
                }
                Some((out, j2 + 1))
            } else {
                None
            }
        },
    }
}

/// Mirrors [`spec_p_members`].
fn parse_members(s: &Vec<char>, i: usize, fuel: usize) -> (r: Option<(Vec<(String, Json)>, usize)>)
    ensures
        match r {
            Some((ms, j)) => spec_p_members(s@, i as int, fuel as nat) == Some(
                (view_json_members(ms@), j as int),
            ) && i < j <= s@.len(),
            None => spec_p_members(s@, i as int, fuel as nat) is None,
        },
    decreases fuel, s@.len() - i, 1nat,
{
    if i > s.len() {
        return None;
    }
    let q = skip_ws(s, i);
    if q >= s.len() || s[q] != '"' {
        return None;
    }
    match parse_chars(s, q + 1) {
        None => None,
        Some((kt, j)) => {
            let key = chars_to_string(kt);
            let j2 = skip_ws(s, j);
            if j2 < s.len() && s[j2] == ':' {
                match parse_value(s, j2 + 1, fuel) {
                    None => None,
                    Some((v, m)) => {
                        let m2 = skip_ws(s, m);
                        if m2 < s.len() && s[m2] == ',' {
                            match parse_members(s, m2 + 1, fuel) {
                                Some((mut ms, e)) => {
                                    let ghost rest = ms@;
                                    let mut out: Vec<(String, Json)> = Vec::new();
                                    out.push((key, v));
                                    out.append(&mut ms);
                                    proof {
                                        assert(out@ =~= seq![(key, v)] + rest);
                                        lemma_view_json_members_cons((key, v), rest);
                                    }
                                    Some((out, e))
                                },
                                None => None,
                            }
                        } else if m2 < s.len() && s[m2] == '}' {
                            let mut out: Vec<(String, Json)> = Vec::new();
                            out.push((key, v));
                            proof {
                                assert(out@ =~= seq![(key, v)] + Seq::<(String, Json)>::empty());
                                lemma_view_json_members_cons(
                                    (key, v),
                                    Seq::<(String, Json)>::empty(),
                                );
                                assert(seq![(key, v)] + Seq::<(String, Json)>::empty() =~= seq![
                                    (key, v),
                                ]);
                                assert(seq![(key@, view_json(v))] + view_json_members(
                                    Seq::<(String, Json)>::empty(),
                                ) =~= seq![(key@, view_json(v))]);
                            }
                            Some((out, m2 + 1))
                        } else {
                            None
                        }
                    },
                }
            } else {
                None
            }
        },
    }
}

/// Parses a canonical JSON text; `None` exactly when `s` is not one.
pub fn parse_json(s: &str) -> (r: Option<Json>)
    requires
        s@.len() < usize::MAX,
    ensures
        match r {
            Some(v) => spec_parse_text(s@) == Some(v@),
            None => spec_parse_text(s@) is None,
        },
{
    let cs = str_to_chars(s);
    let n = cs.len();
    match parse_value(&cs, 0, n + 1) {
        Some((v, j)) => {
            if skip_ws(&cs, j) == n {
                Some(v)
            } else {
                None
            }
        },
        None => None,
    }
}

/// Parses a whole text: one value that consumes every character.
pub open spec fn spec_parse_text(s: Seq<char>) -> Option<JsonVal> {
    match spec_p_value(s, 0, (s.len() + 1) as nat) {
        Some((v, j)) => if spec_skip_ws(s, j) == s.len() {
            Some(v)
        } else {
            None
        },
        None => None,
    }
}

// ---------------------------------------------------------------------------
// Deep copy
// ---------------------------------------------------------------------------

impl Json {
    /// A copy with the same view.
    pub fn clone_json(&self) -> (r: Json)
        ensures
            r@ == self@,
        decreases self, 0nat,
    {
        match self {
            Json::Null => Json::Null,
            Json::Bool(b) => Json::Bool(*b),
            Json::Num(s) => Json::Num(s.clone()),
            Json::Str(s) => Json::Str(s.clone()),
            Json::Arr(es) => {
                let r = Json::Arr(clone_json_list(es, 0));
                proof {
                    assert(view_json_list(es@).skip(0) =~= view_json_list(es@));
                }
                r
            },
            Json::Obj(ms) => {
                let r = Json::Obj(clone_json_members(ms, 0));
                proof {
                    assert(view_json_members(ms@).skip(0) =~= view_json_members(ms@));
                }
                r
            },
        }
    }
}

fn clone_json_list(es: &Vec<Json>, k: usize) -> (r: Vec<Json>)
    requires
        k <= es@.len(),
    ensures
        view_json_list(r@) == view_json_list(es@).skip(k as int),
    decreases es@, es@.len() - k, 1nat,
{
    proof {
        lemma_view_json_list_len(es@);
    }
    if k == es.len() {
        let out: Vec<Json> = Vec::new();
        proof {
            assert(view_json_list(out@) =~= view_json_list(es@).skip(k as int));
        }
        out
    } else {
        let head = es[k].clone_json();
        let mut rest = clone_json_list(es, k + 1);
        let ghost rest0 = rest@;
        let mut out: Vec<Json> = Vec::new();
        out.push(head);
        out.append(&mut rest);
        proof {
            assert(out@ =~= seq![head] + rest0);
            lemma_view_json_list_cons(head, rest0);
            lemma_view_json_list_index(es@, k as int);
            assert(view_json_list(es@).skip(k as int) =~= seq![view_json(es@[k as int])]
                + view_json_list(es@).skip(k + 1 as int));
        }
        out
    }
}

fn clone_json_members(ms: &Vec<(String, Json)>, k: usize) -> (r: Vec<(String, Json)>)
    requires
        k <= ms@.len(),
    ensures
        view_json_members(r@) == view_json_members(ms@).skip(k as int),
    decreases ms@, ms@.len() - k, 1nat,
{
    proof {
        lemma_view_json_members_len(ms@);
    }
    if k == ms.len() {
        let out: Vec<(String, Json)> = Vec::new();
        proof {
            assert(view_json_members(out@) =~= view_json_members(ms@).skip(k as int));
        }
        out
    } else {
        let m = &ms[k];
        let head = (m.0.clone(), m.1.clone_json());
        let mut rest = clone_json_members(ms, k + 1);
        let ghost rest0 = rest@;
        let ghost headg = head;
        let mut out: Vec<(String, Json)> = Vec::new();
        out.push(head);
        out.append(&mut rest);
        proof {
            assert(out@ =~= seq![headg] + rest0);
            lemma_view_json_members_cons(headg, rest0);
            lemma_view_json_members_index(ms@, k as int);
            assert(view_json_members(ms@).skip(k as int) =~= seq![
                (ms@[k as int].0@, view_json(ms@[k as int].1)),
            ] + view_json_members(ms@).skip(k + 1 as int));
        }
        out
    }
}

/// Appends one element to an array under construction.
pub(crate) fn push_item(es: &mut Vec<Json>, v: Json)
    ensures
        view_json_list(final(es)@) == view_json_list(old(es)@).push(v@),
{
    let ghost vg = v;
    es.push(v);
    proof {
        lemma_view_json_list_len(old(es)@);
        lemma_view_json_list_len(es@);
        assert(es@.drop_last() =~= old(es)@);
        assert(es@.last() == vg);
        assert(view_json_list(es@) == view_json_list(es@.drop_last()).push(
            view_json(es@.last()),
        ));
        assert(view_json_list(es@) =~= view_json_list(old(es)@).push(vg@));
    }
}

// ---------------------------------------------------------------------------
// Well-formedness (executable) and object lookup
// ---------------------------------------------------------------------------

/// Character-for-character string equality.
pub fn str_eq(a: &str, b: &str) -> (r: bool)
    ensures
        r == (a@ == b@),
{
    let n = a.unicode_len();
    let m = b.unicode_len();
    if n != m {
        proof {
            assert(a@ != b@);
        }
        return false;
    }
    let mut k: usize = 0;
    while k < n
        invariant
            n == a@.len(),
            n == b@.len(),
            k <= n,
            forall|t: int| 0 <= t < k ==> a@[t] == b@[t],
        decreases n - k,
    {
        if a.get_char(k) != b.get_char(k) {
            proof {
                assert(a@[k as int] != b@[k as int]);
            }
            return false;
        }
        k = k + 1;
    }
    proof {
        assert(a@ =~= b@);
    }
    true
}

/// Whether `s` is a well-formed number literal.
pub fn num_lit_wf(s: &str) -> (r: bool)
    ensures
        r == spec_num_lit_wf(s@),
{
    let cs = str_to_chars(s);
    match parse_num(&cs, 0) {
        Some((t, j)) => {
            let whole = j == cs.len();
            proof {
                if whole {
                    assert(s@.subrange(0, s@.len() as int) =~= s@);
                    assert(t@ == s@);
                }
            }
            whole
        },
        None => false,
    }
}

/// Whether the wire format can carry `j`.
#[verifier::rlimit(50)]
pub fn json_wf(j: &Json) -> (r: bool)
    ensures
        r == spec_json_wf(j@),
    decreases j, 0nat,
{
    match j {
        Json::Null => true,
        Json::Bool(_) => true,
        Json::Num(s) => {
            let r = num_lit_wf(s.as_str());
            proof {
                assert(j@ == JsonVal::Num(s@));
                assert(r == spec_json_wf(j@));
            }
            r
        },
        Json::Str(_) => true,
        Json::Arr(es) => {
            proof {
                lemma_view_json_list_len(es@);
            }
            let r = json_list_wf(es, 0);
            proof {
                assert(view_json_list(es@).skip(0) =~= view_json_list(es@));
            }
            r
        },
        Json::Obj(ms) => {
            proof {
                lemma_view_json_members_len(ms@);
            }
            let r = json_members_wf(ms, 0);
            proof {
                assert(view_json_members(ms@).skip(0) =~= view_json_members(ms@));
            }
            r
        },
    }
}

fn json_list_wf(es: &Vec<Json>, k: usize) -> (r: bool)
    requires
        k <= es@.len(),
    ensures
        r == spec_json_seq_wf(view_json_list(es@).skip(k as int)),
    decreases es@, es@.len() - k, 1nat,
{
    proof {
        lemma_view_json_list_len(es@);
    }
    let ghost tail = view_json_list(es@).skip(k as int);
    if k == es.len() {
        proof {
            assert(tail.len() == 0);
        }
        true
    } else {
        proof {
            lemma_view_json_list_index(es@, k as int);
            assert(tail[0] == view_json(es@[k as int]));
            assert(tail.skip(1) =~= view_json_list(es@).skip(k + 1 as int));
        }
        if json_wf(&es[k]) {
            json_list_wf(es, k + 1)
        } else {
            false
        }
    }
}

fn json_members_wf(ms: &Vec<(String, Json)>, k: usize) -> (r: bool)
    requires
        k <= ms@.len(),
    ensures
        r == spec_json_obj_wf(view_json_members(ms@).skip(k as int)),
    decreases ms@, ms@.len() - k, 1nat,
{
    proof {
        lemma_view_json_members_len(ms@);
    }
    let ghost tail = view_json_members(ms@).skip(k as int);
    if k == ms.len() {
        proof {
            assert(tail.len() == 0);
        }
        true
    } else {
        proof {
            lemma_view_json_members_index(ms@, k as int);
            assert(tail[0] == (ms@[k as int].0@, view_json(ms@[k as int].1)));
            assert(tail.skip(1) =~= view_json_members(ms@).skip(k + 1 as int));
            assert(spec_json_member_wf(tail[0]) == spec_json_wf(view_json(ms@[k as int].1)));
        }
        let m = &ms[k];
        if json_wf(&m.1) {
            json_members_wf(ms, k + 1)
        } else {
            false
        }
    }
}

/// The value under `key` in an object's member list: the first match.
pub open spec fn spec_obj_get(ms: Seq<(Seq<char>, JsonVal)>, key: Seq<char>) -> Option<JsonVal>
    decreases ms,
{
    if ms.len() == 0 {
        None
    } else if ms[0].0 == key {
        Some(ms[0].1)
    } else {
        spec_obj_get(ms.skip(1), key)
    }
}

pub proof fn lemma_obj_get_at(ms: Seq<(Seq<char>, JsonVal)>, key: Seq<char>, k: int)
    requires
        0 <= k <= ms.len(),
        forall|t: int| 0 <= t < k ==> (#[trigger] ms[t]).0 != key,
        k < ms.len() ==> ms[k].0 == key,
    ensures
        k < ms.len() ==> spec_obj_get(ms, key) == Some(ms[k].1),
        k == ms.len() ==> spec_obj_get(ms, key) is None,
    decreases k,
{
    if ms.len() == 0 {
    } else if k == 0 {
    } else {
        assert(ms[0].0 != key);
        let rest = ms.skip(1);
        assert(forall|t: int| 0 <= t < rest.len() ==> rest[t] == ms[t + 1]);
        lemma_obj_get_at(rest, key, k - 1);
    }
}

/// Looks `key` up among an object's members.
pub fn obj_lookup<'a>(ms: &'a Vec<(String, Json)>, key: &str) -> (r: Option<&'a Json>)
    ensures
        match r {
            Some(v) => spec_obj_get(view_json_members(ms@), key@) == Some(v@),
            None => spec_obj_get(view_json_members(ms@), key@) is None,
        },
{
    proof {
        lemma_view_json_members_len(ms@);
    }
    let ghost mv = view_json_members(ms@);
    let n = ms.len();
    let mut k: usize = 0;
    while k < n
        invariant
            n == ms@.len(),
            mv == view_json_members(ms@),
            mv.len() == n,
            k <= n,
            forall|t: int| 0 <= t < k ==> (#[trigger] mv[t]).0 != key@,
        decreases n - k,
    {
        let m = &ms[k];
        if str_eq(m.0.as_str(), key) {
            proof {
                lemma_view_json_members_index(ms@, k as int);
                lemma_obj_get_at(mv, key@, k as int);
            }
            return Some(&m.1);
        }
        proof {
            lemma_view_json_members_index(ms@, k as int);
        }
        k = k + 1;
    }
    proof {
        lemma_obj_get_at(mv, key@, n as int);
    }
    None
}

// ---------------------------------------------------------------------------
// Round trip: parsing a serialized value gives the value back
// ---------------------------------------------------------------------------

proof fn lemma_lit_at_index(s: Seq<char>, i: int, l: Seq<char>, k: int)
    requires
        spec_lit_at(s, i, l),
        0 <= k < l.len(),
    ensures
        s[i + k] == l[k],
{
    assert(s.subrange(i, i + l.len())[k] == s[i + k]);
}

proof fn lemma_lit_at_split(s: Seq<char>, i: int, a: Seq<char>, b: Seq<char>)
    requires
        spec_lit_at(s, i, a + b),
    ensures
        spec_lit_at(s, i, a),
        spec_lit_at(s, i + a.len(), b),
{
    assert(s.subrange(i, i + a.len()) =~= a) by {
        assert forall|k: int| 0 <= k < a.len() implies s.subrange(i, i + a.len())[k] == a[k] by {
            lemma_lit_at_index(s, i, a + b, k);
        }
    }
    assert(s.subrange(i + a.len(), i + a.len() + b.len()) =~= b) by {
        assert forall|k: int| 0 <= k < b.len() implies s.subrange(
            i + a.len(),
            i + a.len() + b.len(),
        )[k] == b[k] by {
            lemma_lit_at_index(s, i, a + b, a.len() + k);
        }
    }
}

pub(crate) proof fn lemma_digits_end_run(s: Seq<char>, d: int, e: int)
    requires
        0 <= d <= e <= s.len(),
        forall|k: int| d <= k < e ==> spec_is_digit(#[trigger] s[k]),
        e == s.len() || !spec_is_digit(s[e]),
    ensures
        spec_p_digits_end(s, d) == e,
    decreases e - d,
{
    if d < e {
        lemma_digits_end_run(s, d + 1, e);
    }
}

proof fn lemma_digits_end_translate(t: Seq<char>, s: Seq<char>, i: int, a: int)
    requires
        spec_lit_at(s, i, t),
        0 <= a <= t.len(),
        i + t.len() == s.len() || !spec_is_digit(s[i + t.len()]),
    ensures
        spec_p_digits_end(s, i + a) == i + spec_p_digits_end(t, a),
        a <= spec_p_digits_end(t, a) <= t.len(),
    decreases t.len() - a,
{
    if a < t.len() && spec_is_digit(t[a]) {
        lemma_lit_at_index(s, i, t, a);
        lemma_digits_end_translate(t, s, i, a + 1);
    } else if a < t.len() {
        lemma_lit_at_index(s, i, t, a);
    }
}

#[verifier::rlimit(100)]
proof fn lemma_rt_num_exp(t: Seq<char>, s: Seq<char>, i: int, m: int)
    requires
        spec_lit_at(s, i, t),
        0 <= m <= t.len(),
        spec_p_num_exp(t, 0, m) == Some((t, t.len() as int)),
        i + t.len() == s.len() || !spec_num_cont(s[i + t.len()]),
    ensures
        spec_p_num_exp(s, i, i + m) == Some((t, i + t.len())),
{
    let n = t.len() as int;
    assert(s.subrange(i, i + n) == t);
    if m < n && (t[m] == 'e' || t[m] == 'E') {
        lemma_lit_at_index(s, i, t, m);
        assert(m + 1 < n) by {
            if m + 1 >= n {
                lemma_digits_end_translate(t, s, i, m + 1);
                assert(spec_p_digits_end(t, m + 1) == m + 1);
                assert(spec_p_num_exp(t, 0, m) is None);
            }
        }
        lemma_lit_at_index(s, i, t, m + 1);
        let sp: int = if t[m + 1] == '+' || t[m + 1] == '-' {
            m + 2
        } else {
            m + 1
        };
        assert(sp <= n);
        lemma_digits_end_translate(t, s, i, sp);
        let ee = spec_p_digits_end(t, sp);
        assert(ee != sp) by {
            if ee == sp {
                assert(spec_p_num_exp(t, 0, m) is None);
            }
        }
        assert(ee == n) by {
            assert(spec_p_num_exp(t, 0, m) == Some((t.subrange(0, ee), ee)));
        }
        assert(spec_p_num_exp(s, i, i + m) == Some((s.subrange(i, i + ee), i + ee)));
    } else {
        assert(m == n) by {
            assert(spec_p_num_exp(t, 0, m) == Some((t.subrange(0, m), m)));
        }
        assert(spec_p_num_exp(s, i, i + m) == Some((s.subrange(i, i + m), i + m)));
    }
}

#[verifier::rlimit(100)]
proof fn lemma_rt_num(t: Seq<char>, s: Seq<char>, i: int)
    requires
        spec_num_lit_wf(t),
        spec_lit_at(s, i, t),
        i + t.len() == s.len() || !spec_num_cont(s[i + t.len()]),
    ensures
        spec_p_num(s, i) == Some((t, i + t.len())),
{
    let n = t.len() as int;
    let end = i + n;
    assert(s.subrange(i, end) == t);
    assert(spec_p_num(t, 0) == Some((t, n)));
    assert(n > 0) by {
        if n == 0 {
            assert(spec_p_num(t, 0) is None);
        }
    }
    lemma_lit_at_index(s, i, t, 0);
    let f: int = if t[0] == '-' {
        1
    } else {
        0
    };
    assert(f < n && spec_is_digit(t[f])) by {
        if !(f < n && spec_is_digit(t[f])) {
            assert(spec_p_num(t, 0) is None);
        }
    }
    lemma_lit_at_index(s, i, t, f);
    let d = i + f;
    assert(s[d] == t[f]);
    lemma_digits_end_translate(t, s, i, f);
    let ie: int = if t[f] == '0' {
        f + 1
    } else {
        spec_p_digits_end(t, f)
    };
    assert(ie <= n);
    assert(spec_p_digits_end(s, d) == i + spec_p_digits_end(t, f));
    if ie < n && t[ie] == '.' {
        lemma_lit_at_index(s, i, t, ie);
        lemma_digits_end_translate(t, s, i, ie + 1);
        let fe = spec_p_digits_end(t, ie + 1);
        assert(fe != ie + 1) by {
            if fe == ie + 1 {
                assert(spec_p_num(t, 0) is None);
            }
        }
        assert(spec_p_num_exp(t, 0, fe) == Some((t, n)));
        lemma_rt_num_exp(t, s, i, fe);
        assert(spec_p_num(s, i) == spec_p_num_exp(s, i, i + fe));
    } else {
        if ie < n {
            lemma_lit_at_index(s, i, t, ie);
            assert(s[i + ie] != '.');
        }
        assert(spec_p_num_exp(t, 0, ie) == Some((t, n)));
        lemma_rt_num_exp(t, s, i, ie);
        assert(spec_p_num(s, i) == spec_p_num_exp(s, i, i + ie));
    }
}

proof fn lemma_cp_char_round(c: char)
    requires
        (c as u32) < 0xD800,
    ensures
        spec_cp_char((c as u32) as nat) == c,
{
}

proof fn lemma_hex_round(n: nat)
    requires
        n < 16,
    ensures
        spec_hex_val(spec_hex_digit(n)) == n,
{
}

#[verifier::rlimit(100)]
proof fn lemma_rt_chars(t: Seq<char>, s: Seq<char>, i: int)
    requires
        spec_lit_at(s, i, spec_escape(t) + seq!['"']),
    ensures
        spec_p_chars(s, i) == Some((t, i + spec_escape(t).len() + 1)),
    decreases t.len(),
{
    if t.len() == 0 {
        assert(spec_escape(t) + seq!['"'] =~= seq!['"']);
        lemma_lit_at_index(s, i, seq!['"'], 0);
        assert(spec_p_chars(s, i) == Some((Seq::<char>::empty(), i + 1)));
        assert(t =~= Seq::<char>::empty());
    } else {
        let c = t[0];
        let rest = t.skip(1);
        let e = spec_esc_char(c);
        assert(spec_escape(t) == e + spec_escape(rest));
        assert(spec_escape(t) + seq!['"'] =~= e + (spec_escape(rest) + seq!['"']));
        lemma_lit_at_split(s, i, e, spec_escape(rest) + seq!['"']);
        if c == '"' || c == '\\' {
            assert(e =~= seq!['\\', c]);
            lemma_lit_at_index(s, i, e, 0);
            lemma_lit_at_index(s, i, e, 1);
            assert(s[i] == '\\' && s[i + 1] == c);
            assert(s[i + 1] != 'u');
            assert(spec_short_escape(s[i + 1]) == Some(c));
            lemma_rt_chars(rest, s, i + 2);
            assert(seq![c] + rest =~= t);
        } else if c == '\u{8}' || c == '\t' || c == '\n' || c == '\u{c}' || c == '\r' {
            let l: char = if c == '\u{8}' {
                'b'
            } else if c == '\t' {
                't'
            } else if c == '\n' {
                'n'
            } else if c == '\u{c}' {
                'f'
            } else {
                'r'
            };
            assert(e =~= seq!['\\', l]);
            lemma_lit_at_index(s, i, e, 0);
            lemma_lit_at_index(s, i, e, 1);
            assert(s[i] == '\\' && s[i + 1] == l);
            assert(l != 'u');
            assert(spec_short_escape(l) == Some(c));
            lemma_rt_chars(rest, s, i + 2);
            assert(seq![c] + rest =~= t);
        } else if (c as u32) < 32 {
            let v = c as u32;
            let h1 = spec_hex_digit((v / 16) as nat);
            let h2 = spec_hex_digit((v % 16) as nat);
            assert(e =~= seq!['\\', 'u', '0', '0', h1, h2]);
            lemma_lit_at_index(s, i, e, 0);
            lemma_lit_at_index(s, i, e, 1);
            lemma_lit_at_index(s, i, e, 2);
            lemma_lit_at_index(s, i, e, 3);
            lemma_lit_at_index(s, i, e, 4);
            lemma_lit_at_index(s, i, e, 5);
            lemma_hex_round((v / 16) as nat);
            lemma_hex_round((v % 16) as nat);
            lemma_hex_round(0);
            assert(spec_hex_val(s[i + 2]) == 0);
            assert(spec_hex_val(s[i + 3]) == 0);
            assert(spec_hex_val(s[i + 4]) == v / 16);
            assert(spec_hex_val(s[i + 5]) == v % 16);
            lemma_cp_char_round(c);
            assert(spec_hex4(s, i + 2) == v as nat && !spec_is_surrogate(spec_hex4(s, i + 2))) by {
                assert(spec_hex_val(s[i + 4]) == (v / 16) as nat);
                assert(spec_hex_val(s[i + 5]) == (v % 16) as nat);
                assert(16 * ((v / 16) as nat) + ((v % 16) as nat) == v as nat);
            }
            assert(spec_cp_char(spec_hex4(s, i + 2)) == c);
            lemma_rt_chars(rest, s, i + 6);
            assert(seq![c] + rest =~= t);
        } else {
            assert(e =~= seq![c]);
            lemma_lit_at_index(s, i, e, 0);
            assert(s[i] == c);
            assert(spec_string_char_ok(c));
            lemma_rt_chars(rest, s, i + 1);
            assert(seq![s[i]] + rest =~= t);
        }
    }
}

/// The first character a serialized well-formed value can start with.
proof fn lemma_ser_first(v: JsonVal)
    requires
        spec_json_wf(v),
    ensures
        spec_ser(v).len() > 0,
        spec_ser(v)[0] == 'n' || spec_ser(v)[0] == 't' || spec_ser(v)[0] == 'f' || spec_ser(v)[0]
            == '"' || spec_ser(v)[0] == '-' || spec_is_digit(spec_ser(v)[0]) || spec_ser(v)[0]
            == '[' || spec_ser(v)[0] == '{',
{
    match v {
        JsonVal::Null => {
            reveal_strlit("null");
        },
        JsonVal::Bool(b) => {
            reveal_strlit("true");
            reveal_strlit("false");
        },
        JsonVal::Num(t) => {
            assert(spec_ser(v) == t);
            assert(t.len() > 0 && (t[0] == '-' || spec_is_digit(t[0]))) by {
                if t.len() == 0 {
                    assert(spec_p_num(t, 0) is None);
                } else if t[0] != '-' && !spec_is_digit(t[0]) {
                    assert(spec_p_num(t, 0) is None);
                }
            }
        },
        JsonVal::Str(t) => {
            assert(spec_ser(v)[0] == '"');
        },
        JsonVal::Arr(es) => {
            assert(spec_ser(v)[0] == '[');
        },
        JsonVal::Obj(ms) => {
            assert(spec_ser(v)[0] == '{');
        },
    }
}

proof fn lemma_rt_value(v: JsonVal, s: Seq<char>, i: int, fuel: nat)
    requires
        spec_json_wf(v),
        spec_lit_at(s, i, spec_ser(v)),
        i + spec_ser(v).len() == s.len() || !spec_num_cont(s[i + spec_ser(v).len()]),
        fuel >= s.len() - i + 1,
    ensures
        spec_p_value(s, i, fuel) == Some((v, i + spec_ser(v).len())),
    decreases v, 0nat,
{
    let n = spec_ser(v).len();
    lemma_ser_first(v);
    lemma_lit_at_index(s, i, spec_ser(v), 0);
    match v {
        JsonVal::Null => {
            reveal_strlit("null");
            assert(s[i] == 'n');
            assert(spec_p_value(s, i, fuel) == Some((v, i + n)));
        },
        JsonVal::Bool(b) => {
            reveal_strlit("true");
            reveal_strlit("false");
            assert(spec_p_value(s, i, fuel) == Some((v, i + n)));
        },
        JsonVal::Num(t) => {
            assert(s[i] == t[0]);
            lemma_rt_num(t, s, i);
            assert(t[0] == '-' || spec_is_digit(t[0])) by {
                if t[0] != '-' {
                    assert(spec_is_digit(t[0]));
                }
            }
            assert(spec_p_value(s, i, fuel) == Some((v, i + n)));
        },
        JsonVal::Str(t) => {
            assert(s[i] == '"');
            assert(spec_ser(v) =~= seq!['"'] + (spec_escape(t) + seq!['"']));
            lemma_lit_at_split(s, i, seq!['"'], spec_escape(t) + seq!['"']);
            lemma_rt_chars(t, s, i + 1);
            assert(spec_p_value(s, i, fuel) == Some((v, i + n)));
        },
        JsonVal::Arr(es) => {
            assert(s[i] == '[');
            if es.len() == 0 {
                assert(es =~= Seq::<JsonVal>::empty());
                assert(spec_ser_items(es) =~= Seq::<char>::empty());
                assert(spec_ser(v) =~= seq!['[', ']']);
                lemma_lit_at_index(s, i, spec_ser(v), 1);
                assert(s[i + 1] == ']');
            } else {
                assert(spec_ser(v) =~= seq!['['] + (spec_ser_items(es) + seq![']']));
                lemma_lit_at_split(s, i, seq!['['], spec_ser_items(es) + seq![']']);
                lemma_rt_items(es, s, i + 1, (fuel - 1) as nat);
                // the nonempty case is not mistaken for `[]`
                lemma_ser_first(es[0]);
                assert(spec_ser_items(es)[0] == spec_ser(es[0])[0]) by {
                    if es.len() == 1 {
                    } else {
                        assert(spec_ser_items(es) == spec_ser(es[0]) + seq![',']
                            + spec_ser_items(es.skip(1)));
                    }
                }
                lemma_lit_at_index(s, i + 1, spec_ser_items(es) + seq![']'], 0);
                assert(s[i + 1] != ']');
            }
            assert(spec_p_value(s, i, fuel) == Some((v, i + n)));
        },
        JsonVal::Obj(ms) => {
            assert(s[i] == '{');
            if ms.len() == 0 {
                assert(ms =~= Seq::<(Seq<char>, JsonVal)>::empty());
                assert(spec_ser_members(ms) =~= Seq::<char>::empty());
                assert(spec_ser(v) =~= seq!['{', '}']);
                lemma_lit_at_index(s, i, spec_ser(v), 1);
                assert(s[i + 1] == '}');
            } else {
                assert(spec_ser(v) =~= seq!['{'] + (spec_ser_members(ms) + seq!['}']));
                lemma_lit_at_split(s, i, seq!['{'], spec_ser_members(ms) + seq!['}']);
                lemma_rt_members(ms, s, i + 1, (fuel - 1) as nat);
                assert(spec_ser_members(ms)[0] == '"') by {
                    let sm = spec_ser_member(ms[0]);
                    assert(sm =~= seq!['"'] + (spec_escape(ms[0].0) + (seq!['"', ':']
                        + spec_ser(ms[0].1))));
                    assert(sm[0] == '"');
                    assert(sm.len() > 0);
                    if ms.len() == 1 {
                    } else {
                        assert(spec_ser_members(ms) == sm + seq![','] + spec_ser_members(
                            ms.skip(1),
                        ));
                        assert(spec_ser_members(ms)[0] == (sm + seq![','])[0]);
                    }
                }
                lemma_lit_at_index(s, i + 1, spec_ser_members(ms) + seq!['}'], 0);
                assert(s[i + 1] != '}');
            }
            assert(spec_p_value(s, i, fuel) == Some((v, i + n)));
        },
    }
}

proof fn lemma_rt_items(es: Seq<JsonVal>, s: Seq<char>, i: int, fuel: nat)
    requires
        es.len() > 0,
        spec_json_seq_wf(es),
        spec_lit_at(s, i, spec_ser_items(es) + seq![']']),
        fuel >= s.len() - i + 1,
    ensures
        spec_p_items(s, i, fuel) == Some((es, i + spec_ser_items(es).len() + 1)),
    decreases es, 1nat,
{
    let first = es[0];
    let n0 = spec_ser(first).len();
    lemma_ser_first(first);
    if es.len() == 1 {
        assert(spec_ser_items(es) == spec_ser(first));
        assert(spec_ser_items(es) + seq![']'] =~= spec_ser(first) + seq![']']);
        lemma_lit_at_split(s, i, spec_ser(first), seq![']']);
        lemma_lit_at_index(s, i + n0, seq![']'], 0);
        assert(s[i + n0] == ']');
        lemma_rt_value(first, s, i, fuel);
        assert(spec_p_items(s, i, fuel) == Some((seq![first], i + n0 + 1)));
        assert(seq![first] =~= es);
    } else {
        let rest = es.skip(1);
        assert(rest.len() > 0);
        assert(forall|k: int| 0 <= k < rest.len() ==> rest[k] == es[k + 1]);
        assert(spec_ser_items(es) == spec_ser(first) + seq![','] + spec_ser_items(rest));
        assert(spec_ser_items(es) + seq![']'] =~= spec_ser(first) + (seq![','] + (spec_ser_items(
            rest,
        ) + seq![']'])));
        lemma_lit_at_split(s, i, spec_ser(first), seq![','] + (spec_ser_items(rest) + seq![']']));
        lemma_lit_at_split(s, i + n0, seq![','], spec_ser_items(rest) + seq![']']);
        lemma_lit_at_index(s, i + n0, seq![','], 0);
        assert(s[i + n0] == ',');
        lemma_rt_value(first, s, i, fuel);
        lemma_rt_items(rest, s, i + n0 + 1, fuel);
        assert(seq![first] + rest =~= es);
    }
    assert(spec_p_items(s, i, fuel) =~~= Some((es, i + spec_ser_items(es).len() + 1)));
}

proof fn lemma_rt_member(m: (Seq<char>, JsonVal), s: Seq<char>, i: int, fuel: nat)
    requires
        spec_json_wf(m.1),
        spec_lit_at(s, i, spec_ser_member(m)),
        i + spec_ser_member(m).len() < s.len(),
        s[i + spec_ser_member(m).len()] == ',' || s[i + spec_ser_member(m).len()] == '}',
        fuel >= s.len() - i + 1,
    ensures
        s[i] == '"',
        spec_p_chars(s, i + 1) == Some((m.0, i + 2 + spec_escape(m.0).len())),
        i + 2 + spec_escape(m.0).len() < s.len(),
        s[i + 2 + spec_escape(m.0).len()] == ':',
        spec_p_value(s, i + 2 + spec_escape(m.0).len() + 1, fuel) == Some(
            (m.1, i + spec_ser_member(m).len()),
        ),
    decreases m, 2nat,
{
    let ek = spec_escape(m.0);
    let nk = ek.len();
    assert(spec_ser_member(m) =~= seq!['"'] + ((ek + seq!['"']) + (seq![':'] + spec_ser(m.1))));
    lemma_lit_at_split(s, i, seq!['"'], (ek + seq!['"']) + (seq![':'] + spec_ser(m.1)));
    lemma_lit_at_index(s, i, seq!['"'], 0);
    lemma_lit_at_split(s, i + 1, ek + seq!['"'], seq![':'] + spec_ser(m.1));
    lemma_rt_chars(m.0, s, i + 1);
    lemma_lit_at_split(s, i + 1 + (nk + 1), seq![':'], spec_ser(m.1));
    lemma_lit_at_index(s, i + 2 + nk, seq![':'], 0);
    assert(s[i + 2 + nk] == ':');
    lemma_rt_value(m.1, s, i + 2 + nk + 1, fuel);
}

proof fn lemma_rt_members(ms: Seq<(Seq<char>, JsonVal)>, s: Seq<char>, i: int, fuel: nat)
    requires
        ms.len() > 0,
        spec_json_obj_wf(ms),
        spec_lit_at(s, i, spec_ser_members(ms) + seq!['}']),
        fuel >= s.len() - i + 1,
    ensures
        spec_p_members(s, i, fuel) == Some((ms, i + spec_ser_members(ms).len() + 1)),
    decreases ms, 1nat,
{
    let first = ms[0];
    let n0 = spec_ser_member(first).len();
    if ms.len() == 1 {
        assert(spec_ser_members(ms) == spec_ser_member(first));
        assert(spec_ser_members(ms) + seq!['}'] =~= spec_ser_member(first) + seq!['}']);
        lemma_lit_at_split(s, i, spec_ser_member(first), seq!['}']);
        lemma_lit_at_index(s, i + n0, seq!['}'], 0);
        assert(s[i + n0] == '}');
        assert(spec_json_member_wf(first));
        lemma_rt_member(first, s, i, fuel);
        assert((first.0, first.1) == first);
        assert(seq![(first.0, first.1)] =~= ms);
        assert(spec_p_members(s, i, fuel) == Some((ms, i + spec_ser_members(ms).len() + 1)));
    } else {
        let rest = ms.skip(1);
        assert(rest.len() > 0);
        assert(forall|k: int| 0 <= k < rest.len() ==> rest[k] == ms[k + 1]);
        assert(spec_ser_members(ms) == spec_ser_member(first) + seq![','] + spec_ser_members(
            rest,
        ));
        assert(spec_ser_members(ms) + seq!['}'] =~= spec_ser_member(first) + (seq![','] + (
        spec_ser_members(rest) + seq!['}'])));
        lemma_lit_at_split(
            s,
            i,
            spec_ser_member(first),
            seq![','] + (spec_ser_members(rest) + seq!['}']),
        );
        lemma_lit_at_split(s, i + n0, seq![','], spec_ser_members(rest) + seq!['}']);
        lemma_lit_at_index(s, i + n0, seq![','], 0);
        assert(s[i + n0] == ',');
        assert(spec_json_member_wf(first));
        lemma_rt_member(first, s, i, fuel);
        lemma_rt_members(rest, s, i + n0 + 1, fuel);
        assert((first.0, first.1) == first);
        assert(seq![(first.0, first.1)] + rest =~= ms);
        assert(spec_p_members(s, i, fuel) == Some((ms, i + spec_ser_members(ms).len() + 1)));
    }
}

/// Round trip: parsing the canonical serialization of a well-formed value
/// gives exactly that value back.
pub proof fn lemma_parse_serialize(v: JsonVal)
    requires
        spec_json_wf(v),
    ensures
        spec_parse_text(spec_ser(v)) == Some(v),
{
    let s = spec_ser(v);
    assert(s.subrange(0, s.len() as int) =~= s);
    lemma_rt_value(v, s, 0, (s.len() + 1) as nat);
}

} // verus!

