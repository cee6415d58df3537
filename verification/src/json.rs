//! A strict parser for the JSON frames this protocol exchanges.
//!
//! One frame is one self-contained JSON value. The parser is specified by a
//! recursive grammar over character sequences (`spec_parse_value` and its
//! helpers) and the executable parser is proved to return exactly what the
//! grammar says. Numbers are kept as their raw lexeme: the protocol reads
//! unsigned integers out of them where it needs one, and carries any other
//! number (an opaque id, a numeric timestamp) around untouched. Nesting is
//! bounded by `JSON_MAX_DEPTH`, so a malformed or adversarial frame can never
//! exhaust the stack: deeper frames are rejected.

use vstd::prelude::*;

use crate::text::char_from_u32;
use crate::text::chars_to_string;
use crate::text::str_to_chars;

verus! {

broadcast use vstd::std_specs::vec::group_vec_axioms, vstd::seq::axiom_seq_index_decreases;

/// The deepest nesting of arrays and objects a frame may use.
pub const JSON_MAX_DEPTH: u32 = 64;

/// The mathematical model of a parsed JSON value.
#[verifier::ext_equal]
pub enum JsonV {
    Null,
    Bool(bool),
    /// A number, as its raw lexeme.
    Num(Seq<char>),
    /// A string, as its decoded character content.
    Str(Seq<char>),
    Arr(Seq<JsonV>),
    Obj(Seq<(Seq<char>, JsonV)>),
}

/// A parsed JSON value.
pub enum JsonVal {
    Null,
    Bool(bool),
    /// A number, as its raw lexeme.
    Num(String),
    /// A string, as its decoded character content.
    Str(String),
    Arr(Vec<JsonVal>),
    Obj(Vec<(String, JsonVal)>),
}

pub open spec fn json_view(v: JsonVal) -> JsonV
    decreases v,
{
    match v {
        JsonVal::Null => JsonV::Null,
        JsonVal::Bool(b) => JsonV::Bool(b),
        JsonVal::Num(s) => JsonV::Num(s@),
        JsonVal::Str(s) => JsonV::Str(s@),
        JsonVal::Arr(a) => JsonV::Arr(
            Seq::new(
                a@.len(),
                |i: int|
                    if 0 <= i < a@.len() {
                        json_view(a@[i])
                    } else {
                        JsonV::Null
                    },
            ),
        ),
        JsonVal::Obj(o) => JsonV::Obj(
            Seq::new(
                o@.len(),
                |i: int|
                    if 0 <= i < o@.len() {
                        (o@[i].0@, json_view(o@[i].1))
                    } else {
                        (Seq::empty(), JsonV::Null)
                    },
            ),
        ),
    }
}

impl View for JsonVal {
    type V = JsonV;

    #[verifier::inline]
    open spec fn view(&self) -> JsonV {
        json_view(*self)
    }
}

/// JSON insignificant whitespace.
pub open spec fn is_ws(c: char) -> bool {
    c == ' ' || c == '\t' || c == '\n' || c == '\r'
}

/// The first position at or after `i` holding no whitespace.
pub open spec fn spec_skip_ws(s: Seq<char>, i: int) -> int
    decreases s.len() - i,
{
    if 0 <= i < s.len() && is_ws(s[i]) {
        spec_skip_ws(s, i + 1)
    } else {
        i
    }
}

pub proof fn lemma_skip_ws_bounds(s: Seq<char>, i: int)
    requires
        0 <= i <= s.len(),
    ensures
        i <= spec_skip_ws(s, i) <= s.len(),
    decreases s.len() - i,
{
    if i < s.len() && is_ws(s[i]) {
        lemma_skip_ws_bounds(s, i + 1);
    }
}

fn skip_ws(s: &Vec<char>, i: usize) -> (r: usize)
    requires
        i <= s@.len(),
    ensures
        r == spec_skip_ws(s@, i as int),
        i <= r <= s@.len(),
{
    let mut j = i;
    while j < s.len() && (s[j] == ' ' || s[j] == '\t' || s[j] == '\n' || s[j] == '\r')
        invariant
            i <= j <= s@.len(),
            spec_skip_ws(s@, i as int) == spec_skip_ws(s@, j as int),
        decreases s@.len() - j,
    {
        j = j + 1;
    }
    j
}

/// A decimal digit.
pub open spec fn is_digit(c: char) -> bool {
    '0' <= c && c <= '9'
}

/// The first position at or after `i` holding no decimal digit.
pub open spec fn spec_skip_digits(s: Seq<char>, i: int) -> int
    decreases s.len() - i,
{
    if 0 <= i < s.len() && is_digit(s[i]) {
        spec_skip_digits(s, i + 1)
    } else {
        i
    }
}

pub proof fn lemma_skip_digits_bounds(s: Seq<char>, i: int)
    requires
        0 <= i <= s.len(),
    ensures
        i <= spec_skip_digits(s, i) <= s.len(),
    decreases s.len() - i,
{
    if i < s.len() && is_digit(s[i]) {
        lemma_skip_digits_bounds(s, i + 1);
    }
}

pub(crate) fn skip_digits(s: &Vec<char>, i: usize) -> (r: usize)
    requires
        i <= s@.len(),
    ensures
        r == spec_skip_digits(s@, i as int),
        i <= r <= s@.len(),
{
    let mut j = i;
    while j < s.len() && '0' <= s[j] && s[j] <= '9'
        invariant
            i <= j <= s@.len(),
            spec_skip_digits(s@, i as int) == spec_skip_digits(s@, j as int),
        decreases s@.len() - j,
    {
        j = j + 1;
    }
    j
}

/// The copy of `s[from..to]`.
fn sub_chars(s: &Vec<char>, from: usize, to: usize) -> (v: Vec<char>)
    requires
        from <= to <= s@.len(),
    ensures
        v@ == s@.subrange(from as int, to as int),
{
    let mut v: Vec<char> = Vec::new();
    let mut j = from;
    while j < to
        invariant
            from <= j <= to <= s@.len(),
            v@ == s@.subrange(from as int, j as int),
        decreases to - j,
    {
        v.push(s[j]);
        j = j + 1;
        assert(v@ =~= s@.subrange(from as int, j as int));
    }
    v
}

/// The value of a hexadecimal digit.
pub open spec fn spec_hex_digit(c: char) -> Option<u32> {
    if '0' <= c && c <= '9' {
        Some(((c as u32) - ('0' as u32)) as u32)
    } else if 'a' <= c && c <= 'f' {
        Some(((c as u32) - ('a' as u32) + 10) as u32)
    } else if 'A' <= c && c <= 'F' {
        Some(((c as u32) - ('A' as u32) + 10) as u32)
    } else {
        None
    }
}

/// The value of the four hexadecimal digits at `i`.
pub open spec fn spec_hex4(s: Seq<char>, i: int) -> Option<u32> {
    if 0 <= i && i + 4 <= s.len() {
        match (spec_hex_digit(s[i]), spec_hex_digit(s[i + 1]), spec_hex_digit(s[i + 2]), spec_hex_digit(s[i + 3])) {
            (Some(a), Some(b), Some(c), Some(d)) => Some((((a * 16 + b) * 16 + c) * 16 + d) as u32),
            _ => None,
        }
    } else {
        None
    }
}

fn hex_digit(c: char) -> (r: Option<u32>)
    ensures
        r == spec_hex_digit(c),
{
    if '0' <= c && c <= '9' {
        Some((c as u32) - ('0' as u32))
    } else if 'a' <= c && c <= 'f' {
        Some((c as u32) - ('a' as u32) + 10)
    } else if 'A' <= c && c <= 'F' {
        Some((c as u32) - ('A' as u32) + 10)
    } else {
        None
    }
}

fn hex4(s: &Vec<char>, i: usize) -> (r: Option<u32>)
    requires
        i <= s@.len(),
    ensures
        r == spec_hex4(s@, i as int),
        r matches Some(v) ==> v < 0x10000,
{
    if s.len() - i < 4 {
        return None;
    }
    let a = hex_digit(s[i]);
    let b = hex_digit(s[i + 1]);
    let c = hex_digit(s[i + 2]);
    let d = hex_digit(s[i + 3]);
    match (a, b, c, d) {
        (Some(a), Some(b), Some(c), Some(d)) => Some(((a * 16 + b) * 16 + c) * 16 + d),
        _ => None,
    }
}

/// The character a simple escape stands for.
pub open spec fn spec_esc(c: char) -> Option<char> {
    if c == '"' {
        Some('"')
    } else if c == '\\' {
        Some('\\')
    } else if c == '/' {
        Some('/')
    } else if c == 'b' {
        Some('\u{0008}')
    } else if c == 'f' {
        Some('\u{000C}')
    } else if c == 'n' {
        Some('\n')
    } else if c == 'r' {
        Some('\r')
    } else if c == 't' {
        Some('\t')
    } else {
        None
    }
}

fn esc_char(c: char) -> (r: Option<char>)
    ensures
        r == spec_esc(c),
{
    if c == '"' {
        Some('"')
    } else if c == '\\' {
        Some('\\')
    } else if c == '/' {
        Some('/')
    } else if c == 'b' {
        Some('\u{0008}')
    } else if c == 'f' {
        Some('\u{000C}')
    } else if c == 'n' {
        Some('\n')
    } else if c == 'r' {
        Some('\r')
    } else if c == 't' {
        Some('\t')
    } else {
        None
    }
}

/// Prefixes the decoded remainder of a string body with already-decoded text.
pub open spec fn prepend_str(p: Seq<char>, r: Option<(int, Seq<char>)>) -> Option<(int, Seq<char>)> {
    match r {
        Some((j, t)) => Some((j, p + t)),
        None => None,
    }
}

proof fn lemma_prepend_str_assoc(p1: Seq<char>, p2: Seq<char>, r: Option<(int, Seq<char>)>)
    ensures
        prepend_str(p1, prepend_str(p2, r)) == prepend_str(p1 + p2, r),
{
    match r {
        Some((j, t)) => {
            assert(p1 + (p2 + t) =~= (p1 + p2) + t);
        },
        None => {},
    }
}

/// The decoded content of a string literal's body, starting just after the
/// opening quote, and the position just after the closing quote. Strings may
/// use the simple escapes, `\u` escapes and surrogate pairs; unescaped
/// control characters and lone surrogates are refused.
pub open spec fn spec_parse_str_body(s: Seq<char>, i: int) -> Option<(int, Seq<char>)>
    decreases s.len() - i,
{
    if !(0 <= i < s.len()) {
        None
    } else if s[i] == '"' {
        Some((i + 1, Seq::empty()))
    } else if s[i] == '\\' {
        if i + 1 < s.len() {
            let e = s[i + 1];
            if e == 'u' {
                match spec_hex4(s, i + 2) {
                    Some(v) => if v < 0xD800 || v >= 0xE000 {
                        prepend_str(seq![(v as char)], spec_parse_str_body(s, i + 6))
                    } else if v < 0xDC00 {
                        if i + 8 <= s.len() && s[i + 6] == '\\' && s[i + 7] == 'u' {
                            match spec_hex4(s, i + 8) {
                                Some(w) => if 0xDC00 <= w && w < 0xE000 {
                                    prepend_str(
                                        seq![
                                            ((0x10000 + (v - 0xD800) * 0x400 + (w
                                                - 0xDC00)) as u32) as char,
                                        ],
                                        spec_parse_str_body(s, i + 12),
                                    )
                                } else {
                                    None
                                },
                                None => None,
                            }
                        } else {
                            None
                        }
                    } else {
                        None
                    },
                    None => None,
                }
            } else {
                match spec_esc(e) {
                    Some(c) => prepend_str(seq![c], spec_parse_str_body(s, i + 2)),
                    None => None,
                }
            }
        } else {
            None
        }
    } else if (s[i] as u32) < 0x20 {
        None
    } else {
        prepend_str(seq![s[i]], spec_parse_str_body(s, i + 1))
    }
}

fn parse_str_body(s: &Vec<char>, i: usize) -> (r: Option<(usize, Vec<char>)>)
    requires
        i <= s@.len(),
    ensures
        match r {
            Some((j, v)) => spec_parse_str_body(s@, i as int) == Some((j as int, v@)) && i < j
                <= s@.len(),
            None => spec_parse_str_body(s@, i as int) is None,
        },
{
    broadcast use vstd::utf8::char_u32_cast;

    let mut acc: Vec<char> = Vec::new();
    let mut cur = i;
    loop
        invariant
            i <= cur <= s@.len(),
            spec_parse_str_body(s@, i as int) == prepend_str(
                acc@,
                spec_parse_str_body(s@, cur as int),
            ),
        decreases s@.len() - cur,
    {
        if cur >= s.len() {
            return None;
        }
        let c = s[cur];
        if c == '"' {
            assert(acc@ + Seq::<char>::empty() =~= acc@);
            return Some((cur + 1, acc));
        } else if c == '\\' {
            if cur + 1 >= s.len() {
                return None;
            }
            let e = s[cur + 1];
            if e == 'u' {
                let h = hex4(s, cur + 2);
                match h {
                    Some(v) => {
                        if v < 0xD800 || v >= 0xE000 {
                            let co = char_from_u32(v);
                            let c2 = co.unwrap();
                            proof {
                                vstd::utf8::char_u32_cast(c2, v);
                                lemma_prepend_str_assoc(
                                    acc@,
                                    seq![c2],
                                    spec_parse_str_body(s@, cur + 6),
                                );
                                assert(acc@ + seq![c2] =~= acc@.push(c2));
                            }
                            acc.push(c2);
                            cur = cur + 6;
                        } else if v < 0xDC00 {
                            if s.len() - cur >= 8 && s[cur + 6] == '\\' && s[cur + 7] == 'u' {
                                let l = hex4(s, cur + 8);
                                match l {
                                    Some(w) => {
                                        if 0xDC00 <= w && w < 0xE000 {
                                            let cp: u32 = 0x10000 + (v - 0xD800) * 0x400 + (w
                                                - 0xDC00);
                                            let co = char_from_u32(cp);
                                            let c2 = co.unwrap();
                                            proof {
                                                vstd::utf8::char_u32_cast(c2, cp);
                                                lemma_prepend_str_assoc(
                                                    acc@,
                                                    seq![c2],
                                                    spec_parse_str_body(s@, cur + 12),
                                                );
                                                assert(acc@ + seq![c2] =~= acc@.push(c2));
                                            }
                                            acc.push(c2);
                                            cur = cur + 12;
                                        } else {
                                            return None;
                                        }
                                    },
                                    None => {
                                        return None;
                                    },
                                }
                            } else {
                                return None;
                            }
                        } else {
                            return None;
                        }
                    },
                    None => {
                        return None;
                    },
                }
            } else {
                let ec = esc_char(e);
                match ec {
                    Some(c2) => {
                        proof {
                            lemma_prepend_str_assoc(
                                acc@,
                                seq![c2],
                                spec_parse_str_body(s@, cur + 2),
                            );
                            assert(acc@ + seq![c2] =~= acc@.push(c2));
                        }
                        acc.push(c2);
                        cur = cur + 2;
                    },
                    None => {
                        return None;
                    },
                }
            }
        } else if (c as u32) < 0x20 {
            return None;
        } else {
            proof {
                lemma_prepend_str_assoc(acc@, seq![c], spec_parse_str_body(s@, cur + 1));
                assert(acc@ + seq![c] =~= acc@.push(c));
            }
            acc.push(c);
            cur = cur + 1;
        }
    }
}

/// The raw lexeme of a JSON number starting at `i` (an optional sign, an
/// integer part without leading zeros, an optional fraction, an optional
/// exponent), and the position just after it.
pub open spec fn spec_parse_num(s: Seq<char>, i: int) -> Option<(int, Seq<char>)> {
    if !(0 <= i < s.len()) {
        None
    } else {
        let p = if s[i] == '-' {
            i + 1
        } else {
            i
        };
        if !(p < s.len() && is_digit(s[p])) {
            None
        } else {
            let q = if s[p] == '0' {
                p + 1
            } else {
                spec_skip_digits(s, p)
            };
            let q2 = if q < s.len() && s[q] == '.' {
                if q + 1 < s.len() && is_digit(s[q + 1]) {
                    spec_skip_digits(s, q + 1)
                } else {
                    -1
                }
            } else {
                q
            };
            if q2 < 0 {
                None
            } else {
                let q3 = if q2 < s.len() && (s[q2] == 'e' || s[q2] == 'E') {
                    let t = if q2 + 1 < s.len() && (s[q2 + 1] == '+' || s[q2 + 1] == '-') {
                        q2 + 2
                    } else {
                        q2 + 1
                    };
                    if t < s.len() && is_digit(s[t]) {
                        spec_skip_digits(s, t)
                    } else {
                        -1
                    }
                } else {
                    q2
                };
                if q3 < 0 {
                    None
                } else {
                    Some((q3, s.subrange(i, q3)))
                }
            }
        }
    }
}

fn parse_num(s: &Vec<char>, i: usize) -> (r: Option<(usize, String)>)
    requires
        i <= s@.len(),
    ensures
        match r {
            Some((j, t)) => spec_parse_num(s@, i as int) == Some((j as int, t@)) && i < j
                <= s@.len(),
            None => spec_parse_num(s@, i as int) is None,
        },
{
    if i >= s.len() {
        return None;
    }
    let p = if s[i] == '-' {
        i + 1
    } else {
        i
    };
    if !(p < s.len() && '0' <= s[p] && s[p] <= '9') {
        return None;
    }
    let q = if s[p] == '0' {
        p + 1
    } else {
        let qq = skip_digits(s, p);
        proof {
            lemma_skip_digits_bounds(s@, p + 1);
        }
        assert(qq >= p + 1);
        qq
    };
    let q2 = if q < s.len() && s[q] == '.' {
        if q + 1 < s.len() && '0' <= s[q + 1] && s[q + 1] <= '9' {
            skip_digits(s, q + 1)
        } else {
            return None;
        }
    } else {
        q
    };
    let q3 = if q2 < s.len() && (s[q2] == 'e' || s[q2] == 'E') {
        let t = if q2 + 1 < s.len() && (s[q2 + 1] == '+' || s[q2 + 1] == '-') {
            q2 + 2
        } else {
            q2 + 1
        };
        if t < s.len() && '0' <= s[t] && s[t] <= '9' {
            skip_digits(s, t)
        } else {
            return None;
        }
    } else {
        q2
    };
    let lex = sub_chars(s, i, q3);
    let t = chars_to_string(&lex);
    Some((q3, t))
}

/// The value of a sequence of decimal digits.
pub open spec fn spec_digits_val(s: Seq<char>) -> int
    decreases s.len(),
{
    if s.len() == 0 {
        0
    } else {
        spec_digits_val(s.drop_last()) * 10 + ((s.last() as u32) - ('0' as u32))
    }
}

pub open spec fn all_digits(s: Seq<char>) -> bool {
    forall|k: int| 0 <= k < s.len() ==> is_digit(#[trigger] s[k])
}

/// The unsigned integer a number lexeme denotes, if it is a plain run of
/// digits whose value fits in a `u32`.
pub open spec fn spec_lex_u32(s: Seq<char>) -> Option<u32> {
    if s.len() > 0 && all_digits(s) && spec_digits_val(s) <= u32::MAX {
        Some(spec_digits_val(s) as u32)
    } else {
        None
    }
}

proof fn lemma_digits_val_nonneg(s: Seq<char>)
    requires
        all_digits(s),
    ensures
        spec_digits_val(s) >= 0,
    decreases s.len(),
{
    if s.len() > 0 {
        assert(all_digits(s.drop_last())) by {
            assert(forall|k: int|
                0 <= k < s.len() - 1 ==> s.drop_last()[k] == #[trigger] s[k]);
        }
        lemma_digits_val_nonneg(s.drop_last());
    }
}

proof fn lemma_digits_val_take_le(s: Seq<char>, k: int)
    requires
        all_digits(s),
        0 <= k <= s.len(),
    ensures
        spec_digits_val(s.take(k)) <= spec_digits_val(s),
    decreases s.len() - k,
{
    if k < s.len() {
        lemma_digits_val_take_le(s, k + 1);
        assert(s.take(k + 1).drop_last() =~= s.take(k));
        assert(s.take(k + 1).last() == s[k]);
        lemma_digits_val_nonneg(s.take(k));
    } else {
        assert(s.take(k) =~= s);
    }
}

/// Reads an unsigned integer out of a number lexeme: `Some` exactly for a
/// plain run of digits denoting a value that fits in a `u32`.
pub fn lex_u32(t: &str) -> (r: Option<u32>)
    ensures
        r == spec_lex_u32(t@),
{
    let cs = str_to_chars(t);
    if cs.len() == 0 {
        return None;
    }
    let mut val: u32 = 0;
    let mut k: usize = 0;
    while k < cs.len()
        invariant
            cs@ == t@,
            0 <= k <= cs@.len(),
            all_digits(t@.take(k as int)),
            val == spec_digits_val(t@.take(k as int)),
        decreases cs@.len() - k,
    {
        let c = cs[k];
        if !('0' <= c && c <= '9') {
            assert(!is_digit(t@[k as int]));
            return None;
        }
        let d: u32 = (c as u32) - ('0' as u32);
        let m = val.checked_mul(10);
        let next = match m {
            Some(x) => x.checked_add(d),
            None => None,
        };
        assert(t@.take(k + 1).drop_last() =~= t@.take(k as int));
        assert(all_digits(t@.take(k + 1)));
        match next {
            Some(x) => {
                val = x;
                k = k + 1;
            },
            None => {
                proof {
                    if all_digits(t@) {
                        lemma_digits_val_take_le(t@, k + 1);
                    }
                }
                return None;
            },
        }
    }
    assert(t@.take(k as int) =~= t@);
    Some(val)
}

/// The model of a sequence of parsed array elements.
pub open spec fn arr_view(a: Seq<JsonVal>) -> Seq<JsonV> {
    Seq::new(
        a.len(),
        |i: int|
            if 0 <= i < a.len() {
                a[i]@
            } else {
                JsonV::Null
            },
    )
}

/// The model of a sequence of parsed object members.
pub open spec fn obj_view(o: Seq<(String, JsonVal)>) -> Seq<(Seq<char>, JsonV)> {
    Seq::new(
        o.len(),
        |i: int|
            if 0 <= i < o.len() {
                (o[i].0@, o[i].1@)
            } else {
                (Seq::empty(), JsonV::Null)
            },
    )
}

pub(crate) proof fn lemma_arr_view(a: Vec<JsonVal>)
    ensures
        (JsonVal::Arr(a))@ == JsonV::Arr(arr_view(a@)),
{
    let v = (JsonVal::Arr(a))@;
    let x = v->Arr_0;
    assert(forall|i: int| 0 <= i < a@.len() ==> x[i] == #[trigger] arr_view(a@)[i]);
    assert(x =~= arr_view(a@));
}

pub(crate) proof fn lemma_obj_view(o: Vec<(String, JsonVal)>)
    ensures
        (JsonVal::Obj(o))@ == JsonV::Obj(obj_view(o@)),
{
    let v = (JsonVal::Obj(o))@;
    let x = v->Obj_0;
    assert(forall|i: int| 0 <= i < o@.len() ==> x[i] == #[trigger] obj_view(o@)[i]);
    assert(x =~= obj_view(o@));
}

proof fn lemma_arr_view_push(a: Seq<JsonVal>, v: JsonVal)
    ensures
        arr_view(a.push(v)) == arr_view(a) + seq![v@],
{
    assert(arr_view(a.push(v)) =~~= arr_view(a) + seq![v@]);
}

proof fn lemma_obj_view_push(o: Seq<(String, JsonVal)>, k: String, v: JsonVal)
    ensures
        obj_view(o.push((k, v))) == obj_view(o) + seq![(k@, v@)],
{
    assert(obj_view(o.push((k, v))) =~~= obj_view(o) + seq![(k@, v@)]);
}

/// Prefixes the remaining elements of an array with already-parsed ones.
pub open spec fn prepend_arr(p: Seq<JsonV>, r: Option<(int, Seq<JsonV>)>) -> Option<
    (int, Seq<JsonV>),
> {
    match r {
        Some((j, t)) => Some((j, p + t)),
        None => None,
    }
}

/// Prefixes the remaining members of an object with already-parsed ones.
pub open spec fn prepend_obj(
    p: Seq<(Seq<char>, JsonV)>,
    r: Option<(int, Seq<(Seq<char>, JsonV)>)>,
) -> Option<(int, Seq<(Seq<char>, JsonV)>)> {
    match r {
        Some((j, t)) => Some((j, p + t)),
        None => None,
    }
}

proof fn lemma_prepend_arr_assoc(p1: Seq<JsonV>, p2: Seq<JsonV>, r: Option<(int, Seq<JsonV>)>)
    ensures
        prepend_arr(p1, prepend_arr(p2, r)) == prepend_arr(p1 + p2, r),
{
    match r {
        Some((j, t)) => {
            assert(p1 + (p2 + t) =~= (p1 + p2) + t);
        },
        None => {},
    }
}

proof fn lemma_prepend_obj_assoc(
    p1: Seq<(Seq<char>, JsonV)>,
    p2: Seq<(Seq<char>, JsonV)>,
    r: Option<(int, Seq<(Seq<char>, JsonV)>)>,
)
    ensures
        prepend_obj(p1, prepend_obj(p2, r)) == prepend_obj(p1 + p2, r),
{
    match r {
        Some((j, t)) => {
            assert(p1 + (p2 + t) =~= (p1 + p2) + t);
        },
        None => {},
    }
}

/// Wraps parsed object members as a value.
pub open spec fn wrap_obj(r: Option<(int, Seq<(Seq<char>, JsonV)>)>) -> Option<(int, JsonV)> {
    match r {
        Some((e, mems)) => Some((e, JsonV::Obj(mems))),
        None => None,
    }
}

/// Wraps parsed array elements as a value.
pub open spec fn wrap_arr(r: Option<(int, Seq<JsonV>)>) -> Option<(int, JsonV)> {
    match r {
        Some((e, elems)) => Some((e, JsonV::Arr(elems))),
        None => None,
    }
}

/// The value starting at `i` (after any whitespace), and the position just
/// after it. A nested array or object costs one level of `depth`.
pub open spec fn spec_parse_value(s: Seq<char>, i: int, depth: nat) -> Option<(int, JsonV)>
    decreases depth, s.len() - i, 0int,
{
    let j = spec_skip_ws(s, i);
    if !(0 <= i && i <= j && j < s.len()) {
        None
    } else {
        let c = s[j];
        if c == '{' {
            if depth == 0 {
                None
            } else {
                let j2 = spec_skip_ws(s, j + 1);
                if j2 < s.len() && s[j2] == '}' {
                    Some((j2 + 1, JsonV::Obj(Seq::empty())))
                } else {
                    wrap_obj(spec_parse_obj_rest(s, j + 1, (depth - 1) as nat))
                }
            }
        } else if c == '[' {
            if depth == 0 {
                None
            } else {
                let j2 = spec_skip_ws(s, j + 1);
                if j2 < s.len() && s[j2] == ']' {
                    Some((j2 + 1, JsonV::Arr(Seq::empty())))
                } else {
                    wrap_arr(spec_parse_arr_rest(s, j + 1, (depth - 1) as nat))
                }
            }
        } else if c == '"' {
            match spec_parse_str_body(s, j + 1) {
                Some((e, t)) => Some((e, JsonV::Str(t))),
                None => None,
            }
        } else if c == 't' {
            if j + 4 <= s.len() && s[j + 1] == 'r' && s[j + 2] == 'u' && s[j + 3] == 'e' {
                Some((j + 4, JsonV::Bool(true)))
            } else {
                None
            }
        } else if c == 'f' {
            if j + 5 <= s.len() && s[j + 1] == 'a' && s[j + 2] == 'l' && s[j + 3] == 's' && s[j
                + 4] == 'e' {
                Some((j + 5, JsonV::Bool(false)))
            } else {
                None
            }
        } else if c == 'n' {
            if j + 4 <= s.len() && s[j + 1] == 'u' && s[j + 2] == 'l' && s[j + 3] == 'l' {
                Some((j + 4, JsonV::Null))
            } else {
                None
            }
        } else if c == '-' || is_digit(c) {
            match spec_parse_num(s, j) {
                Some((e, lex)) => Some((e, JsonV::Num(lex))),
                None => None,
            }
        } else {
            None
        }
    }
}

/// The members of an object from `i` (just after `{` or a `,`) up to and
/// including the closing `}`.
pub open spec fn spec_parse_obj_rest(s: Seq<char>, i: int, depth: nat) -> Option<
    (int, Seq<(Seq<char>, JsonV)>),
>
    decreases depth, s.len() - i, 1int,
{
    let k = spec_skip_ws(s, i);
    if !(0 <= i && i <= k && k < s.len() && s[k] == '"') {
        None
    } else {
        match spec_parse_str_body(s, k + 1) {
            Some((k2, key)) => {
                let c1 = spec_skip_ws(s, k2);
                if !(k < c1 && c1 < s.len() && s[c1] == ':') {
                    None
                } else {
                    match spec_parse_value(s, c1 + 1, depth) {
                        Some((v2, v)) => {
                            let c2 = spec_skip_ws(s, v2);
                            if !(c1 < c2 && c2 < s.len()) {
                                None
                            } else if s[c2] == ',' {
                                match spec_parse_obj_rest(s, c2 + 1, depth) {
                                    Some((e, rest)) => Some((e, seq![(key, v)] + rest)),
                                    None => None,
                                }
                            } else if s[c2] == '}' {
                                Some((c2 + 1, seq![(key, v)]))
                            } else {
                                None
                            }
                        },
                        None => None,
                    }
                }
            },
            None => None,
        }
    }
}

/// The elements of an array from `i` (just after `[` or a `,`) up to and
/// including the closing `]`.
pub open spec fn spec_parse_arr_rest(s: Seq<char>, i: int, depth: nat) -> Option<
    (int, Seq<JsonV>),
>
    decreases depth, s.len() - i, 1int,
{
    if !(0 <= i && i <= s.len()) {
        None
    } else {
        match spec_parse_value(s, i, depth) {
            Some((v2, v)) => {
                let c2 = spec_skip_ws(s, v2);
                if !(i < c2 && c2 < s.len()) {
                    None
                } else if s[c2] == ',' {
                    match spec_parse_arr_rest(s, c2 + 1, depth) {
                        Some((e, rest)) => Some((e, seq![v] + rest)),
                        None => None,
                    }
                } else if s[c2] == ']' {
                    Some((c2 + 1, seq![v]))
                } else {
                    None
                }
            },
            None => None,
        }
    }
}

fn parse_value(s: &Vec<char>, i: usize, depth: u32) -> (r: Option<(usize, JsonVal)>)
    requires
        i <= s@.len(),
    ensures
        match r {
            Some((j, v)) => spec_parse_value(s@, i as int, depth as nat) == Some((j as int, v@))
                && i < j <= s@.len(),
            None => spec_parse_value(s@, i as int, depth as nat) is None,
        },
    decreases depth,
{
    let ghost d: nat = depth as nat;
    let j = skip_ws(s, i);
    if j >= s.len() {
        return None;
    }
    let c = s[j];
    if c == '{' {
        if depth == 0 {
            return None;
        }
        let ghost d2: nat = (depth - 1) as nat;
        let j2 = skip_ws(s, j + 1);
        if j2 < s.len() && s[j2] == '}' {
            let acc: Vec<(String, JsonVal)> = Vec::new();
            proof {
                lemma_obj_view(acc);
                assert(obj_view(acc@) =~= Seq::<(Seq<char>, JsonV)>::empty());
            }
            return Some((j2 + 1, JsonVal::Obj(acc)));
        }
        let mut acc: Vec<(String, JsonVal)> = Vec::new();
        let ghost mut accv: Seq<(Seq<char>, JsonV)> = Seq::empty();
        let mut cur = j + 1;
        proof {
            assert(prepend_obj(accv, spec_parse_obj_rest(s@, (j + 1) as int, d2))
                == spec_parse_obj_rest(s@, (j + 1) as int, d2)) by {
                match spec_parse_obj_rest(s@, (j + 1) as int, d2) {
                    Some((e, t)) => {
                        assert(accv + t =~= t);
                    },
                    None => {},
                }
            }
            assert(accv =~= obj_view(acc@));
        }
        loop
            invariant
                i <= j < s@.len(),
                j + 1 <= cur <= s@.len(),
                depth >= 1,
                d2 == (depth - 1) as nat,
                spec_parse_value(s@, i as int, depth as nat) == wrap_obj(
                    spec_parse_obj_rest(s@, (j + 1) as int, d2),
                ),
                prepend_obj(accv, spec_parse_obj_rest(s@, cur as int, d2))
                    == spec_parse_obj_rest(s@, (j + 1) as int, d2),
                accv == obj_view(acc@),
            decreases s@.len() - cur,
        {
            let k = skip_ws(s, cur);
            if k >= s.len() {
                return None;
            }
            if s[k] != '"' {
                return None;
            }
            let sb = parse_str_body(s, k + 1);
            match sb {
                None => {
                    return None;
                },
                Some((k2, keyv)) => {
                    let key_str = chars_to_string(&keyv);
                    let c1 = skip_ws(s, k2);
                    assert(k < c1);
                    if !(c1 < s.len() && s[c1] == ':') {
                        return None;
                    }
                    let pv = parse_value(s, c1 + 1, depth - 1);
                    match pv {
                        None => {
                            return None;
                        },
                        Some((v2, vv)) => {
                            let c2 = skip_ws(s, v2);
                            assert(c1 < c2);
                            if c2 >= s.len() {
                                return None;
                            }
                            if s[c2] == ',' {
                                proof {
                                    lemma_prepend_obj_assoc(
                                        accv,
                                        seq![(key_str@, vv@)],
                                        spec_parse_obj_rest(s@, (c2 + 1) as int, d2),
                                    );
                                    lemma_obj_view_push(acc@, key_str, vv);
                                }
                                acc.push((key_str, vv));
                                proof {
                                    accv = accv + seq![(key_str@, vv@)];
                                }
                                cur = c2 + 1;
                            } else if s[c2] == '}' {
                                proof {
                                    lemma_obj_view_push(acc@, key_str, vv);
                                }
                                acc.push((key_str, vv));
                                proof {
                                    lemma_obj_view(acc);
                                    assert(accv + seq![(key_str@, vv@)] =~= obj_view(acc@));
                                }
                                return Some((c2 + 1, JsonVal::Obj(acc)));
                            } else {
                                return None;
                            }
                        },
                    }
                },
            }
        }
    } else if c == '[' {
        if depth == 0 {
            return None;
        }
        let ghost d2: nat = (depth - 1) as nat;
        let j2 = skip_ws(s, j + 1);
        if j2 < s.len() && s[j2] == ']' {
            let acc: Vec<JsonVal> = Vec::new();
            proof {
                lemma_arr_view(acc);
                assert(arr_view(acc@) =~= Seq::<JsonV>::empty());
            }
            return Some((j2 + 1, JsonVal::Arr(acc)));
        }
        let mut acc: Vec<JsonVal> = Vec::new();
        let ghost mut accv: Seq<JsonV> = Seq::empty();
        let mut cur = j + 1;
        proof {
            assert(prepend_arr(accv, spec_parse_arr_rest(s@, (j + 1) as int, d2))
                == spec_parse_arr_rest(s@, (j + 1) as int, d2)) by {
                match spec_parse_arr_rest(s@, (j + 1) as int, d2) {
                    Some((e, t)) => {
                        assert(accv + t =~= t);
                    },
                    None => {},
                }
            }
            assert(accv =~= arr_view(acc@));
        }
        loop
            invariant
                i <= j < s@.len(),
                j + 1 <= cur <= s@.len(),
                depth >= 1,
                d2 == (depth - 1) as nat,
                spec_parse_value(s@, i as int, depth as nat) == wrap_arr(
                    spec_parse_arr_rest(s@, (j + 1) as int, d2),
                ),
                prepend_arr(accv, spec_parse_arr_rest(s@, cur as int, d2))
                    == spec_parse_arr_rest(s@, (j + 1) as int, d2),
                accv == arr_view(acc@),
            decreases s@.len() - cur,
        {
            let pv = parse_value(s, cur, depth - 1);
            match pv {
                None => {
                    return None;
                },
                Some((v2, vv)) => {
                    let c2 = skip_ws(s, v2);
                    assert(cur < c2);
                    if c2 >= s.len() {
                        return None;
                    }
                    if s[c2] == ',' {
                        proof {
                            lemma_prepend_arr_assoc(
                                accv,
                                seq![vv@],
                                spec_parse_arr_rest(s@, (c2 + 1) as int, d2),
                            );
                            lemma_arr_view_push(acc@, vv);
                        }
                        acc.push(vv);
                        proof {
                            accv = accv + seq![vv@];
                        }
                        cur = c2 + 1;
                    } else if s[c2] == ']' {
                        proof {
                            lemma_arr_view_push(acc@, vv);
                        }
                        acc.push(vv);
                        proof {
                            lemma_arr_view(acc);
                            assert(accv + seq![vv@] =~= arr_view(acc@));
                        }
                        return Some((c2 + 1, JsonVal::Arr(acc)));
                    } else {
                        return None;
                    }
                },
            }
        }
    } else if c == '"' {
        let sb = parse_str_body(s, j + 1);
        match sb {
            Some((e, t)) => {
                let st = chars_to_string(&t);
                Some((e, JsonVal::Str(st)))
            },
            None => None,
        }
    } else if c == 't' {
        if s.len() - j >= 4 && s[j + 1] == 'r' && s[j + 2] == 'u' && s[j + 3] == 'e' {
            Some((j + 4, JsonVal::Bool(true)))
        } else {
            None
        }
    } else if c == 'f' {
        if s.len() - j >= 5 && s[j + 1] == 'a' && s[j + 2] == 'l' && s[j + 3] == 's' && s[j + 4]
            == 'e' {
            Some((j + 5, JsonVal::Bool(false)))
        } else {
            None
        }
    } else if c == 'n' {
        if s.len() - j >= 4 && s[j + 1] == 'u' && s[j + 2] == 'l' && s[j + 3] == 'l' {
            Some((j + 4, JsonVal::Null))
        } else {
            None
        }
    } else if c == '-' || ('0' <= c && c <= '9') {
        let pn = parse_num(s, j);
        match pn {
            Some((e, t)) => Some((e, JsonVal::Num(t))),
            None => None,
        }
    } else {
        None
    }
}

/// A whole frame: one JSON value with nothing but whitespace around it.
pub open spec fn spec_parse_json(s: Seq<char>) -> Option<JsonV> {
    match spec_parse_value(s, 0, JSON_MAX_DEPTH as nat) {
        Some((j, v)) => if 0 <= j <= s.len() && spec_skip_ws(s, j) == s.len() {
            Some(v)
        } else {
            None
        },
        None => None,
    }
}

/// Parses one frame: exactly the value `spec_parse_json` gives.
pub fn parse_json(s: &str) -> (r: Option<JsonVal>)
    ensures
        match r {
            Some(v) => spec_parse_json(s@) == Some(v@),
            None => spec_parse_json(s@) is None,
        },
{
    let cs = str_to_chars(s);
    let pv = parse_value(&cs, 0, JSON_MAX_DEPTH);
    match pv {
        Some((j, v)) => {
            let e = skip_ws(&cs, j);
            if e == cs.len() {
                Some(v)
            } else {
                None
            }
        },
        None => None,
    }
}

} // verus!
