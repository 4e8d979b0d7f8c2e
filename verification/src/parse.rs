//! The JSON parser: a specification-level parser over `Seq<char>` and an
//! executable parser proved to return exactly what the specification-level
//! one describes, for success and for failure alike.
use vstd::prelude::*;

use crate::json::{
    arr_view, is_digit, jv_view, obj_view, scan_digits, scan_exp, scan_frac, scan_number, JKv,
    JsonField, JsonVal, JsonValue,
};
use crate::text::chars_to_string;

verus! {

broadcast use vstd::seq::group_seq_axioms, vstd::std_specs::vec::group_vec_axioms;

/// Characters the grammar treats as insignificant between tokens.
pub open spec fn is_ws(c: char) -> bool {
    c == ' ' || c == '\n' || c == '\t' || c == '\r'
}

/// Remaining input length, as a measure for the recursive parser.
pub open spec fn rem(s: Seq<char>, i: int) -> int {
    if i <= s.len() {
        s.len() - i
    } else {
        0
    }
}

/// How many whitespace characters sit at position `i`.
pub open spec fn wsc(s: Seq<char>, i: int) -> nat
    decreases rem(s, i),
{
    if 0 <= i < s.len() && is_ws(s[i]) {
        1 + wsc(s, i + 1)
    } else {
        0
    }
}

/// `hi - lo` as a count; meaningful when `hi` is at or past `lo`.
pub open spec fn sub_count(lo: int, hi: int) -> nat {
    if hi >= lo {
        (hi - lo) as nat
    } else {
        0
    }
}

pub open spec fn is_hex(c: char) -> bool {
    is_digit(c) || ('a' <= c && c <= 'f') || ('A' <= c && c <= 'F')
}

pub open spec fn hex_val(c: char) -> int {
    if is_digit(c) {
        c as u32 - '0' as u32
    } else if 'a' <= c && c <= 'f' {
        c as u32 - 'a' as u32 + 10
    } else {
        c as u32 - 'A' as u32 + 10
    }
}

/// Scan the body of a string literal from `i` (just past the opening quote),
/// with `acc` the content read so far. Returns the full content and the count
/// of characters consumed, the closing quote included. Escapes are the short
/// JSON ones and `\uXXXX`: a plane-zero scalar directly, or a surrogate pair
/// for the higher planes. A raw control character is refused, as is a lone
/// surrogate.
pub open spec fn scan_string(s: Seq<char>, i: int, acc: Seq<char>) -> Option<(Seq<char>, nat)>
    decreases rem(s, i),
{
    if !(0 <= i < s.len()) {
        None
    } else if s[i] == '"' {
        Some((acc, 1nat))
    } else if s[i] == '\\' {
        if i + 1 < s.len() {
            let c = s[i + 1];
            if c == 'u' {
                if i + 5 < s.len() && is_hex(s[i + 2]) && is_hex(s[i + 3]) && is_hex(s[i + 4])
                    && is_hex(s[i + 5]) {
                    let code = hex_val(s[i + 2]) * 4096 + hex_val(s[i + 3]) * 256 + hex_val(
                        s[i + 4],
                    ) * 16 + hex_val(s[i + 5]);
                    if code < 0xD800 || (0xE000 <= code && code <= 0xFFFF) {
                        match scan_string(s, i + 6, acc.push((code as u32) as char)) {
                            None => None,
                            Some((cs, c2)) => Some((cs, (6 + c2) as nat)),
                        }
                    } else if code < 0xDC00 {
                        if i + 11 < s.len() && s[i + 6] == '\\' && s[i + 7] == 'u' && is_hex(
                            s[i + 8],
                        ) && is_hex(s[i + 9]) && is_hex(s[i + 10]) && is_hex(s[i + 11]) {
                            let low = hex_val(s[i + 8]) * 4096 + hex_val(s[i + 9]) * 256 + hex_val(
                                s[i + 10],
                            ) * 16 + hex_val(s[i + 11]);
                            if 0xDC00 <= low && low < 0xE000 {
                                let scalar = 0x10000 + (code - 0xD800) * 0x400 + (low - 0xDC00);
                                match scan_string(s, i + 12, acc.push((scalar as u32) as char)) {
                                    None => None,
                                    Some((cs, c2)) => Some((cs, (12 + c2) as nat)),
                                }
                            } else {
                                None
                            }
                        } else {
                            None
                        }
                    } else {
                        None
                    }
                } else {
                    None
                }
            } else {
                match unescape(c) {
                    None => None,
                    Some(u) => match scan_string(s, i + 2, acc.push(u)) {
                        None => None,
                        Some((cs, c2)) => Some((cs, (2 + c2) as nat)),
                    },
                }
            }
        } else {
            None
        }
    } else if (s[i] as u32) < 0x20 {
        None
    } else {
        match scan_string(s, i + 1, acc.push(s[i])) {
            None => None,
            Some((cs, c2)) => Some((cs, (1 + c2) as nat)),
        }
    }
}

/// The character a short escape stands for.
pub open spec fn unescape(c: char) -> Option<char> {
    if c == '"' {
        Some('"')
    } else if c == '\\' {
        Some('\\')
    } else if c == '/' {
        Some('/')
    } else if c == 'n' {
        Some('\n')
    } else if c == 'r' {
        Some('\r')
    } else if c == 't' {
        Some('\t')
    } else if c == 'b' {
        Some('\u{8}')
    } else if c == 'f' {
        Some('\u{c}')
    } else {
        None
    }
}

/// Parse one value at `i` (no leading whitespace). Returns the value and the
/// count of characters consumed.
pub open spec fn parse_val(s: Seq<char>, i: int) -> Option<(JsonVal, nat)>
    decreases rem(s, i), 0int,
{
    if !(0 <= i < s.len()) {
        None
    } else {
        let c = s[i];
        if c == 'n' {
            if i + 4 <= s.len() && s.subrange(i, i + 4) == seq!['n', 'u', 'l', 'l'] {
                Some((JsonVal::Null, 4nat))
            } else {
                None
            }
        } else if c == 't' {
            if i + 4 <= s.len() && s.subrange(i, i + 4) == seq!['t', 'r', 'u', 'e'] {
                Some((JsonVal::Bool(true), 4nat))
            } else {
                None
            }
        } else if c == 'f' {
            if i + 5 <= s.len() && s.subrange(i, i + 5) == seq!['f', 'a', 'l', 's', 'e'] {
                Some((JsonVal::Bool(false), 5nat))
            } else {
                None
            }
        } else if c == '"' {
            match scan_string(s, i + 1, Seq::empty()) {
                None => None,
                Some((cs, c2)) => Some((JsonVal::Str(cs), (1 + c2) as nat)),
            }
        } else if c == '[' {
            let j = i + 1 + wsc(s, i + 1);
            if j < s.len() && s[j] == ']' {
                Some((JsonVal::Arr(Seq::empty()), sub_count(i, j + 1)))
            } else {
                match parse_items(s, i + 1, Seq::empty()) {
                    None => None,
                    Some((v, c2)) => Some((v, (1 + c2) as nat)),
                }
            }
        } else if c == '{' {
            let j = i + 1 + wsc(s, i + 1);
            if j < s.len() && s[j] == '}' {
                Some((JsonVal::Obj(Seq::empty()), sub_count(i, j + 1)))
            } else {
                match parse_fields(s, i + 1, Seq::empty()) {
                    None => None,
                    Some((v, c2)) => Some((v, (1 + c2) as nat)),
                }
            }
        } else if c == '-' || is_digit(c) {
            match scan_number(s, i) {
                None => None,
                Some(e) => Some((JsonVal::Num(s.subrange(i, e)), sub_count(i, e))),
            }
        } else {
            None
        }
    }
}

/// Parse the elements of a non-empty array from `i` (just past `[` or a
/// comma), with `acc` the elements read so far. Returns the finished array
/// and the count of characters consumed from `i`.
pub open spec fn parse_items(s: Seq<char>, i: int, acc: Seq<JsonVal>) -> Option<(JsonVal, nat)>
    decreases rem(s, i), 1int,
{
    let j = i + wsc(s, i);
    match parse_val(s, j) {
        None => None,
        Some((v, c)) => {
            let m = j + c;
            let k = m + wsc(s, m);
            if k < s.len() && s[k] == ',' {
                match parse_items(s, k + 1, acc.push(v)) {
                    None => None,
                    Some((r, c2)) => Some((r, sub_count(i, k + 1 + c2))),
                }
            } else if k < s.len() && s[k] == ']' {
                Some((JsonVal::Arr(acc.push(v)), sub_count(i, k + 1)))
            } else {
                None
            }
        },
    }
}

/// Parse the members of a non-empty object from `i` (just past `{` or a
/// comma), with `acc` the members read so far.
pub open spec fn parse_fields(s: Seq<char>, i: int, acc: Seq<JKv>) -> Option<(JsonVal, nat)>
    decreases rem(s, i), 1int,
{
    let j = i + wsc(s, i);
    if j < s.len() && s[j] == '"' {
        match scan_string(s, j + 1, Seq::empty()) {
            None => None,
            Some((key, c0)) => {
                let m0 = j + 1 + c0;
                let a = m0 + wsc(s, m0);
                if 0 <= a < s.len() && s[a] == ':' {
                    let b = a + 1 + wsc(s, a + 1);
                    match parse_val(s, b) {
                        None => None,
                        Some((v, c)) => {
                            let m = b + c;
                            let k = m + wsc(s, m);
                            if k < s.len() && s[k] == ',' {
                                match parse_fields(s, k + 1, acc.push(JKv { k: key, v })) {
                                    None => None,
                                    Some((r, c2)) => Some((r, sub_count(i, k + 1 + c2))),
                                }
                            } else if k < s.len() && s[k] == '}' {
                                Some((JsonVal::Obj(acc.push(JKv { k: key, v })), sub_count(i, k + 1)))
                            } else {
                                None
                            }
                        },
                    }
                } else {
                    None
                }
            },
        }
    } else {
        None
    }
}

/// Parse a whole document: one value, possibly surrounded by whitespace.
pub open spec fn parse_text(s: Seq<char>) -> Option<JsonVal> {
    let j: int = wsc(s, 0) as int;
    match parse_val(s, j) {
        None => None,
        Some((v, c)) => {
            let m: int = j + c;
            if m + wsc(s, m) == s.len() {
                Some(v)
            } else {
                None
            }
        },
    }
}

// ---------------------------------------------------------------------------
// Bounds: every scanner stays inside the input.
// ---------------------------------------------------------------------------
pub proof fn lemma_wsc_le(s: Seq<char>, i: int)
    requires
        0 <= i <= s.len(),
    ensures
        i + wsc(s, i) <= s.len(),
    decreases rem(s, i),
{
    if i < s.len() && is_ws(s[i]) {
        lemma_wsc_le(s, i + 1);
    }
}

pub proof fn lemma_scan_string_bounds(s: Seq<char>, i: int, acc: Seq<char>)
    ensures
        scan_string(s, i, acc) matches Some(r) ==> i + r.1 <= s.len(),
    decreases rem(s, i),
{
    if 0 <= i < s.len() {
        if s[i] == '"' {
        } else if s[i] == '\\' {
            if i + 1 < s.len() {
                let c = s[i + 1];
                if c == 'u' {
                    if i + 5 < s.len() && is_hex(s[i + 2]) && is_hex(s[i + 3]) && is_hex(s[i + 4])
                        && is_hex(s[i + 5]) {
                        let code = hex_val(s[i + 2]) * 4096 + hex_val(s[i + 3]) * 256 + hex_val(
                            s[i + 4],
                        ) * 16 + hex_val(s[i + 5]);
                        if code < 0xD800 || (0xE000 <= code && code <= 0xFFFF) {
                            lemma_scan_string_bounds(s, i + 6, acc.push((code as u32) as char));
                        } else if code < 0xDC00 {
                            if i + 11 < s.len() && s[i + 6] == '\\' && s[i + 7] == 'u' && is_hex(
                                s[i + 8],
                            ) && is_hex(s[i + 9]) && is_hex(s[i + 10]) && is_hex(s[i + 11]) {
                                let low = hex_val(s[i + 8]) * 4096 + hex_val(s[i + 9]) * 256
                                    + hex_val(s[i + 10]) * 16 + hex_val(s[i + 11]);
                                if 0xDC00 <= low && low < 0xE000 {
                                    let scalar = 0x10000 + (code - 0xD800) * 0x400 + (low
                                        - 0xDC00);
                                    lemma_scan_string_bounds(
                                        s,
                                        i + 12,
                                        acc.push((scalar as u32) as char),
                                    );
                                }
                            }
                        }
                    }
                } else {
                    match unescape(c) {
                        None => {},
                        Some(u) => {
                            lemma_scan_string_bounds(s, i + 2, acc.push(u));
                        },
                    }
                }
            }
        } else {
            lemma_scan_string_bounds(s, i + 1, acc.push(s[i]));
        }
    }
}

pub proof fn lemma_scan_digits_bounds(s: Seq<char>, i: int)
    requires
        0 <= i <= s.len(),
    ensures
        i <= scan_digits(s, i) <= s.len(),
        i < s.len() && is_digit(s[i]) ==> i < scan_digits(s, i),
    decreases rem(s, i),
{
    if i < s.len() && is_digit(s[i]) {
        lemma_scan_digits_bounds(s, i + 1);
    }
}

pub proof fn lemma_scan_number_bounds(s: Seq<char>, i: int)
    requires
        0 <= i,
    ensures
        scan_number(s, i) matches Some(e) ==> i < e <= s.len(),
{
    let j = if 0 <= i < s.len() && s[i] == '-' {
        i + 1
    } else {
        i
    };
    if 0 <= j < s.len() && is_digit(s[j]) {
        let k = if s[j] == '0' {
            j + 1
        } else {
            scan_digits(s, j)
        };
        lemma_scan_digits_bounds(s, j);
        assert(j < k <= s.len());
        match scan_frac(s, k) {
            None => {},
            Some(k2) => {
                if k < s.len() && s[k] == '.' {
                    if k + 1 < s.len() && is_digit(s[k + 1]) {
                        lemma_scan_digits_bounds(s, k + 1);
                    }
                }
                assert(k <= k2 <= s.len());
                match scan_exp(s, k2) {
                    None => {},
                    Some(k3) => {
                        if k2 < s.len() && (s[k2] == 'e' || s[k2] == 'E') {
                            let m = if k2 + 1 < s.len() && (s[k2 + 1] == '+' || s[k2 + 1] == '-') {
                                k2 + 2
                            } else {
                                k2 + 1
                            };
                            if m < s.len() && is_digit(s[m]) {
                                lemma_scan_digits_bounds(s, m);
                            }
                        }
                        assert(k2 <= k3 <= s.len());
                    },
                }
            },
        }
    }
}

pub proof fn lemma_parse_val_bounds(s: Seq<char>, i: int)
    ensures
        parse_val(s, i) matches Some(r) ==> 1 <= r.1 && i + r.1 <= s.len(),
    decreases rem(s, i), 0int,
{
    if 0 <= i < s.len() {
        let c = s[i];
        if c == '"' {
            lemma_scan_string_bounds(s, i + 1, Seq::empty());
        } else if c == '[' {
            lemma_wsc_le(s, i + 1);
            lemma_parse_items_bounds(s, i + 1, Seq::empty());
        } else if c == '{' {
            lemma_wsc_le(s, i + 1);
            lemma_parse_fields_bounds(s, i + 1, Seq::empty());
        } else if c == '-' || is_digit(c) {
            lemma_scan_number_bounds(s, i);
        }
    }
}

pub proof fn lemma_parse_items_bounds(s: Seq<char>, i: int, acc: Seq<JsonVal>)
    ensures
        parse_items(s, i, acc) matches Some(r) ==> 1 <= r.1 && i + r.1 <= s.len(),
    decreases rem(s, i), 1int,
{
    let j = i + wsc(s, i);
    lemma_parse_val_bounds(s, j);
    match parse_val(s, j) {
        None => {},
        Some((v, c)) => {
            let m = j + c;
            let k = m + wsc(s, m);
            if k < s.len() && s[k] == ',' {
                lemma_parse_items_bounds(s, k + 1, acc.push(v));
            }
        },
    }
}

pub proof fn lemma_parse_fields_bounds(s: Seq<char>, i: int, acc: Seq<JKv>)
    ensures
        parse_fields(s, i, acc) matches Some(r) ==> 1 <= r.1 && i + r.1 <= s.len(),
    decreases rem(s, i), 1int,
{
    let j = i + wsc(s, i);
    if j < s.len() && s[j] == '"' {
        lemma_scan_string_bounds(s, j + 1, Seq::empty());
        match scan_string(s, j + 1, Seq::empty()) {
            None => {},
            Some((key, c0)) => {
                let m0 = j + 1 + c0;
                let a = m0 + wsc(s, m0);
                if 0 <= a < s.len() && s[a] == ':' {
                    let b = a + 1 + wsc(s, a + 1);
                    lemma_parse_val_bounds(s, b);
                    match parse_val(s, b) {
                        None => {},
                        Some((v, c)) => {
                            let m = b + c;
                            let k = m + wsc(s, m);
                            if k < s.len() && s[k] == ',' {
                                lemma_parse_fields_bounds(s, k + 1, acc.push(JKv { k: key, v }));
                            }
                        },
                    }
                }
            },
        }
    }
}


// ---------------------------------------------------------------------------
// The executable parser. Each function returns exactly what the
// specification-level parser describes, for success and failure alike.
// ---------------------------------------------------------------------------
pub proof fn lemma_arr_view_push(items: Seq<JsonValue>, x: JsonValue)
    ensures
        arr_view(items.push(x)) == arr_view(items).push(jv_view(x)),
{
    assert(arr_view(items.push(x)) =~= arr_view(items).push(jv_view(x)));
}

pub proof fn lemma_obj_view_push(fields: Seq<JsonField>, x: JsonField)
    ensures
        obj_view(fields.push(x)) == obj_view(fields).push(
            JKv { k: x.key@, v: jv_view(x.value) },
        ),
{
    assert(obj_view(fields.push(x)) =~= obj_view(fields).push(
        JKv { k: x.key@, v: jv_view(x.value) },
    ));
}

fn is_ws_at(c: char) -> (b: bool)
    ensures
        b == is_ws(c),
{
    c == ' ' || c == '\n' || c == '\t' || c == '\r'
}

fn is_digit_at(c: char) -> (b: bool)
    ensures
        b == is_digit(c),
{
    '0' <= c && c <= '9'
}

fn skip_ws_exec(s: &Vec<char>, i: usize) -> (j: usize)
    requires
        i <= s@.len(),
    ensures
        i <= j <= s@.len(),
        j as int == i + wsc(s@, i as int),
{
    let n = s.len();
    let mut j = i;
    while j < n && is_ws_at(s[j])
        invariant
            i <= j <= n,
            n == s@.len(),
            wsc(s@, i as int) == (j - i) + wsc(s@, j as int),
        decreases n - j,
    {
        assert(wsc(s@, j as int) == 1 + wsc(s@, j + 1 as int));
        j = j + 1;
    }
    assert(wsc(s@, j as int) == 0);
    j
}

fn scan_digits_exec(s: &Vec<char>, i: usize) -> (j: usize)
    requires
        i <= s@.len(),
    ensures
        i <= j <= s@.len(),
        j as int == scan_digits(s@, i as int),
{
    let n = s.len();
    let mut j = i;
    while j < n && is_digit_at(s[j])
        invariant
            i <= j <= n,
            n == s@.len(),
            scan_digits(s@, i as int) == scan_digits(s@, j as int),
        decreases n - j,
    {
        j = j + 1;
    }
    j
}

fn scan_number_exec(s: &Vec<char>, i: usize) -> (r: Option<usize>)
    requires
        i <= s@.len(),
    ensures
        match r {
            Some(e) => scan_number(s@, i as int) == Some(e as int) && i < e <= s@.len(),
            None => scan_number(s@, i as int) is None,
        },
{
    proof {
        lemma_scan_number_bounds(s@, i as int);
    }
    let n = s.len();
    let j = if i < n && s[i] == '-' {
        i + 1
    } else {
        i
    };
    if !(j < n && is_digit_at(s[j])) {
        return None;
    }
    let k = if s[j] == '0' {
        j + 1
    } else {
        scan_digits_exec(s, j)
    };
    let k2 = if k < n && s[k] == '.' {
        if k + 1 < n && is_digit_at(s[k + 1]) {
            scan_digits_exec(s, k + 1)
        } else {
            return None;
        }
    } else {
        k
    };
    assert(scan_frac(s@, k as int) == Some(k2 as int));
    let k3 = if k2 < n && (s[k2] == 'e' || s[k2] == 'E') {
        let m = if k2 + 1 < n && (s[k2 + 1] == '+' || s[k2 + 1] == '-') {
            k2 + 2
        } else {
            k2 + 1
        };
        if m < n && is_digit_at(s[m]) {
            scan_digits_exec(s, m)
        } else {
            return None;
        }
    } else {
        k2
    };
    assert(scan_exp(s@, k2 as int) == Some(k3 as int));
    Some(k3)
}

fn hex_val_exec(c: char) -> (r: Option<u32>)
    ensures
        r is Some <==> is_hex(c),
        r matches Some(u) ==> u as int == hex_val(c) && u < 16,
{
    if '0' <= c && c <= '9' {
        Some(c as u32 - '0' as u32)
    } else if 'a' <= c && c <= 'f' {
        Some(c as u32 - 'a' as u32 + 10)
    } else if 'A' <= c && c <= 'F' {
        Some(c as u32 - 'A' as u32 + 10)
    } else {
        None
    }
}

fn scan_string_exec(s: &Vec<char>, i: usize) -> (r: Option<(Vec<char>, usize)>)
    requires
        i <= s@.len(),
    ensures
        match r {
            Some(p) => i < p.1 <= s@.len() && scan_string(s@, i as int, Seq::empty()) == Some(
                (p.0@, (p.1 - i) as nat),
            ),
            None => scan_string(s@, i as int, Seq::empty()) is None,
        },
{
    let n = s.len();
    let mut j = i;
    let mut acc: Vec<char> = Vec::new();
    loop
        invariant
            i <= j <= n,
            n == s@.len(),
            ({
                let full = scan_string(s@, i as int, Seq::empty());
                match scan_string(s@, j as int, acc@) {
                    None => full is None,
                    Some((cs, c)) => full == Some::<(Seq<char>, nat)>(
                        (cs, ((j - i) + c) as nat),
                    ),
                }
            }),
        decreases n - j,
    {
        if j >= n {
            return None;
        }
        let c = s[j];
        if c == '"' {
            assert(scan_string(s@, j as int, acc@) == Some::<(Seq<char>, nat)>((acc@, 1nat)));
            return Some((acc, j + 1));
        } else if c == '\\' {
            if n - j < 2 {
                return None;
            }
            let e = s[j + 1];
            if e == 'u' {
                if n - j < 6 {
                    return None;
                }
                let h0 = hex_val_exec(s[j + 2]);
                let h1 = hex_val_exec(s[j + 3]);
                let h2 = hex_val_exec(s[j + 4]);
                let h3 = hex_val_exec(s[j + 5]);
                match (h0, h1, h2, h3) {
                    (Some(a0), Some(a1), Some(a2), Some(a3)) => {
                        let code: u32 = a0 * 4096 + a1 * 256 + a2 * 16 + a3;
                        if code < 0xD800 || (0xE000 <= code && code <= 0xFFFF) {
                            let decoded = match crate::text::char_from_code(code) {
                                Some(d) => d,
                                None => {
                                    proof {
                                        assert(false);
                                    }
                                    return None;
                                },
                            };
                            proof {
                                vstd::utf8::char_u32_cast(decoded, code);
                            }
                            acc.push(decoded);
                            j = j + 6;
                        } else if code < 0xDC00 {
                            if n - j < 12 {
                                return None;
                            }
                            if !(s[j + 6] == '\\' && s[j + 7] == 'u') {
                                return None;
                            }
                            let g0 = hex_val_exec(s[j + 8]);
                            let g1 = hex_val_exec(s[j + 9]);
                            let g2 = hex_val_exec(s[j + 10]);
                            let g3 = hex_val_exec(s[j + 11]);
                            match (g0, g1, g2, g3) {
                                (Some(b0), Some(b1), Some(b2), Some(b3)) => {
                                    let low: u32 = b0 * 4096 + b1 * 256 + b2 * 16 + b3;
                                    if !(0xDC00 <= low && low < 0xE000) {
                                        return None;
                                    }
                                    let scalar: u32 = 0x10000 + (code - 0xD800) * 0x400 + (low
                                        - 0xDC00);
                                    let decoded = match crate::text::char_from_code(scalar) {
                                        Some(d) => d,
                                        None => {
                                            proof {
                                                assert(false);
                                            }
                                            return None;
                                        },
                                    };
                                    proof {
                                        vstd::utf8::char_u32_cast(decoded, scalar);
                                    }
                                    acc.push(decoded);
                                    j = j + 12;
                                },
                                _ => {
                                    return None;
                                },
                            }
                        } else {
                            return None;
                        }
                    },
                    _ => {
                        return None;
                    },
                }
            } else {
                let u = match unescape_exec(e) {
                    Some(u) => u,
                    None => {
                        return None;
                    },
                };
                acc.push(u);
                j = j + 2;
            }
        } else if (c as u32) < 0x20 {
            return None;
        } else {
            acc.push(c);
            j = j + 1;
        }
    }
}

fn unescape_exec(c: char) -> (r: Option<char>)
    ensures
        r == unescape(c),
{
    if c == '"' {
        Some('"')
    } else if c == '\\' {
        Some('\\')
    } else if c == '/' {
        Some('/')
    } else if c == 'n' {
        Some('\n')
    } else if c == 'r' {
        Some('\r')
    } else if c == 't' {
        Some('\t')
    } else if c == 'b' {
        Some('\u{8}')
    } else if c == 'f' {
        Some('\u{c}')
    } else {
        None
    }
}

fn copy_range(s: &Vec<char>, i: usize, e: usize) -> (r: Vec<char>)
    requires
        i <= e <= s@.len(),
    ensures
        r@ == s@.subrange(i as int, e as int),
{
    let mut r: Vec<char> = Vec::new();
    let mut k = i;
    while k < e
        invariant
            i <= k <= e <= s@.len(),
            r@ == s@.subrange(i as int, k as int),
        decreases e - k,
    {
        r.push(s[k]);
        proof {
            assert(s@.subrange(i as int, k as int).push(s@[k as int]) =~= s@.subrange(
                i as int,
                k + 1 as int,
            ));
        }
        k = k + 1;
    }
    r
}

fn expect_lit(s: &Vec<char>, i: usize, a: char, b: char, c: char, d: char) -> (r: bool)
    requires
        i < s@.len(),
    ensures
        r <==> (i + 4 <= s@.len() && s@.subrange(i as int, i + 4 as int) == seq![a, b, c, d]),
{
    let n = s.len();
    if n - i >= 4 && s[i] == a && s[i + 1] == b && s[i + 2] == c && s[i + 3] == d {
        proof {
            assert(s@.subrange(i as int, i + 4 as int) =~= seq![a, b, c, d]);
        }
        true
    } else {
        proof {
            if i + 4 <= s@.len() {
                let t = s@.subrange(i as int, i + 4 as int);
                if t == seq![a, b, c, d] {
                    assert(t[0] == a && t[1] == b && t[2] == c && t[3] == d);
                }
            }
        }
        false
    }
}

#[verifier::rlimit(80)]
fn p_val(s: &Vec<char>, i: usize) -> (r: Option<(JsonValue, usize)>)
    requires
        i <= s@.len(),
    ensures
        match r {
            Some(p) => i < p.1 <= s@.len() && parse_val(s@, i as int) == Some(
                (jv_view(p.0), (p.1 - i) as nat),
            ),
            None => parse_val(s@, i as int) is None,
        },
    decreases s@.len() - i, 0int,
{
    let n = s.len();
    if i >= n {
        return None;
    }
    let c = s[i];
    if c == 'n' {
        if expect_lit(s, i, 'n', 'u', 'l', 'l') {
            Some((JsonValue::Null, i + 4))
        } else {
            None
        }
    } else if c == 't' {
        if expect_lit(s, i, 't', 'r', 'u', 'e') {
            Some((JsonValue::Bool(true), i + 4))
        } else {
            None
        }
    } else if c == 'f' {
        if n - i >= 5 && s[i + 1] == 'a' && s[i + 2] == 'l' && s[i + 3] == 's' && s[i + 4] == 'e' {
            proof {
                assert(s@.subrange(i as int, i + 5 as int) =~= seq!['f', 'a', 'l', 's', 'e']);
            }
            Some((JsonValue::Bool(false), i + 5))
        } else {
            proof {
                if i + 5 <= s@.len() {
                    let t = s@.subrange(i as int, i + 5 as int);
                    if t == seq!['f', 'a', 'l', 's', 'e'] {
                        assert(t[1] == 'a' && t[2] == 'l' && t[3] == 's' && t[4] == 'e');
                    }
                }
            }
            None
        }
    } else if c == '"' {
        match scan_string_exec(s, i + 1) {
            None => None,
            Some((cs, nx)) => Some((JsonValue::Str(chars_to_string(&cs)), nx)),
        }
    } else if c == '[' {
        let j = skip_ws_exec(s, i + 1);
        if j < n && s[j] == ']' {
            proof {
                assert(arr_view(Seq::<JsonValue>::empty()) =~= Seq::<JsonVal>::empty());
            }
            let r: Vec<JsonValue> = Vec::new();
            proof {
                assert(r@ =~= Seq::<JsonValue>::empty());
            }
            Some((JsonValue::Arr(r), j + 1))
        } else {
            p_items(s, i, i + 1)
        }
    } else if c == '{' {
        let j = skip_ws_exec(s, i + 1);
        if j < n && s[j] == '}' {
            let r: Vec<JsonField> = Vec::new();
            proof {
                assert(obj_view(r@) =~= Seq::<JKv>::empty());
            }
            Some((JsonValue::Obj(r), j + 1))
        } else {
            p_fields(s, i, i + 1)
        }
    } else if c == '-' || is_digit_at(c) {
        match scan_number_exec(s, i) {
            None => None,
            Some(e) => {
                let t = copy_range(s, i, e);
                Some((JsonValue::Num(chars_to_string(&t)), e))
            },
        }
    } else {
        None
    }
}

/// Parse the rest of a non-empty array: `start` is the position of `[`, and
/// `first` is just past it.
fn p_items(s: &Vec<char>, start: usize, first: usize) -> (r: Option<(JsonValue, usize)>)
    requires
        start < first <= s@.len(),
        first == start + 1,
        s@[start as int] == '[',
        parse_val(s@, start as int) == (match parse_items(s@, first as int, Seq::empty()) {
            None => None::<(JsonVal, nat)>,
            Some((v, c2)) => Some((v, (1 + c2) as nat)),
        }),
    ensures
        match r {
            Some(p) => start < p.1 <= s@.len() && parse_val(s@, start as int) == Some(
                (jv_view(p.0), (p.1 - start) as nat),
            ),
            None => parse_val(s@, start as int) is None,
        },
    decreases s@.len() - first, 1int,
{
    let n = s.len();
    let mut acc: Vec<JsonValue> = Vec::new();
    let mut cur = first;
    proof {
        assert(arr_view(acc@) =~= Seq::<JsonVal>::empty());
    }
    loop
        invariant
            first <= cur <= n,
            n == s@.len(),
            start < first,
            first == start + 1,
            ({
                let full = parse_items(s@, first as int, Seq::empty());
                match parse_items(s@, cur as int, arr_view(acc@)) {
                    None => full is None,
                    Some((v, c)) => full == Some::<(JsonVal, nat)>(
                        (v, ((cur - first) + c) as nat),
                    ),
                }
            }),
            parse_val(s@, start as int) == (match parse_items(s@, first as int, Seq::empty()) {
                None => None::<(JsonVal, nat)>,
                Some((v, c2)) => Some((v, (1 + c2) as nat)),
            }),
        decreases n - cur,
    {
        let j = skip_ws_exec(s, cur);
        match p_val(s, j) {
            None => {
                return None;
            },
            Some((v, m)) => {
                let k = skip_ws_exec(s, m);
                proof {
                    lemma_arr_view_push(acc@, v);
                }
                if k < n && s[k] == ',' {
                    acc.push(v);
                    cur = k + 1;
                } else if k < n && s[k] == ']' {
                    acc.push(v);
                    return Some((JsonValue::Arr(acc), k + 1));
                } else {
                    return None;
                }
            },
        }
    }
}

/// Parse the rest of a non-empty object: `start` is the position of `{`, and
/// `first` is just past it.
fn p_fields(s: &Vec<char>, start: usize, first: usize) -> (r: Option<(JsonValue, usize)>)
    requires
        start < first <= s@.len(),
        first == start + 1,
        s@[start as int] == '{',
        parse_val(s@, start as int) == (match parse_fields(s@, first as int, Seq::empty()) {
            None => None::<(JsonVal, nat)>,
            Some((v, c2)) => Some((v, (1 + c2) as nat)),
        }),
    ensures
        match r {
            Some(p) => start < p.1 <= s@.len() && parse_val(s@, start as int) == Some(
                (jv_view(p.0), (p.1 - start) as nat),
            ),
            None => parse_val(s@, start as int) is None,
        },
    decreases s@.len() - first, 1int,
{
    let n = s.len();
    let mut acc: Vec<JsonField> = Vec::new();
    let mut cur = first;
    proof {
        assert(obj_view(acc@) =~= Seq::<JKv>::empty());
    }
    loop
        invariant
            first <= cur <= n,
            n == s@.len(),
            start < first,
            first == start + 1,
            ({
                let full = parse_fields(s@, first as int, Seq::empty());
                match parse_fields(s@, cur as int, obj_view(acc@)) {
                    None => full is None,
                    Some((v, c)) => full == Some::<(JsonVal, nat)>(
                        (v, ((cur - first) + c) as nat),
                    ),
                }
            }),
            parse_val(s@, start as int) == (match parse_fields(s@, first as int, Seq::empty()) {
                None => None::<(JsonVal, nat)>,
                Some((v, c2)) => Some((v, (1 + c2) as nat)),
            }),
        decreases n - cur,
    {
        let j = skip_ws_exec(s, cur);
        if !(j < n && s[j] == '"') {
            return None;
        }
        let (key_chars, m0) = match scan_string_exec(s, j + 1) {
            None => {
                return None;
            },
            Some(p) => p,
        };
        let a = skip_ws_exec(s, m0);
        if !(a < n && s[a] == ':') {
            return None;
        }
        let b = skip_ws_exec(s, a + 1);
        match p_val(s, b) {
            None => {
                return None;
            },
            Some((v, m)) => {
                let k = skip_ws_exec(s, m);
                let fld = JsonField { key: chars_to_string(&key_chars), value: v };
                proof {
                    lemma_obj_view_push(acc@, fld);
                }
                if k < n && s[k] == ',' {
                    acc.push(fld);
                    cur = k + 1;
                } else if k < n && s[k] == '}' {
                    acc.push(fld);
                    return Some((JsonValue::Obj(acc), k + 1));
                } else {
                    return None;
                }
            },
        }
    }
}

/// Decide whether `t` is exactly one valid JSON number token.
pub fn is_number_text_exec(t: &str) -> (b: bool)
    ensures
        b == crate::json::is_number_text(t@),
{
    let cs = crate::text::str_to_chars(t);
    match scan_number_exec(&cs, 0) {
        Some(e) => e == cs.len(),
        None => false,
    }
}

/// Parse a whole JSON document. Succeeds exactly when the
/// specification-level `parse_text` does, and returns the value it
/// describes.
pub fn parse_json_text(t: &str) -> (r: Option<JsonValue>)
    ensures
        match r {
            Some(v) => parse_text(t@) == Some(jv_view(v)),
            None => parse_text(t@) is None,
        },
{
    let cs = crate::text::str_to_chars(t);
    let n = cs.len();
    let j = skip_ws_exec(&cs, 0);
    match p_val(&cs, j) {
        None => None,
        Some((v, end)) => {
            let k = skip_ws_exec(&cs, end);
            if k == n {
                Some(v)
            } else {
                None
            }
        },
    }
}

} // verus!
