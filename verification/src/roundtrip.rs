//! The round trip at the heart of the store: parsing the canonical text of a
//! well-formed JSON value gives exactly that value back. Stated over the
//! specification-level serializer and parser, it carries every snapshot's
//! write-then-read guarantee.
use vstd::prelude::*;

use crate::json::{
    esc_char, esc_text, hex_char, is_digit, is_number_text, scan_digits, scan_exp, scan_frac,
    scan_number, ser_field, ser_fields, ser_items, ser_val, wf_val, JKv, JsonVal,
};
use crate::parse::{
    hex_val, is_hex, is_ws, parse_fields, parse_items, parse_text, parse_val, scan_string,
    unescape, wsc,
};

verus! {

broadcast use vstd::seq::group_seq_axioms;

/// The characters that may follow a serialized value inside a document.
pub open spec fn is_delim(c: char) -> bool {
    c == ',' || c == ']' || c == '}'
}


/// Pointwise reading of a region copied from `t`.
pub proof fn lemma_region(s: Seq<char>, i: int, t: Seq<char>)
    requires
        0 <= i,
        i + t.len() <= s.len(),
        s.subrange(i, i + t.len()) == t,
    ensures
        forall|k: int| 0 <= k < t.len() ==> #[trigger] t[k] == s[i + k],
{
    assert forall|k: int| 0 <= k < t.len() implies #[trigger] t[k] == s[i + k] by {
        assert(t[k] == s.subrange(i, i + t.len())[k]);
    }
}

/// A region holding a concatenation splits into two regions.
pub proof fn lemma_region_split(s: Seq<char>, i: int, a: Seq<char>, b: Seq<char>)
    requires
        0 <= i,
        i + a.len() + b.len() <= s.len(),
        s.subrange(i, i + a.len() + b.len()) == a + b,
    ensures
        s.subrange(i, i + a.len()) == a,
        s.subrange(i + a.len(), i + a.len() + b.len()) == b,
{
    lemma_region(s, i, a + b);
    assert forall|k: int| 0 <= k < a.len() implies s.subrange(i, i + a.len())[k] == a[k] by {
        assert((a + b)[k] == s[i + k]);
        assert((a + b)[k] == a[k]);
    }
    assert(s.subrange(i, i + a.len()) =~= a);
    assert forall|k: int|
        0 <= k < b.len() implies s.subrange(i + a.len(), i + a.len() + b.len())[k] == b[k] by {
        assert((a + b)[a.len() + k] == s[i + a.len() + k]);
        assert((a + b)[a.len() + k] == b[k]);
    }
    assert(s.subrange(i + a.len(), i + a.len() + b.len()) =~= b);
}

/// A number token starts with a minus sign or a digit.
pub proof fn lemma_number_first(t: Seq<char>)
    requires
        is_number_text(t),
    ensures
        t.len() > 0,
        t[0] == '-' || is_digit(t[0]),
{
    let j = if 0 <= 0 < t.len() && t[0] == '-' {
        1int
    } else {
        0int
    };
    assert(0 <= j < t.len() && is_digit(t[j]));
}

/// The first character of a serialized value is never whitespace, a
/// separator or a closing bracket.
pub proof fn lemma_ser_first(v: JsonVal)
    requires
        wf_val(v),
    ensures
        ser_val(v).len() > 0,
        !is_ws(ser_val(v)[0]),
        !is_delim(ser_val(v)[0]),
        ser_val(v)[0] != ':',
{
    match v {
        JsonVal::Null => {
            assert(ser_val(v)[0] == 'n');
        },
        JsonVal::Bool(b) => {
            if b {
                assert(ser_val(v)[0] == 't');
            } else {
                assert(ser_val(v)[0] == 'f');
            }
        },
        JsonVal::Num(t) => {
            lemma_number_first(t);
            assert(ser_val(v)[0] == t[0]);
        },
        JsonVal::Str(s) => {
            assert(ser_val(v)[0] == '"');
        },
        JsonVal::Arr(items) => {
            assert(ser_val(v)[0] == '[');
        },
        JsonVal::Obj(fields) => {
            assert(ser_val(v)[0] == '{');
        },
    }
}

/// No whitespace is skipped where none stands.
pub proof fn lemma_wsc_zero(s: Seq<char>, i: int)
    requires
        !(0 <= i < s.len()) || !is_ws(s[i]),
    ensures
        wsc(s, i) == 0,
{
}

// ---------------------------------------------------------------------------
// Digits and numbers embedded in a larger text.
// ---------------------------------------------------------------------------
/// What a digit scan of `t` saw: digits up to its result, and a stop there.
pub proof fn lemma_scan_digits_props(t: Seq<char>, d: int)
    requires
        0 <= d <= t.len(),
    ensures
        d <= scan_digits(t, d) <= t.len(),
        forall|k: int| d <= k < scan_digits(t, d) ==> is_digit(#[trigger] t[k]),
        scan_digits(t, d) == t.len() || !is_digit(t[scan_digits(t, d)]),
    decreases t.len() - d,
{
    if d < t.len() && is_digit(t[d]) {
        lemma_scan_digits_props(t, d + 1);
    }
}

/// A digit scan inside `s` over a region copied from `t` stops where the
/// scan of `t` stops, provided the character after the region cannot extend
/// a number.
pub proof fn lemma_scan_digits_embed(t: Seq<char>, s: Seq<char>, i: int, d: int)
    requires
        0 <= i,
        i + t.len() <= s.len(),
        s.subrange(i, i + t.len()) == t,
        0 <= d <= t.len(),
        i + t.len() == s.len() || is_delim(s[i + t.len()]),
    ensures
        scan_digits(s, i + d) == i + scan_digits(t, d),
{
    lemma_scan_digits_props(t, d);
    let e = scan_digits(t, d);
    lemma_region(s, i, t);
    assert forall|k: int| i + d <= k < i + e implies is_digit(#[trigger] s[k]) by {
        assert(t[k - i] == s[i + (k - i)]);
        assert(is_digit(t[k - i]));
    }
    if i + e == s.len() {
        crate::nums::lemma_scan_digits_all(s, i + d, i + e);
    } else {
        if e < t.len() {
            assert(s[i + e] == t[e]);
            assert(!is_digit(s[i + e]));
        } else {
            assert(is_delim(s[i + e]));
            assert(!is_digit(s[i + e]));
        }
        crate::nums::lemma_scan_digits_all(s, i + d, i + e);
    }
}

/// A number token inside `s` scans to exactly its own end.
pub proof fn lemma_scan_number_embed(t: Seq<char>, s: Seq<char>, i: int)
    requires
        is_number_text(t),
        0 <= i,
        i + t.len() <= s.len(),
        s.subrange(i, i + t.len()) == t,
        i + t.len() == s.len() || is_delim(s[i + t.len()]),
    ensures
        scan_number(s, i) == Some(i + t.len()),
{
    lemma_region(s, i, t);
    lemma_number_first(t);
    let jt = if t[0] == '-' {
        1int
    } else {
        0int
    };
    assert(s[i] == t[0]);
    let js = if 0 <= i < s.len() && s[i] == '-' {
        i + 1
    } else {
        i
    };
    assert(js == i + jt);
    assert(0 <= jt < t.len() && is_digit(t[jt]));
    assert(s[js] == t[jt]);
    let kt = if t[jt] == '0' {
        jt + 1
    } else {
        scan_digits(t, jt)
    };
    lemma_scan_digits_props(t, jt);
    lemma_scan_digits_embed(t, s, i, jt);
    let ks = if s[js] == '0' {
        js + 1
    } else {
        scan_digits(s, js)
    };
    assert(ks == i + kt);
    assert(jt < kt <= t.len());
    // the fraction part
    let k2o_t = scan_frac(t, kt);
    assert(k2o_t is Some);
    let k2t = k2o_t->0;
    if kt < t.len() && t[kt] == '.' {
        assert(s[i + kt] == '.');
        assert(kt + 1 < t.len() && is_digit(t[kt + 1]));
        assert(s[i + kt + 1] == t[kt + 1]);
        lemma_scan_digits_embed(t, s, i, kt + 1);
        assert(scan_frac(s, ks) == Some(i + k2t));
    } else {
        if i + kt == s.len() {
            assert(scan_frac(s, ks) == Some(ks));
        } else {
            if kt == t.len() {
                assert(is_delim(s[i + kt]));
                assert(s[i + kt] != '.');
            } else {
                assert(s[i + kt] == t[kt]);
            }
            assert(scan_frac(s, ks) == Some(ks));
        }
        assert(k2t == kt);
    }
    let k2s = i + k2t;
    assert(scan_frac(s, ks) == Some(k2s));
    assert(kt <= k2t <= t.len()) by {
        if kt < t.len() && t[kt] == '.' {
            lemma_scan_digits_props(t, kt + 1);
        }
    }
    // the exponent part
    let k3o_t = scan_exp(t, k2t);
    assert(k3o_t is Some);
    let k3t = k3o_t->0;
    assert(k3t == t.len());
    if k2t < t.len() && (t[k2t] == 'e' || t[k2t] == 'E') {
        assert(s[i + k2t] == t[k2t]);
        let mt = if k2t + 1 < t.len() && (t[k2t + 1] == '+' || t[k2t + 1] == '-') {
            k2t + 2
        } else {
            k2t + 1
        };
        if k2t + 1 < t.len() {
            assert(s[i + k2t + 1] == t[k2t + 1]);
        }
        let ms = if k2s + 1 < s.len() && (s[k2s + 1] == '+' || s[k2s + 1] == '-') {
            k2s + 2
        } else {
            k2s + 1
        };
        assert(mt < t.len() && is_digit(t[mt]));
        assert(ms == i + mt) by {
            if k2t + 1 < t.len() {
            } else {
                assert(mt == k2t + 1);
                assert(is_digit(t[mt]));
                assert(false);
            }
        }
        assert(s[ms] == t[mt]);
        lemma_scan_digits_embed(t, s, i, mt);
        assert(scan_exp(s, k2s) == Some(i + k3t));
    } else {
        if i + k2t == s.len() {
            assert(scan_exp(s, k2s) == Some(k2s));
        } else {
            if k2t == t.len() {
                assert(is_delim(s[i + k2t]));
            } else {
                assert(s[i + k2t] == t[k2t]);
            }
            assert(scan_exp(s, k2s) == Some(k2s));
        }
        assert(k3t == k2t);
    }
    assert(scan_number(s, i) == Some(i + k3t));
}

// ---------------------------------------------------------------------------
// Escaped strings embedded in a larger text.
// ---------------------------------------------------------------------------
/// Reading back one escaped digit.
pub proof fn lemma_hex_char_val(d: nat)
    requires
        d < 16,
    ensures
        is_hex(hex_char(d)),
        hex_val(hex_char(d)) == d,
{
    if d < 10 {
        crate::nums::lemma_digit_val_char(d);
    } else if d == 10 {
        assert(is_hex('a') && hex_val('a') == 10);
    } else if d == 11 {
        assert(is_hex('b') && hex_val('b') == 11);
    } else if d == 12 {
        assert(is_hex('c') && hex_val('c') == 12);
    } else if d == 13 {
        assert(is_hex('d') && hex_val('d') == 13);
    } else if d == 14 {
        assert(is_hex('e') && hex_val('e') == 14);
    } else {
        assert(is_hex('f') && hex_val('f') == 15);
    }
}

/// Scanning a serialized string body yields the content it encodes and stops
/// just past the closing quote.
pub proof fn lemma_scan_esc(cs: Seq<char>, s: Seq<char>, i: int, acc: Seq<char>)
    requires
        0 <= i,
        i + esc_text(cs).len() + 1 <= s.len(),
        s.subrange(i, i + esc_text(cs).len()) == esc_text(cs),
        s[i + esc_text(cs).len()] == '"',
    ensures
        scan_string(s, i, acc) == Some((acc + cs, (esc_text(cs).len() + 1) as nat)),
    decreases cs.len(),
{
    broadcast use vstd::utf8::char_is_scalar;

    lemma_region(s, i, esc_text(cs));
    if cs.len() == 0 {
        assert(s[i] == '"');
        assert(scan_string(s, i, acc) == Some((acc, 1nat)));
        assert(acc + cs =~= acc);
    } else {
        let c = cs[0];
        let e = esc_char(c);
        let rest = esc_text(cs.drop_first());
        assert(esc_text(cs) == e + rest);
        lemma_region_split(s, i, e, rest);
        lemma_region(s, i, e);
        assert forall|k: int| 0 <= k < e.len() implies s[i + k] == e[k] by {
            assert(e[k] == s[i + k]);
        }
        let i2 = i + e.len();
        assert(s.subrange(i2, i2 + rest.len()) == rest);
        if c == '"' || c == '\\' || c == '\n' || c == '\r' || c == '\t' || c == '\u{8}' || c
            == '\u{c}' {
            assert(e.len() == 2 && e[0] == '\\');
            assert(s[i] == '\\');
            assert(unescape(s[i + 1]) == Some(c));
            lemma_scan_esc(cs.drop_first(), s, i + 2, acc.push(c));
            assert(acc.push(c) + cs.drop_first() =~= acc + cs);
        } else if (c as u32) < 0x20 {
            assert(e == seq!['\\', 'u', '0', '0', hex_char(((c as u32) / 16) as nat), hex_char(
                ((c as u32) % 16) as nat,
            )]);
            assert(s[i] == '\\' && s[i + 1] == 'u' && s[i + 2] == '0' && s[i + 3] == '0');
            let h1 = hex_char(((c as u32) / 16) as nat);
            let h2 = hex_char(((c as u32) % 16) as nat);
            assert(s[i + 4] == h1 && s[i + 5] == h2);
            lemma_hex_char_val(((c as u32) / 16) as nat);
            lemma_hex_char_val(((c as u32) % 16) as nat);
            assert(is_hex('0') && hex_val('0') == 0);
            let code = hex_val(s[i + 2]) * 4096 + hex_val(s[i + 3]) * 256 + hex_val(s[i + 4]) * 16
                + hex_val(s[i + 5]);
            assert(code == (c as u32) / 16 * 16 + (c as u32) % 16);
            assert(code == c as u32);
            assert(code < 0xD800);
            vstd::utf8::char_u32_cast(c, c as u32);
            assert(((code as u32) as char) == c);
            lemma_scan_esc(cs.drop_first(), s, i + 6, acc.push(c));
            assert(acc.push(c) + cs.drop_first() =~= acc + cs);
        } else {
            assert(e == seq![c]);
            assert(s[i + 0] == e[0]);
            assert(s[i] == c);
            assert(c != '"' && c != '\\');
            assert((s[i] as u32) >= 0x20);
            lemma_scan_esc(cs.drop_first(), s, i + 1, acc.push(c));
            assert(acc.push(c) + cs.drop_first() =~= acc + cs);
        }
    }
}


// ---------------------------------------------------------------------------
// The round trip itself.
// ---------------------------------------------------------------------------
/// A serialized number's first character selects no keyword or bracket.
pub proof fn lemma_num_first_dispatch(c: char)
    requires
        c == '-' || is_digit(c),
    ensures
        c != 'n' && c != 't' && c != 'f' && c != '"' && c != '[' && c != '{',
{
    if c == '-' {
    } else {
        assert('0' <= c && c <= '9');
    }
}

/// Parsing a serialized well-formed value embedded in a larger text yields
/// the value and consumes exactly its serialization, provided the next
/// character (if any) is a separator or closing bracket.
#[verifier::rlimit(80)]
pub proof fn lemma_parse_ser(v: JsonVal, s: Seq<char>, i: int)
    requires
        wf_val(v),
        0 <= i,
        i + ser_val(v).len() <= s.len(),
        s.subrange(i, i + ser_val(v).len()) == ser_val(v),
        i + ser_val(v).len() == s.len() || is_delim(s[i + ser_val(v).len()]),
    ensures
        parse_val(s, i) == Some((v, ser_val(v).len() as nat)),
    decreases v,
{
    lemma_region(s, i, ser_val(v));
    lemma_ser_first(v);
    let n = ser_val(v).len() as int;
    assert(s[i + 0] == ser_val(v)[0]);
    match v {
        JsonVal::Null => {
            assert(s[i] == 'n');
            assert(s.subrange(i, i + 4) =~= seq!['n', 'u', 'l', 'l']);
            assert(parse_val(s, i) == Some((JsonVal::Null, 4nat)));
        },
        JsonVal::Bool(b) => {
            if b {
                assert(s[i] == 't');
                assert(s.subrange(i, i + 4) =~= seq!['t', 'r', 'u', 'e']);
                assert(parse_val(s, i) == Some((JsonVal::Bool(true), 4nat)));
            } else {
                assert(s[i] == 'f');
                assert(s.subrange(i, i + 5) =~= seq!['f', 'a', 'l', 's', 'e']);
                assert(parse_val(s, i) == Some((JsonVal::Bool(false), 5nat)));
            }
        },
        JsonVal::Num(t) => {
            lemma_number_first(t);
            assert(s[i] == t[0]);
            lemma_num_first_dispatch(s[i]);
            lemma_scan_number_embed(t, s, i);
            assert(s.subrange(i, i + n) == t);
            assert(parse_val(s, i) == Some(
                (JsonVal::Num(s.subrange(i, i + n)), crate::parse::sub_count(i, i + n)),
            ));
            assert(crate::parse::sub_count(i, i + n) == n as nat);
        },
        JsonVal::Str(cs) => {
            assert(s[i] == '"');
            let e = esc_text(cs);
            assert(ser_val(v) == seq!['"'] + e + seq!['"']);
            assert forall|k: int| 0 <= k < e.len() implies s.subrange(i + 1, i + 1 + e.len())[k]
                == e[k] by {
                assert(ser_val(v)[1 + k] == s[i + (1 + k)]);
                assert((seq!['"'] + e)[1 + k] == e[k]);
                assert(ser_val(v)[1 + k] == (seq!['"'] + e)[1 + k]);
            }
            assert(s.subrange(i + 1, i + 1 + e.len()) =~= e);
            assert(ser_val(v)[1 + e.len() as int] == s[i + 1 + e.len()]);
            assert(ser_val(v)[1 + e.len() as int] == '"');
            lemma_scan_esc(cs, s, i + 1, Seq::empty());
            assert(Seq::empty() + cs =~= cs);
            assert(scan_string(s, i + 1, Seq::empty()) == Some(
                (cs, (e.len() + 1) as nat),
            ));
            assert(parse_val(s, i) == Some((JsonVal::Str(cs), (1 + (e.len() + 1)) as nat)));
        },
        JsonVal::Arr(items) => {
            assert(s[i] == '[');
            let inner = ser_items(items);
            assert(ser_val(v) == seq!['['] + inner + seq![']']);
            assert forall|k: int|
                0 <= k < inner.len() implies s.subrange(i + 1, i + 1 + inner.len())[k]
                == inner[k] by {
                assert(ser_val(v)[1 + k] == s[i + (1 + k)]);
                assert((seq!['['] + inner)[1 + k] == inner[k]);
                assert(ser_val(v)[1 + k] == (seq!['['] + inner)[1 + k]);
            }
            assert(s.subrange(i + 1, i + 1 + inner.len()) =~= inner);
            assert(ser_val(v)[1 + inner.len() as int] == s[i + 1 + inner.len()]);
            assert(ser_val(v)[1 + inner.len() as int] == ']');
            if items.len() == 0 {
                assert(inner.len() == 0);
                assert(s[i + 1] == ']');
                lemma_wsc_zero(s, i + 1);
                assert(parse_val(s, i) == Some(
                    (JsonVal::Arr(Seq::empty()), crate::parse::sub_count(i, i + 2)),
                ));
            } else {
                assert(wf_val(items[0]));
                assert(inner[0] == ser_val(items[0])[0]) by {
                    if items.len() == 1 {
                    } else {
                        assert(inner == ser_val(items[0]) + seq![','] + ser_items(
                            items.drop_first(),
                        ));
                        lemma_ser_first(items[0]);
                        assert((ser_val(items[0]) + seq![','])[0] == ser_val(items[0])[0]);
                    }
                }
                lemma_ser_first(items[0]);
                assert(inner.len() > 0) by {
                    if items.len() == 1 {
                    } else {
                        assert(inner == ser_val(items[0]) + seq![','] + ser_items(
                            items.drop_first(),
                        ));
                    }
                }
                assert(s[i + 1] == inner[0]) by {
                    assert(s.subrange(i + 1, i + 1 + inner.len())[0] == inner[0]);
                    assert(s.subrange(i + 1, i + 1 + inner.len())[0] == s[i + 1 + 0]);
                }
                lemma_wsc_zero(s, i + 1);
                assert(s[i + 1] != ']');
                lemma_parse_items_ser(items, Seq::empty(), s, i + 1);
                assert(Seq::empty() + items =~= items);
                assert(parse_items(s, i + 1, Seq::empty()) == Some(
                    (JsonVal::Arr(items), (inner.len() + 1) as nat),
                ));
                assert(parse_val(s, i) == Some((v, (1 + (inner.len() + 1)) as nat)));
            }
        },
        JsonVal::Obj(fields) => {
            assert(s[i] == '{');
            let inner = ser_fields(fields);
            assert(ser_val(v) == seq!['{'] + inner + seq!['}']);
            assert forall|k: int|
                0 <= k < inner.len() implies s.subrange(i + 1, i + 1 + inner.len())[k]
                == inner[k] by {
                assert(ser_val(v)[1 + k] == s[i + (1 + k)]);
                assert((seq!['{'] + inner)[1 + k] == inner[k]);
                assert(ser_val(v)[1 + k] == (seq!['{'] + inner)[1 + k]);
            }
            assert(s.subrange(i + 1, i + 1 + inner.len()) =~= inner);
            assert(ser_val(v)[1 + inner.len() as int] == s[i + 1 + inner.len()]);
            assert(ser_val(v)[1 + inner.len() as int] == '}');
            if fields.len() == 0 {
                assert(inner.len() == 0);
                assert(s[i + 1] == '}');
                lemma_wsc_zero(s, i + 1);
                assert(parse_val(s, i) == Some(
                    (JsonVal::Obj(Seq::empty()), crate::parse::sub_count(i, i + 2)),
                ));
            } else {
                assert(inner[0] == '"') by {
                    assert(ser_field(fields[0])[0] == '"');
                    if fields.len() == 1 {
                    } else {
                        assert(inner == ser_field(fields[0]) + seq![','] + ser_fields(
                            fields.drop_first(),
                        ));
                        assert((ser_field(fields[0]) + seq![','])[0] == ser_field(fields[0])[0]);
                    }
                }
                assert(inner.len() > 0) by {
                    let f0 = ser_field(fields[0]);
                    assert(f0 == seq!['"'] + esc_text(fields[0].k) + seq!['"', ':'] + ser_val(
                        fields[0].v,
                    ));
                    assert(f0.len() >= 3);
                    if fields.len() == 1 {
                    } else {
                        assert(inner == f0 + seq![','] + ser_fields(fields.drop_first()));
                    }
                }
                assert(s[i + 1] == inner[0]) by {
                    assert(s.subrange(i + 1, i + 1 + inner.len())[0] == inner[0]);
                    assert(s.subrange(i + 1, i + 1 + inner.len())[0] == s[i + 1 + 0]);
                }
                lemma_wsc_zero(s, i + 1);
                assert(s[i + 1] != '}');
                lemma_parse_fields_ser(fields, Seq::empty(), s, i + 1);
                assert(Seq::empty() + fields =~= fields);
                assert(parse_fields(s, i + 1, Seq::empty()) == Some(
                    (JsonVal::Obj(fields), (inner.len() + 1) as nat),
                ));
                assert(parse_val(s, i) == Some((v, (1 + (inner.len() + 1)) as nat)));
            }
        },
    }
}

/// Parsing serialized array elements embedded at `i`, with `]` right after
/// them, yields the elements appended to `acc`.
pub proof fn lemma_parse_items_ser(rest: Seq<JsonVal>, acc: Seq<JsonVal>, s: Seq<char>, i: int)
    requires
        rest.len() > 0,
        forall|k: int| 0 <= k < rest.len() ==> wf_val(#[trigger] rest[k]),
        0 <= i,
        i + ser_items(rest).len() + 1 <= s.len(),
        s.subrange(i, i + ser_items(rest).len()) == ser_items(rest),
        s[i + ser_items(rest).len()] == ']',
    ensures
        parse_items(s, i, acc) == Some(
            (JsonVal::Arr(acc + rest), (ser_items(rest).len() + 1) as nat),
        ),
    decreases rest,
{
    let v0 = rest[0];
    assert(wf_val(v0));
    lemma_ser_first(v0);
    let e0 = ser_val(v0);
    lemma_region(s, i, ser_items(rest));
    if rest.len() == 1 {
        assert(ser_items(rest) == e0);
        assert(s[i + 0] == e0[0]);
        lemma_wsc_zero(s, i);
        assert(is_delim(s[i + e0.len()]));
        lemma_parse_ser(v0, s, i);
        lemma_wsc_zero(s, i + e0.len());
        assert(acc.push(v0) =~= acc + rest);
        assert(crate::parse::sub_count(i, i + e0.len() + 1) == (e0.len() + 1) as nat);
        assert(parse_items(s, i, acc) == Some(
            (JsonVal::Arr(acc.push(v0)), crate::parse::sub_count(i, i + e0.len() + 1)),
        ));
    } else {
        let rest2 = ser_items(rest.drop_first());
        assert(ser_items(rest) == e0 + seq![','] + rest2);
        // the first element's region
        assert forall|k: int| 0 <= k < e0.len() implies s.subrange(i, i + e0.len())[k]
            == e0[k] by {
            assert(ser_items(rest)[k] == s[i + k]);
            assert(((e0 + seq![',']) + rest2)[k] == (e0 + seq![','])[k]);
            assert((e0 + seq![','])[k] == e0[k]);
        }
        assert(s.subrange(i, i + e0.len()) =~= e0);
        // the separator
        assert(ser_items(rest)[e0.len() as int] == s[i + e0.len()]);
        assert(((e0 + seq![',']) + rest2)[e0.len() as int] == (e0 + seq![','])[e0.len() as int]);
        assert(s[i + e0.len()] == ',');
        // the remaining elements' region
        let m = i + e0.len() + 1;
        assert forall|k: int| 0 <= k < rest2.len() implies s.subrange(m, m + rest2.len())[k]
            == rest2[k] by {
            assert(ser_items(rest)[e0.len() + 1 + k] == s[i + (e0.len() + 1 + k)]);
            assert(((e0 + seq![',']) + rest2)[e0.len() + 1 + k] == rest2[k]);
        }
        assert(s.subrange(m, m + rest2.len()) =~= rest2);
        assert(s[m + rest2.len()] == ']');
        // walk the grammar
        assert(s[i + 0] == e0[0]);
        assert(ser_items(rest)[0] == (e0 + seq![','])[0]);
        lemma_wsc_zero(s, i);
        assert(is_delim(s[i + e0.len()]));
        lemma_parse_ser(v0, s, i);
        lemma_wsc_zero(s, i + e0.len());
        assert(forall|k: int|
            0 <= k < rest.drop_first().len() ==> wf_val(#[trigger] rest.drop_first()[k]));
        lemma_parse_items_ser(rest.drop_first(), acc.push(v0), s, m);
        assert(acc.push(v0) + rest.drop_first() =~= acc + rest);
        assert(crate::parse::sub_count(i, m + (rest2.len() + 1)) == (ser_items(rest).len()
            + 1) as nat);
    }
}

/// Parsing serialized object members embedded at `i`, with `}` right after
/// them, yields the members appended to `acc`.
#[verifier::rlimit(60)]
pub proof fn lemma_parse_fields_ser(rest: Seq<JKv>, acc: Seq<JKv>, s: Seq<char>, i: int)
    requires
        rest.len() > 0,
        forall|k: int| 0 <= k < rest.len() ==> wf_val((#[trigger] rest[k]).v),
        0 <= i,
        i + ser_fields(rest).len() + 1 <= s.len(),
        s.subrange(i, i + ser_fields(rest).len()) == ser_fields(rest),
        s[i + ser_fields(rest).len()] == '}',
    ensures
        parse_fields(s, i, acc) == Some(
            (JsonVal::Obj(acc + rest), (ser_fields(rest).len() + 1) as nat),
        ),
    decreases rest,
{
    let f0 = rest[0];
    assert(wf_val(f0.v));
    let e0 = ser_field(f0);
    let key = esc_text(f0.k);
    let vser = ser_val(f0.v);
    assert(e0 == seq!['"'] + key + seq!['"', ':'] + vser);
    lemma_region(s, i, ser_fields(rest));
    // the first member's region inside the members' region
    assert forall|k: int| 0 <= k < e0.len() implies s[i + k] == e0[k] by {
        assert(ser_fields(rest)[k] == s[i + k]);
        if rest.len() == 1 {
        } else {
            assert(ser_fields(rest) == e0 + seq![','] + ser_fields(rest.drop_first()));
            assert(((e0 + seq![',']) + ser_fields(rest.drop_first()))[k] == (e0 + seq![','])[k]);
            assert((e0 + seq![','])[k] == e0[k]);
        }
    }
    // the member's own pieces
    assert(s[i + 0] == e0[0]);
    assert(e0[0] == '"') by {
        assert(((seq!['"'] + key) + seq!['"', ':'])[0] == (seq!['"'] + key)[0]);
    }
    lemma_wsc_zero(s, i);
    // the escaped key's region, with its closing quote
    assert forall|k: int| 0 <= k < key.len() implies s.subrange(i + 1, i + 1 + key.len())[k]
        == key[k] by {
        assert(s[i + (1 + k)] == e0[1 + k]);
        assert((((seq!['"'] + key) + seq!['"', ':']) + vser)[1 + k] == ((seq!['"'] + key)
            + seq!['"', ':'])[1 + k]);
        assert(((seq!['"'] + key) + seq!['"', ':'])[1 + k] == (seq!['"'] + key)[1 + k]);
        assert((seq!['"'] + key)[1 + k] == key[k]);
    }
    assert(s.subrange(i + 1, i + 1 + key.len()) =~= key);
    assert(s[i + 1 + key.len()] == e0[1 + key.len() as int]);
    assert(e0[1 + key.len() as int] == '"') by {
        assert((((seq!['"'] + key) + seq!['"', ':']) + vser)[1 + key.len() as int] == ((seq!['"']
            + key) + seq!['"', ':'])[1 + key.len() as int]);
        assert(((seq!['"'] + key) + seq!['"', ':'])[1 + key.len() as int] == seq!['"', ':'][0]);
    }
    lemma_scan_esc(f0.k, s, i + 1, Seq::empty());
    assert(Seq::empty() + f0.k =~= f0.k);
    let m0 = i + 1 + (key.len() + 1);
    // the colon
    assert(s[i + 2 + key.len()] == e0[2 + key.len() as int]);
    assert(e0[2 + key.len() as int] == ':') by {
        assert((((seq!['"'] + key) + seq!['"', ':']) + vser)[2 + key.len() as int] == ((seq!['"']
            + key) + seq!['"', ':'])[2 + key.len() as int]);
        assert(((seq!['"'] + key) + seq!['"', ':'])[2 + key.len() as int] == seq!['"', ':'][1]);
    }
    assert(s[m0] == ':');
    lemma_wsc_zero(s, m0);
    // the value's region
    let b = m0 + 1;
    assert forall|k: int| 0 <= k < vser.len() implies s.subrange(b, b + vser.len())[k]
        == vser[k] by {
        assert(s[i + (3 + key.len() + k)] == e0[3 + key.len() + k]);
        assert((((seq!['"'] + key) + seq!['"', ':']) + vser)[3 + key.len() + k] == vser[k]);
    }
    assert(s.subrange(b, b + vser.len()) =~= vser);
    lemma_ser_first(f0.v);
    assert(s[b + 0] == s.subrange(b, b + vser.len())[0]);
    lemma_wsc_zero(s, b);
    let after = b + vser.len();
    assert(after == i + e0.len());
    if rest.len() == 1 {
        assert(ser_fields(rest) == e0);
        assert(s[after] == '}');
        lemma_parse_ser(f0.v, s, b);
        lemma_wsc_zero(s, after);
        assert(acc.push(f0) =~= acc + rest);
        assert(JKv { k: f0.k, v: f0.v } == f0);
        assert(crate::parse::sub_count(i, after + 1) == (ser_fields(rest).len() + 1) as nat);
    } else {
        let rest2 = ser_fields(rest.drop_first());
        assert(ser_fields(rest) == e0 + seq![','] + rest2);
        assert(ser_fields(rest)[e0.len() as int] == s[i + e0.len()]);
        assert(((e0 + seq![',']) + rest2)[e0.len() as int] == (e0 + seq![','])[e0.len() as int]);
        assert(s[after] == ',');
        lemma_parse_ser(f0.v, s, b);
        lemma_wsc_zero(s, after);
        let m2 = after + 1;
        assert forall|k: int| 0 <= k < rest2.len() implies s.subrange(m2, m2 + rest2.len())[k]
            == rest2[k] by {
            assert(ser_fields(rest)[e0.len() + 1 + k] == s[i + (e0.len() + 1 + k)]);
            assert(((e0 + seq![',']) + rest2)[e0.len() + 1 + k] == rest2[k]);
        }
        assert(s.subrange(m2, m2 + rest2.len()) =~= rest2);
        assert(s[m2 + rest2.len()] == '}');
        assert(forall|k: int|
            0 <= k < rest.drop_first().len() ==> wf_val((#[trigger] rest.drop_first()[k]).v));
        lemma_parse_fields_ser(rest.drop_first(), acc.push(f0), s, m2);
        assert(JKv { k: f0.k, v: f0.v } == f0);
        assert(acc.push(f0) + rest.drop_first() =~= acc + rest);
        assert(crate::parse::sub_count(i, m2 + (rest2.len() + 1)) == (ser_fields(rest).len()
            + 1) as nat);
    }
}

/// The round trip: parsing the canonical text of a well-formed value gives
/// the value back.
pub proof fn lemma_parse_text_ser(v: JsonVal)
    requires
        wf_val(v),
    ensures
        parse_text(ser_val(v)) == Some(v),
{
    let s = ser_val(v);
    lemma_ser_first(v);
    lemma_wsc_zero(s, 0);
    assert(s.subrange(0, s.len() as int) =~= s);
    lemma_parse_ser(v, s, 0);
    lemma_wsc_zero(s, s.len() as int);
}

} // verus!
