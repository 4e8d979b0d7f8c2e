//! The JSON document model shared by every feed: a value type, a
//! mathematical view of it, and a serializer producing the exact character
//! sequence that the specification-level `ser_val` describes.
//!
//! Numbers keep their source text. The upstream feeds send decimals whose
//! precision exceeds what binary floating point can round-trip, so a number
//! is carried as the literal it was written as and never re-formatted.
use vstd::prelude::*;

use crate::text::{chars_to_string, str_to_chars};

verus! {

broadcast use vstd::seq::group_seq_axioms, vstd::std_specs::vec::group_vec_axioms;

/// One key/value pair of a JSON object. Pairs keep their document order.
pub struct JsonField {
    pub key: String,
    pub value: JsonValue,
}

/// A JSON document value. `Num` holds the number's source text.
pub enum JsonValue {
    Null,
    Bool(bool),
    Num(String),
    Str(String),
    Arr(Vec<JsonValue>),
    Obj(Vec<JsonField>),
}

/// The mathematical shape of a JSON value: strings become `Seq<char>`.
pub enum JsonVal {
    Null,
    Bool(bool),
    Num(Seq<char>),
    Str(Seq<char>),
    Arr(Seq<JsonVal>),
    Obj(Seq<JKv>),
}

/// The mathematical shape of one object pair.
pub struct JKv {
    pub k: Seq<char>,
    pub v: JsonVal,
}

pub open spec fn arr_view(items: Seq<JsonValue>) -> Seq<JsonVal>
    decreases items,
{
    Seq::new(
        items.len(),
        |i: int|
            if 0 <= i < items.len() {
                jv_view(items[i])
            } else {
                JsonVal::Null
            },
    )
}

pub open spec fn obj_view(fields: Seq<JsonField>) -> Seq<JKv>
    decreases fields,
{
    Seq::new(
        fields.len(),
        |i: int|
            if 0 <= i < fields.len() {
                JKv { k: fields[i].key@, v: jv_view(fields[i].value) }
            } else {
                JKv { k: Seq::empty(), v: JsonVal::Null }
            },
    )
}

pub open spec fn jv_view(v: JsonValue) -> JsonVal
    decreases v,
{
    match v {
        JsonValue::Null => JsonVal::Null,
        JsonValue::Bool(b) => JsonVal::Bool(b),
        JsonValue::Num(t) => JsonVal::Num(t@),
        JsonValue::Str(s) => JsonVal::Str(s@),
        JsonValue::Arr(items) => JsonVal::Arr(arr_view(items@)),
        JsonValue::Obj(fields) => JsonVal::Obj(obj_view(fields@)),
    }
}

impl View for JsonValue {
    type V = JsonVal;

    open spec fn view(&self) -> JsonVal {
        jv_view(*self)
    }
}

// ---------------------------------------------------------------------------
// The number grammar. A number is `-? int frac? exp?`, as in JSON.
// ---------------------------------------------------------------------------
pub open spec fn is_digit(c: char) -> bool {
    '0' <= c && c <= '9'
}

/// First index at or after `i` that does not hold a digit.
pub open spec fn scan_digits(s: Seq<char>, i: int) -> int
    decreases s.len() - i,
{
    if 0 <= i < s.len() && is_digit(s[i]) {
        scan_digits(s, i + 1)
    } else {
        i
    }
}

/// End of the fraction part starting at `k`, if the text there is valid.
pub open spec fn scan_frac(s: Seq<char>, k: int) -> Option<int> {
    if 0 <= k < s.len() && s[k] == '.' {
        if k + 1 < s.len() && is_digit(s[k + 1]) {
            Some(scan_digits(s, k + 1))
        } else {
            None
        }
    } else {
        Some(k)
    }
}

/// End of the exponent part starting at `k`, if the text there is valid.
pub open spec fn scan_exp(s: Seq<char>, k: int) -> Option<int> {
    if 0 <= k < s.len() && (s[k] == 'e' || s[k] == 'E') {
        let m = if k + 1 < s.len() && (s[k + 1] == '+' || s[k + 1] == '-') {
            k + 2
        } else {
            k + 1
        };
        if m < s.len() && is_digit(s[m]) {
            Some(scan_digits(s, m))
        } else {
            None
        }
    } else {
        Some(k)
    }
}

/// End of the number token starting at `i`, or `None` if no valid number
/// starts there.
pub open spec fn scan_number(s: Seq<char>, i: int) -> Option<int> {
    let j = if 0 <= i < s.len() && s[i] == '-' {
        i + 1
    } else {
        i
    };
    if !(0 <= j < s.len() && is_digit(s[j])) {
        None
    } else {
        let k = if s[j] == '0' {
            j + 1
        } else {
            scan_digits(s, j)
        };
        match scan_frac(s, k) {
            None => None,
            Some(k2) => scan_exp(s, k2),
        }
    }
}

/// `t` is exactly one valid JSON number token.
pub open spec fn is_number_text(t: Seq<char>) -> bool {
    scan_number(t, 0) == Some(t.len() as int)
}

/// Every number in the value is a valid number token.
pub open spec fn wf_val(v: JsonVal) -> bool
    decreases v,
{
    match v {
        JsonVal::Null => true,
        JsonVal::Bool(_) => true,
        JsonVal::Num(t) => is_number_text(t),
        JsonVal::Str(_) => true,
        JsonVal::Arr(items) => forall|i: int| 0 <= i < items.len() ==> wf_val(#[trigger] items[i]),
        JsonVal::Obj(fields) => forall|i: int|
            0 <= i < fields.len() ==> wf_val(#[trigger] fields[i].v),
    }
}

// ---------------------------------------------------------------------------
// Serialization: the canonical text of a value.
// ---------------------------------------------------------------------------
/// The hexadecimal digit character for `d < 16`.
pub open spec fn hex_char(d: nat) -> char {
    if d == 0 {
        '0'
    } else if d == 1 {
        '1'
    } else if d == 2 {
        '2'
    } else if d == 3 {
        '3'
    } else if d == 4 {
        '4'
    } else if d == 5 {
        '5'
    } else if d == 6 {
        '6'
    } else if d == 7 {
        '7'
    } else if d == 8 {
        '8'
    } else if d == 9 {
        '9'
    } else if d == 10 {
        'a'
    } else if d == 11 {
        'b'
    } else if d == 12 {
        'c'
    } else if d == 13 {
        'd'
    } else if d == 14 {
        'e'
    } else {
        'f'
    }
}

/// How one character appears inside a serialized JSON string.
pub open spec fn esc_char(c: char) -> Seq<char> {
    if c == '"' {
        seq!['\\', '"']
    } else if c == '\\' {
        seq!['\\', '\\']
    } else if c == '\n' {
        seq!['\\', 'n']
    } else if c == '\r' {
        seq!['\\', 'r']
    } else if c == '\t' {
        seq!['\\', 't']
    } else if c == '\u{8}' {
        seq!['\\', 'b']
    } else if c == '\u{c}' {
        seq!['\\', 'f']
    } else if (c as u32) < 0x20 {
        seq!['\\', 'u', '0', '0', hex_char(((c as u32) / 16) as nat), hex_char(
            ((c as u32) % 16) as nat,
        )]
    } else {
        seq![c]
    }
}

/// The escaped body of a serialized JSON string.
pub open spec fn esc_text(s: Seq<char>) -> Seq<char>
    decreases s.len(),
{
    if s.len() == 0 {
        Seq::empty()
    } else {
        esc_char(s[0]) + esc_text(s.drop_first())
    }
}

pub open spec fn ser_val(v: JsonVal) -> Seq<char>
    decreases v,
{
    match v {
        JsonVal::Null => seq!['n', 'u', 'l', 'l'],
        JsonVal::Bool(b) => if b {
            seq!['t', 'r', 'u', 'e']
        } else {
            seq!['f', 'a', 'l', 's', 'e']
        },
        JsonVal::Num(t) => t,
        JsonVal::Str(s) => seq!['"'] + esc_text(s) + seq!['"'],
        JsonVal::Arr(items) => seq!['['] + ser_items(items) + seq![']'],
        JsonVal::Obj(fields) => seq!['{'] + ser_fields(fields) + seq!['}'],
    }
}

pub open spec fn ser_items(items: Seq<JsonVal>) -> Seq<char>
    decreases items,
{
    if items.len() == 0 {
        Seq::empty()
    } else if items.len() == 1 {
        ser_val(items[0])
    } else {
        ser_val(items[0]) + seq![','] + ser_items(items.drop_first())
    }
}

pub open spec fn ser_fields(fields: Seq<JKv>) -> Seq<char>
    decreases fields,
{
    if fields.len() == 0 {
        Seq::empty()
    } else if fields.len() == 1 {
        ser_field(fields[0])
    } else {
        ser_field(fields[0]) + seq![','] + ser_fields(fields.drop_first())
    }
}

pub open spec fn ser_field(f: JKv) -> Seq<char>
    decreases f,
{
    seq!['"'] + esc_text(f.k) + seq!['"', ':'] + ser_val(f.v)
}

// ---------------------------------------------------------------------------
// Lemmas used while serializing element by element.
// ---------------------------------------------------------------------------
pub proof fn lemma_esc_push(s: Seq<char>, c: char)
    ensures
        esc_text(s.push(c)) == esc_text(s) + esc_char(c),
    decreases s.len(),
{
    if s.len() == 0 {
        assert(s.push(c)[0] == c);
        assert(s.push(c).drop_first() =~= Seq::<char>::empty());
        assert(esc_text(s.push(c)) == esc_char(c) + esc_text(Seq::<char>::empty()));
        assert(esc_char(c) + Seq::<char>::empty() =~= esc_char(c));
        assert(esc_text(s) + esc_char(c) =~= esc_char(c));
    } else {
        assert(s.push(c).drop_first() =~= s.drop_first().push(c));
        lemma_esc_push(s.drop_first(), c);
        assert(esc_text(s.push(c)) =~= esc_text(s) + esc_char(c));
    }
}

pub proof fn lemma_ser_items_push(items: Seq<JsonVal>, x: JsonVal)
    ensures
        items.len() == 0 ==> ser_items(items.push(x)) == ser_val(x),
        items.len() > 0 ==> ser_items(items.push(x)) == ser_items(items) + seq![','] + ser_val(x),
    decreases items.len(),
{
    if items.len() == 0 {
        assert(items.push(x)[0] == x);
    } else {
        assert(items.push(x).drop_first() =~= items.drop_first().push(x));
        lemma_ser_items_push(items.drop_first(), x);
        if items.len() == 1 {
            assert(ser_items(items.push(x)) =~= ser_items(items) + seq![','] + ser_val(x));
        } else {
            assert(ser_items(items.push(x)) =~= ser_items(items) + seq![','] + ser_val(x));
        }
    }
}

pub proof fn lemma_ser_fields_push(fields: Seq<JKv>, x: JKv)
    ensures
        fields.len() == 0 ==> ser_fields(fields.push(x)) == ser_field(x),
        fields.len() > 0 ==> ser_fields(fields.push(x)) == ser_fields(fields) + seq![',']
            + ser_field(x),
    decreases fields.len(),
{
    if fields.len() == 0 {
        assert(fields.push(x)[0] == x);
    } else {
        assert(fields.push(x).drop_first() =~= fields.drop_first().push(x));
        lemma_ser_fields_push(fields.drop_first(), x);
        assert(ser_fields(fields.push(x)) =~= ser_fields(fields) + seq![','] + ser_field(x));
    }
}

// ---------------------------------------------------------------------------
// The executable serializer.
// ---------------------------------------------------------------------------
fn hex_char_of(d: u32) -> (c: char)
    requires
        d < 16,
    ensures
        c == hex_char(d as nat),
{
    if d == 0 {
        '0'
    } else if d == 1 {
        '1'
    } else if d == 2 {
        '2'
    } else if d == 3 {
        '3'
    } else if d == 4 {
        '4'
    } else if d == 5 {
        '5'
    } else if d == 6 {
        '6'
    } else if d == 7 {
        '7'
    } else if d == 8 {
        '8'
    } else if d == 9 {
        '9'
    } else if d == 10 {
        'a'
    } else if d == 11 {
        'b'
    } else if d == 12 {
        'c'
    } else if d == 13 {
        'd'
    } else if d == 14 {
        'e'
    } else {
        'f'
    }
}

fn write_escaped(s: &str, out: &mut Vec<char>)
    ensures
        final(out)@ == old(out)@ + esc_text(s@),
{
    let cs = str_to_chars(s);
    let n = cs.len();
    let mut i: usize = 0;
    while i < n
        invariant
            n == cs.len(),
            cs@ == s@,
            i <= n,
            out@ == old(out)@ + esc_text(cs@.take(i as int)),
        decreases n - i,
    {
        let c = cs[i];
        let u = c as u32;
        if c == '"' {
            out.push('\\');
            out.push('"');
        } else if c == '\\' {
            out.push('\\');
            out.push('\\');
        } else if c == '\n' {
            out.push('\\');
            out.push('n');
        } else if c == '\r' {
            out.push('\\');
            out.push('r');
        } else if c == '\t' {
            out.push('\\');
            out.push('t');
        } else if c == '\u{8}' {
            out.push('\\');
            out.push('b');
        } else if c == '\u{c}' {
            out.push('\\');
            out.push('f');
        } else if u < 0x20 {
            out.push('\\');
            out.push('u');
            out.push('0');
            out.push('0');
            out.push(hex_char_of(u / 16));
            out.push(hex_char_of(u % 16));
        } else {
            out.push(c);
        }
        proof {
            lemma_esc_push(cs@.take(i as int), c);
            assert(cs@.take(i as int).push(c) =~= cs@.take(i + 1 as int));
        }
        i = i + 1;
    }
    proof {
        assert(cs@.take(n as int) =~= cs@);
    }
}

fn write_str_lit(s: &str, out: &mut Vec<char>)
    ensures
        final(out)@ == old(out)@ + seq!['"'] + esc_text(s@) + seq!['"'],
{
    out.push('"');
    write_escaped(s, out);
    out.push('"');
}

#[verifier::rlimit(60)]
fn write_val(v: &JsonValue, out: &mut Vec<char>)
    ensures
        final(out)@ == old(out)@ + ser_val(v@),
    decreases v,
{
    match v {
        JsonValue::Null => {
            out.push('n');
            out.push('u');
            out.push('l');
            out.push('l');
            proof {
                assert(old(out)@ + seq!['n'] + seq!['u'] + seq!['l'] + seq!['l'] =~= old(out)@
                    + seq!['n', 'u', 'l', 'l']);
            }
        },
        JsonValue::Bool(b) => {
            if *b {
                out.push('t');
                out.push('r');
                out.push('u');
                out.push('e');
                proof {
                    assert(old(out)@ + seq!['t'] + seq!['r'] + seq!['u'] + seq!['e'] =~= old(out)@
                        + seq!['t', 'r', 'u', 'e']);
                }
            } else {
                out.push('f');
                out.push('a');
                out.push('l');
                out.push('s');
                out.push('e');
                proof {
                    assert(old(out)@ + seq!['f'] + seq!['a'] + seq!['l'] + seq!['s'] + seq!['e']
                        =~= old(out)@ + seq!['f', 'a', 'l', 's', 'e']);
                }
            }
        },
        JsonValue::Num(t) => {
            let mut cs = str_to_chars(t.as_str());
            out.append(&mut cs);
        },
        JsonValue::Str(s) => {
            write_str_lit(s.as_str(), out);
        },
        JsonValue::Arr(items) => {
            out.push('[');
            let n = items.len();
            let mut i: usize = 0;
            #[verifier::loop_isolation(false)]
            while i < n
                invariant
                    n == items.len(),
                    i <= n,
                    out@ == old(out)@ + seq!['['] + ser_items(arr_view(items@).take(i as int)),
                decreases n - i,
            {
                if i > 0 {
                    out.push(',');
                }
                proof {
                    let iv = (*v)->Arr_0@;
                    assert(*v is Arr && (*v)->Arr_0 == *items);
                    assert(0 <= (i as int) && (i as int) < iv.len());
                    assert(decreases_to!(*v => (*v)->Arr_0));
                    assert(decreases_to!((*v)->Arr_0 => (*v)->Arr_0@));
                    assert(decreases_to!((*v)->Arr_0@ => (*v)->Arr_0@[i as int]));
                    assert((*v)->Arr_0@[i as int] == items@[i as int]);
                }
                write_val(&items[i], out);
                proof {
                    lemma_ser_items_push(arr_view(items@).take(i as int), items@[i as int]@);
                    assert(arr_view(items@).take(i as int).push(items@[i as int]@) =~= arr_view(
                        items@,
                    ).take(i + 1 as int));
                    assert(arr_view(items@).take(i as int).len() == i);
                }
                i = i + 1;
            }
            out.push(']');
            proof {
                assert(arr_view(items@).take(n as int) =~= arr_view(items@));
                assert(old(out)@ + seq!['['] + ser_items(arr_view(items@)) + seq![']'] =~= old(
                    out,
                )@ + ser_val(v@));
            }
        },
        JsonValue::Obj(fields) => {
            out.push('{');
            let n = fields.len();
            let mut i: usize = 0;
            #[verifier::loop_isolation(false)]
            while i < n
                invariant
                    n == fields.len(),
                    i <= n,
                    out@ == old(out)@ + seq!['{'] + ser_fields(obj_view(fields@).take(i as int)),
                decreases n - i,
            {
                if i > 0 {
                    out.push(',');
                }
                let f = &fields[i];
                write_str_lit(f.key.as_str(), out);
                out.push(':');
                proof {
                    let fv0 = (*v)->Obj_0@;
                    assert(*v is Obj && (*v)->Obj_0 == *fields);
                    assert(0 <= (i as int) && (i as int) < fv0.len());
                    assert(decreases_to!(*v => (*v)->Obj_0));
                    assert(decreases_to!((*v)->Obj_0 => (*v)->Obj_0@));
                    assert(decreases_to!((*v)->Obj_0@ => (*v)->Obj_0@[i as int]));
                    assert(decreases_to!((*v)->Obj_0@[i as int] => (*v)->Obj_0@[i as int].value));
                    assert((*v)->Obj_0@[i as int].value == fields@[i as int].value);
                }
                write_val(&f.value, out);
                proof {
                    let fv = JKv { k: fields@[i as int].key@, v: fields@[i as int].value@ };
                    lemma_ser_fields_push(obj_view(fields@).take(i as int), fv);
                    assert(obj_view(fields@).take(i as int).push(fv) =~= obj_view(fields@).take(
                        i + 1 as int,
                    ));
                    assert(obj_view(fields@).take(i as int).len() == i);
                    assert(ser_field(fv) =~= seq!['"'] + esc_text(fv.k) + seq!['"', ':'] + ser_val(
                        fv.v,
                    ));
                }
                i = i + 1;
            }
            out.push('}');
            proof {
                assert(obj_view(fields@).take(n as int) =~= obj_view(fields@));
                assert(old(out)@ + seq!['{'] + ser_fields(obj_view(fields@)) + seq!['}'] =~= old(
                    out,
                )@ + ser_val(v@));
            }
        },
    }
}

/// Serialize a JSON value to its canonical text.
pub fn json_to_text(v: &JsonValue) -> (r: String)
    ensures
        r@ == ser_val(v@),
{
    let mut out: Vec<char> = Vec::new();
    write_val(v, &mut out);
    chars_to_string(&out)
}

} // verus!
