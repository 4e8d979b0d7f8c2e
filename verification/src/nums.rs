//! Decimal text for the integer fields of the models: rendering an integer
//! to its canonical digits and reading digits back, with exact value
//! statements both ways.
use vstd::prelude::*;

use crate::json::{
    hex_char, is_digit, is_number_text, scan_digits, scan_exp, scan_frac, scan_number,
};
use crate::text::{chars_to_string, str_to_chars};

verus! {

broadcast use vstd::seq::group_seq_axioms, vstd::std_specs::vec::group_vec_axioms;

/// The decimal digit character for `d < 10`.
pub open spec fn digit_char(d: nat) -> char {
    hex_char(d)
}

/// The value of a decimal digit character.
pub open spec fn digit_val(c: char) -> nat {
    if is_digit(c) {
        (c as u32 - '0' as u32) as nat
    } else {
        0
    }
}

/// The canonical decimal digits of `n`, most significant first.
pub open spec fn digits_of(n: nat) -> Seq<char>
    decreases n,
{
    if n < 10 {
        seq![digit_char(n)]
    } else {
        digits_of(n / 10).push(digit_char(n % 10))
    }
}

/// The canonical decimal text of an integer: a minus sign for negatives.
pub open spec fn int_text(v: int) -> Seq<char> {
    if v >= 0 {
        digits_of(v as nat)
    } else {
        seq!['-'] + digits_of((-v) as nat)
    }
}

/// The value of a sequence of decimal digits, most significant first.
pub open spec fn dec_val(s: Seq<char>) -> nat
    decreases s.len(),
{
    if s.len() == 0 {
        0
    } else {
        dec_val(s.drop_last()) * 10 + digit_val(s.last())
    }
}

/// A non-empty run of decimal digits.
pub open spec fn is_dec_digits(s: Seq<char>) -> bool {
    s.len() > 0 && forall|i: int| 0 <= i < s.len() ==> is_digit(#[trigger] s[i])
}

/// An optional minus sign followed by digits.
pub open spec fn is_int_text(s: Seq<char>) -> bool {
    if s.len() > 0 && s[0] == '-' {
        is_dec_digits(s.drop_first())
    } else {
        is_dec_digits(s)
    }
}

/// The integer a decimal text denotes.
pub open spec fn int_val(s: Seq<char>) -> int {
    if s.len() > 0 && s[0] == '-' {
        -(dec_val(s.drop_first()) as int)
    } else {
        dec_val(s) as int
    }
}

// ---------------------------------------------------------------------------
// Facts about canonical digits.
// ---------------------------------------------------------------------------
pub proof fn lemma_digits_of_digits(n: nat)
    ensures
        is_dec_digits(digits_of(n)),
        n > 0 ==> digits_of(n)[0] != '0',
        n < 10 ==> digits_of(n) == seq![digit_char(n)],
    decreases n,
{
    if n < 10 {
    } else {
        lemma_digits_of_digits(n / 10);
        let d = digits_of(n / 10);
        assert(digits_of(n) == d.push(digit_char(n % 10)));
        assert(digits_of(n)[0] == d[0]);
        assert(forall|i: int|
            0 <= i < digits_of(n).len() ==> is_digit(#[trigger] digits_of(n)[i]));
    }
}

/// Rendering then reading one digit is the identity.
pub proof fn lemma_digit_val_char(d: nat)
    requires
        d < 10,
    ensures
        is_digit(digit_char(d)),
        digit_val(digit_char(d)) == d,
{
    if d == 0 {
        assert(is_digit('0') && digit_val('0') == 0);
    } else if d == 1 {
        assert(is_digit('1') && digit_val('1') == 1);
    } else if d == 2 {
        assert(is_digit('2') && digit_val('2') == 2);
    } else if d == 3 {
        assert(is_digit('3') && digit_val('3') == 3);
    } else if d == 4 {
        assert(is_digit('4') && digit_val('4') == 4);
    } else if d == 5 {
        assert(is_digit('5') && digit_val('5') == 5);
    } else if d == 6 {
        assert(is_digit('6') && digit_val('6') == 6);
    } else if d == 7 {
        assert(is_digit('7') && digit_val('7') == 7);
    } else if d == 8 {
        assert(is_digit('8') && digit_val('8') == 8);
    } else {
        assert(is_digit('9') && digit_val('9') == 9);
    }
}

pub proof fn lemma_dec_val_digits_of(n: nat)
    ensures
        dec_val(digits_of(n)) == n,
    decreases n,
{
    if n < 10 {
        lemma_digit_val_char(n);
        assert(dec_val(Seq::<char>::empty()) == 0);
        assert(digits_of(n).drop_last() =~= Seq::<char>::empty());
        assert(digits_of(n).last() == digit_char(n));
        assert(digits_of(n).len() == 1);
        assert(dec_val(digits_of(n)) == dec_val(Seq::<char>::empty()) * 10 + digit_val(
            digit_char(n),
        ));
    } else {
        lemma_dec_val_digits_of(n / 10);
        lemma_digit_val_char(n % 10);
        let d = digits_of(n / 10);
        assert(d.push(digit_char(n % 10)).drop_last() =~= d);
        assert(d.push(digit_char(n % 10)).last() == digit_char(n % 10));
        assert(dec_val(digits_of(n)) == dec_val(d) * 10 + n % 10);
    }
}

/// A run of digits is scanned to its end.
pub proof fn lemma_scan_digits_all(s: Seq<char>, i: int, e: int)
    requires
        0 <= i <= e <= s.len(),
        forall|k: int| i <= k < e ==> is_digit(#[trigger] s[k]),
        e == s.len() || !is_digit(s[e]),
    ensures
        scan_digits(s, i) == e,
    decreases e - i,
{
    if i < e {
        lemma_scan_digits_all(s, i + 1, e);
    }
}

/// Canonical digit text, with or without a minus sign, is a valid JSON
/// number token.
pub proof fn lemma_int_text_is_number(v: int)
    ensures
        is_number_text(int_text(v)),
        int_text(v).len() > 0,
        int_text(v)[0] == '-' || is_digit(int_text(v)[0]),
{
    let t = int_text(v);
    let n = if v >= 0 {
        v as nat
    } else {
        (-v) as nat
    };
    lemma_digits_of_digits(n);
    let d = digits_of(n);
    if v >= 0 {
        assert(t == d);
        if n < 10 {
            assert(d.len() == 1);
            lemma_scan_digits_all(t, 0, 1);
            if t[0] == '0' {
                assert(scan_frac(t, 1) == Some(1int));
                assert(scan_exp(t, 1) == Some(1int));
            } else {
                assert(scan_number(t, 0) == Some(1int));
            }
        } else {
            assert(t[0] != '0');
            lemma_scan_digits_all(t, 0, t.len() as int);
            assert(scan_frac(t, t.len() as int) == Some(t.len() as int));
            assert(scan_exp(t, t.len() as int) == Some(t.len() as int));
        }
    } else {
        assert(t[0] == '-');
        assert(t.drop_first() =~= d);
        assert(n > 0);
        assert(t[1] == d[0]);
        assert(is_digit(t[1]));
        assert(t[1] != '0');
        assert(forall|k: int| 1 <= k < t.len() ==> is_digit(#[trigger] t[k]));
        lemma_scan_digits_all(t, 1, t.len() as int);
        assert(scan_frac(t, t.len() as int) == Some(t.len() as int));
        assert(scan_exp(t, t.len() as int) == Some(t.len() as int));
    }
}

/// Extending a digit prefix multiplies its value by ten and adds the digit.
pub proof fn lemma_dec_val_take_step(s: Seq<char>, i: int)
    requires
        0 <= i < s.len(),
    ensures
        dec_val(s.take(i + 1)) == dec_val(s.take(i)) * 10 + digit_val(s[i]),
{
    assert(s.take(i + 1).drop_last() =~= s.take(i));
    assert(s.take(i + 1).last() == s[i]);
}

/// The value of a full digit run is at least the value of any prefix.
pub proof fn lemma_dec_val_prefix_le(s: Seq<char>, i: int)
    requires
        0 <= i <= s.len(),
    ensures
        dec_val(s.take(i)) <= dec_val(s),
    decreases s.len() - i,
{
    if i < s.len() {
        lemma_dec_val_take_step(s, i);
        lemma_dec_val_prefix_le(s, i + 1);
        assert(dec_val(s.take(i)) <= dec_val(s.take(i)) * 10 + digit_val(s[i]))
            by (nonlinear_arith);
        assert(s.take(s.len() as int) =~= s);
    } else {
        assert(s.take(i) =~= s);
    }
}

// ---------------------------------------------------------------------------
// Executable rendering and reading.
// ---------------------------------------------------------------------------
pub(crate) fn digit_char_of(d: u64) -> (c: char)
    requires
        d < 10,
    ensures
        c == digit_char(d as nat),
{
    if d == 0 {
        '0'
    } else if d == 1 {
        '1'
    } else if d == 2 {
        '2'
    } else if d == 3 {
        '3'
    } else if d == 4 {
        '4'
    } else if d == 5 {
        '5'
    } else if d == 6 {
        '6'
    } else if d == 7 {
        '7'
    } else if d == 8 {
        '8'
    } else {
        '9'
    }
}

fn push_digits(n: u64, out: &mut Vec<char>)
    ensures
        final(out)@ == old(out)@ + digits_of(n as nat),
    decreases n,
{
    if n >= 10 {
        push_digits(n / 10, out);
    }
    out.push(digit_char_of(n % 10));
    proof {
        if n < 10 {
            assert(old(out)@ + digits_of(n as nat) =~= old(out)@.push(digit_char(n as nat)));
        } else {
            assert(old(out)@ + digits_of((n / 10) as nat).push(digit_char((n % 10) as nat)) =~= (
            old(out)@ + digits_of((n / 10) as nat)).push(digit_char((n % 10) as nat)));
        }
    }
}

/// Render an unsigned integer as its canonical decimal digits.
pub fn u64_to_dec(n: u64) -> (r: String)
    ensures
        r@ == digits_of(n as nat),
{
    let mut out: Vec<char> = Vec::new();
    push_digits(n, &mut out);
    chars_to_string(&out)
}

/// Render a signed integer as its canonical decimal text.
pub fn i64_to_dec(n: i64) -> (r: String)
    ensures
        r@ == int_text(n as int),
{
    if n >= 0 {
        let r = u64_to_dec(n as u64);
        r
    } else {
        let mag: u64 = if n == i64::MIN {
            9223372036854775808u64
        } else {
            (-n) as u64
        };
        let mut out: Vec<char> = Vec::new();
        out.push('-');
        push_digits(mag, &mut out);
        proof {
            assert(seq!['-'] + digits_of(mag as nat) =~= Seq::<char>::empty().push('-')
                + digits_of(mag as nat));
        }
        chars_to_string(&out)
    }
}

/// Read an unsigned integer from the digits of `cs` starting at `from`.
/// Succeeds exactly when that region is one or more digits whose value fits.
pub(crate) fn parse_u64_from(cs: &Vec<char>, from: usize) -> (r: Option<u64>)
    requires
        from <= cs@.len(),
    ensures
        ({
            let t = cs@.skip(from as int);
            match r {
                Some(v) => is_dec_digits(t) && dec_val(t) == v as nat,
                None => !(is_dec_digits(t) && dec_val(t) <= u64::MAX as nat),
            }
        }),
{
    let n = cs.len();
    if from >= n {
        return None;
    }
    let ghost t = cs@.skip(from as int);
    let mut acc: u64 = 0;
    let mut i = from;
    while i < n
        invariant
            from <= i <= n,
            n == cs@.len(),
            t == cs@.skip(from as int),
            acc as nat == dec_val(t.take(i - from)),
            forall|k: int| 0 <= k < i - from ==> is_digit(#[trigger] t[k]),
        decreases n - i,
    {
        let c = cs[i];
        if !('0' <= c && c <= '9') {
            proof {
                assert(t[i - from] == cs@[i as int]);
                assert(!is_digit(t[i - from]));
            }
            return None;
        }
        let d: u64 = (c as u32 - 48) as u64;
        proof {
            assert(d as nat == digit_val(cs@[i as int]));
        }
        if acc > (u64::MAX - d) / 10 {
            proof {
                let pre = t.take(i - from + 1);
                lemma_dec_val_take_step(t, i - from);
                assert(t[i - from] == cs@[i as int]);
                assert(dec_val(pre) == acc as nat * 10 + d as nat);
                assert(acc as nat * 10 + d as nat > u64::MAX as nat) by (nonlinear_arith)
                    requires
                        acc > (u64::MAX - d) / 10,
                        d <= 9,
                ;
                lemma_dec_val_prefix_le(t, i - from + 1);
            }
            return None;
        }
        proof {
            assert(acc * 10 + d <= u64::MAX) by (nonlinear_arith)
                requires
                    acc <= (u64::MAX - d) / 10,
                    d <= 9,
            ;
            lemma_dec_val_take_step(t, i - from);
            assert(t[i - from] == cs@[i as int]);
        }
        acc = acc * 10 + d;
        i = i + 1;
    }
    proof {
        assert(t.take(n - from) =~= t);
    }
    Some(acc)
}

/// Read an unsigned integer from canonical decimal text.
pub fn parse_u64_dec(s: &str) -> (r: Option<u64>)
    ensures
        match r {
            Some(v) => is_dec_digits(s@) && dec_val(s@) == v as nat,
            None => !(is_dec_digits(s@) && dec_val(s@) <= u64::MAX as nat),
        },
{
    let cs = str_to_chars(s);
    proof {
        assert(cs@.skip(0) =~= s@);
    }
    parse_u64_from(&cs, 0)
}

/// Read a signed integer from decimal text with an optional minus sign.
pub fn parse_i64_dec(s: &str) -> (r: Option<i64>)
    ensures
        match r {
            Some(v) => is_int_text(s@) && int_val(s@) == v as int,
            None => !(is_int_text(s@) && i64::MIN <= int_val(s@) <= i64::MAX),
        },
{
    let cs = str_to_chars(s);
    let n = cs.len();
    if n > 0 && cs[0] == '-' {
        proof {
            assert(cs@.skip(1) =~= s@.drop_first());
        }
        match parse_u64_from(&cs, 1) {
            None => None,
            Some(mag) => {
                if mag > 9223372036854775808u64 {
                    None
                } else if mag == 9223372036854775808u64 {
                    Some(i64::MIN)
                } else {
                    Some(-(mag as i64))
                }
            },
        }
    } else {
        proof {
            assert(cs@.skip(0) =~= s@);
        }
        match parse_u64_from(&cs, 0) {
            None => None,
            Some(mag) => {
                if mag > i64::MAX as u64 {
                    None
                } else {
                    proof {
                        if s@.len() > 0 && s@[0] == '-' {
                            assert(cs@[0] == '-');
                        }
                    }
                    Some(mag as i64)
                }
            },
        }
    }
}

/// The render/read pair is exact: reading the canonical text of `v` gives
/// `v` back.
pub proof fn lemma_int_text_round_trip(v: int)
    ensures
        is_int_text(int_text(v)),
        int_val(int_text(v)) == v,
{
    let t = int_text(v);
    if v >= 0 {
        lemma_digits_of_digits(v as nat);
        lemma_dec_val_digits_of(v as nat);
        if t.len() > 0 && t[0] == '-' {
            assert(is_digit(t[0]));
            assert(false);
        }
    } else {
        lemma_digits_of_digits((-v) as nat);
        lemma_dec_val_digits_of((-v) as nat);
        assert(t[0] == '-');
        assert(t.drop_first() =~= digits_of((-v) as nat));
    }
}

} // verus!
