//! Capture timestamps. A snapshot is stamped at normalization time with a
//! caller-supplied UTC clock reading; the library renders it, so the stored
//! text is pinned exactly.
use vstd::prelude::*;

use crate::nums::{digit_char, digit_char_of};
use crate::text::chars_to_string;

verus! {

/// A UTC clock reading, already broken into calendar fields.
#[derive(Clone, Copy, PartialEq, Eq, Structural)]
pub struct UtcTimestamp {
    pub year: u32,
    pub month: u32,
    pub day: u32,
    pub hour: u32,
    pub minute: u32,
    pub second: u32,
}

impl UtcTimestamp {
    /// The reading names a renderable calendar instant.
    pub open spec fn wf(self) -> bool {
        self.year <= 9999 && 1 <= self.month <= 12 && 1 <= self.day <= 31 && self.hour < 24
            && self.minute < 60 && self.second < 60
    }
}

/// Two zero-padded decimal digits.
pub open spec fn two_digits(n: nat) -> Seq<char> {
    seq![digit_char((n / 10) % 10), digit_char(n % 10)]
}

/// Four zero-padded decimal digits.
pub open spec fn four_digits(n: nat) -> Seq<char> {
    seq![
        digit_char((n / 1000) % 10),
        digit_char((n / 100) % 10),
        digit_char((n / 10) % 10),
        digit_char(n % 10),
    ]
}

/// The date as `YYYY-MM-DD`.
pub open spec fn date_text(t: UtcTimestamp) -> Seq<char> {
    four_digits(t.year as nat) + seq!['-'] + two_digits(t.month as nat) + seq!['-'] + two_digits(
        t.day as nat,
    )
}

/// The capture timestamp as `YYYY-MM-DD HH:MM:SS +0000`: the format every
/// stored snapshot carries. The offset is fixed because the reading is UTC.
pub open spec fn timestamp_text(t: UtcTimestamp) -> Seq<char> {
    date_text(t) + seq![' '] + two_digits(t.hour as nat) + seq![':'] + two_digits(t.minute as nat)
        + seq![':'] + two_digits(t.second as nat) + seq![' ', '+', '0', '0', '0', '0']
}

fn push_two(n: u32, out: &mut Vec<char>)
    ensures
        final(out)@ == old(out)@ + two_digits(n as nat),
{
    out.push(digit_char_of(((n / 10) % 10) as u64));
    out.push(digit_char_of((n % 10) as u64));
    proof {
        assert(old(out)@ + two_digits(n as nat) =~= old(out)@.push(
            digit_char(((n / 10) % 10) as nat),
        ).push(digit_char((n % 10) as nat)));
    }
}

fn push_four(n: u32, out: &mut Vec<char>)
    ensures
        final(out)@ == old(out)@ + four_digits(n as nat),
{
    out.push(digit_char_of(((n / 1000) % 10) as u64));
    out.push(digit_char_of(((n / 100) % 10) as u64));
    out.push(digit_char_of(((n / 10) % 10) as u64));
    out.push(digit_char_of((n % 10) as u64));
    proof {
        assert(old(out)@ + four_digits(n as nat) =~= old(out)@.push(
            digit_char(((n / 1000) % 10) as nat),
        ).push(digit_char(((n / 100) % 10) as nat)).push(digit_char(((n / 10) % 10) as nat)).push(
            digit_char((n % 10) as nat),
        ));
    }
}

/// Render the date part, `YYYY-MM-DD`.
pub fn render_date(t: &UtcTimestamp) -> (r: String)
    ensures
        r@ == date_text(*t),
{
    let mut out: Vec<char> = Vec::new();
    push_four(t.year, &mut out);
    out.push('-');
    push_two(t.month, &mut out);
    out.push('-');
    push_two(t.day, &mut out);
    proof {
        assert(out@ =~= date_text(*t));
    }
    chars_to_string(&out)
}

/// Render the full capture timestamp, `YYYY-MM-DD HH:MM:SS +0000`.
pub fn render_timestamp(t: &UtcTimestamp) -> (r: String)
    ensures
        r@ == timestamp_text(*t),
{
    let mut out: Vec<char> = Vec::new();
    push_four(t.year, &mut out);
    out.push('-');
    push_two(t.month, &mut out);
    out.push('-');
    push_two(t.day, &mut out);
    out.push(' ');
    push_two(t.hour, &mut out);
    out.push(':');
    push_two(t.minute, &mut out);
    out.push(':');
    push_two(t.second, &mut out);
    out.push(' ');
    out.push('+');
    out.push('0');
    out.push('0');
    out.push('0');
    out.push('0');
    proof {
        assert(out@ =~= timestamp_text(*t));
    }
    chars_to_string(&out)
}

} // verus!
