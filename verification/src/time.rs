//! Decoding of the packed FAT date and time bitfields and their rendering
//! as an ISO-8601-like string.

use vstd::prelude::*;
use vstd::string::StringExecFns;

verus! {

/// A decoded FAT timestamp. The year is the 7-bit field plus 1980; month
/// and day are 1-based. The second keeps the raw 5-bit two-second tick as
/// stored, not multiplied out to seconds.
#[derive(Debug, Clone, Copy, PartialEq, Eq, Structural)]
pub struct Timestamp {
    pub year: u16,
    pub month: u8,
    pub day: u8,
    pub hour: u8,
    pub minute: u8,
    pub second: u8,
}

/// The timestamp packed into a 2-byte date field (year/month/day) and a
/// 2-byte time field (hour/minute/second tick), both little-endian.
pub open spec fn spec_decode_timestamp(date: Seq<u8>, time: Seq<u8>) -> Timestamp {
    Timestamp {
        year: (((date[1] & 0xFE) >> 1) as u16 + 1980) as u16,
        month: ((date[1] & 0x01) << 3) | ((date[0] & 0xE0) >> 5),
        day: date[0] & 0x1F,
        hour: (time[1] & 0xF8) >> 3,
        minute: ((time[1] & 0x07) << 3) | ((time[0] & 0xE0) >> 5),
        second: time[0] & 0x1F,
    }
}

/// Unpack the date and time bitfields into a [`Timestamp`].
pub fn decode_timestamp(date: [u8; 2], time: [u8; 2]) -> (ts: Timestamp)
    ensures
        ts == spec_decode_timestamp(date@, time@),
{
    Timestamp {
        year: ((date[1] & 0xFE) >> 1) as u16 + 1980,
        month: ((date[1] & 0x01) << 3) | ((date[0] & 0xE0) >> 5),
        day: date[0] & 0x1F,
        hour: (time[1] & 0xF8) >> 3,
        minute: ((time[1] & 0x07) << 3) | ((time[0] & 0xE0) >> 5),
        second: time[0] & 0x1F,
    }
}

/// The decimal digits of `n`, most significant first, no leading zeros
/// (a single `'0'` for zero).
pub open spec fn dec_digits(n: nat) -> Seq<char>
    decreases n,
{
    if n < 10 {
        seq![digit_char(n)]
    } else {
        dec_digits(n / 10).push(digit_char(n % 10))
    }
}

/// The character for one decimal digit.
pub open spec fn digit_char(d: nat) -> char
    recommends
        d < 10,
{
    if d == 0 {
        '0'
    } else if d == 1 {
        '1'
    } else if d == 2 {
        '2'
    } else if d == 3 {
        '3'
    } else if d == 4 {
        '4'
    } else if d == 5 {
        '5'
    } else if d == 6 {
        '6'
    } else if d == 7 {
        '7'
    } else if d == 8 {
        '8'
    } else {
        '9'
    }
}

/// The rendering of a timestamp: year, month and day joined by `-`, then
/// `T`, then hour, minute and second tick joined by `:`, each number in
/// decimal without zero-padding.
pub open spec fn spec_render_timestamp(ts: Timestamp) -> Seq<char> {
    dec_digits(ts.year as nat) + seq!['-'] + dec_digits(ts.month as nat) + seq!['-'] + dec_digits(
        ts.day as nat,
    ) + seq!['T'] + dec_digits(ts.hour as nat) + seq![':'] + dec_digits(ts.minute as nat)
        + seq![':'] + dec_digits(ts.second as nat)
}

/// The one-character string for a decimal digit.
fn digit_str(d: u8) -> (r: &'static str)
    requires
        d < 10,
    ensures
        r@ == seq![digit_char(d as nat)],
{
    proof {
        reveal_strlit("0");
        reveal_strlit("1");
        reveal_strlit("2");
        reveal_strlit("3");
        reveal_strlit("4");
        reveal_strlit("5");
        reveal_strlit("6");
        reveal_strlit("7");
        reveal_strlit("8");
        reveal_strlit("9");
    }
    let r = if d == 0 {
        "0"
    } else if d == 1 {
        "1"
    } else if d == 2 {
        "2"
    } else if d == 3 {
        "3"
    } else if d == 4 {
        "4"
    } else if d == 5 {
        "5"
    } else if d == 6 {
        "6"
    } else if d == 7 {
        "7"
    } else if d == 8 {
        "8"
    } else {
        "9"
    };
    proof {
        assert(r@ =~= seq![digit_char(d as nat)]);
    }
    r
}

/// Append the decimal rendering of `n` to `s`.
fn push_decimal(s: &mut String, n: u16)
    ensures
        final(s)@ == old(s)@ + dec_digits(n as nat),
    decreases n,
{
    if n < 10 {
        s.append(digit_str(n as u8));
    } else {
        assert(n / 10 < n);
        assert((n / 10) as nat == (n as nat) / 10);
        assert((n % 10) as nat == (n as nat) % 10);
        push_decimal(s, n / 10);
        s.append(digit_str((n % 10) as u8));
        proof {
            assert(old(s)@ + dec_digits((n as nat) / 10) + seq![digit_char((n as nat) % 10)]
                =~= old(s)@ + dec_digits(n as nat));
        }
    }
}

/// Render the packed date and time fields as an ISO-8601-like string:
/// `year-month-dayThour:minute:second`, each number in decimal without
/// zero-padding, the second being the raw two-second tick.
pub fn datetime(date: [u8; 2], time: [u8; 2]) -> (r: String)
    ensures
        r@ == spec_render_timestamp(spec_decode_timestamp(date@, time@)),
{
    let ts = decode_timestamp(date, time);
    let mut s = String::new();
    push_decimal(&mut s, ts.year);
    s.append("-");
    push_decimal(&mut s, ts.month as u16);
    s.append("-");
    push_decimal(&mut s, ts.day as u16);
    s.append("T");
    push_decimal(&mut s, ts.hour as u16);
    s.append(":");
    push_decimal(&mut s, ts.minute as u16);
    s.append(":");
    push_decimal(&mut s, ts.second as u16);
    proof {
        reveal_strlit("-");
        reveal_strlit("T");
        reveal_strlit(":");
        assert("-"@ =~= seq!['-']);
        assert("T"@ =~= seq!['T']);
        assert(":"@ =~= seq![':']);
        assert(s@ =~= spec_render_timestamp(ts));
    }
    s
}

} // verus!
