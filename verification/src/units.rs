//! Human-readable formatting of byte counts and durations.
use vstd::prelude::*;
use vstd::string::*;

verus! {

/// The character for a single decimal digit.
pub open spec fn digit_char(d: nat) -> char {
    if d == 0 {
        '0'
    } else if d == 1 {
        '1'
    } else if d == 2 {
        '2'
    } else if d == 3 {
        '3'
    } else if d == 4 {
        '4'
    } else if d == 5 {
        '5'
    } else if d == 6 {
        '6'
    } else if d == 7 {
        '7'
    } else if d == 8 {
        '8'
    } else {
        '9'
    }
}

/// The decimal digits of `n`, most significant first, with no sign and no
/// leading zeros (a lone `0` for zero).
pub open spec fn dec_digits(n: nat) -> Seq<char>
    decreases n,
{
    if n < 10 {
        seq![digit_char(n)]
    } else {
        dec_digits(n / 10) + seq![digit_char(n % 10)]
    }
}

/// `n` space characters.
pub open spec fn spaces(n: nat) -> Seq<char> {
    Seq::new(n, |i: int| ' ')
}

/// `s` right-aligned in a field of `width` characters; `s` unchanged when it
/// is already at least that wide.
pub open spec fn pad_left(s: Seq<char>, width: nat) -> Seq<char> {
    if s.len() >= width {
        s
    } else {
        spaces((width - s.len()) as nat) + s
    }
}

/// The one-character string for a single decimal digit.
fn digit_str(d: u8) -> (s: &'static str)
    requires
        d < 10,
    ensures
        s@ == seq![digit_char(d as nat)],
{
    proof {
        reveal_strlit("0");
        reveal_strlit("1");
        reveal_strlit("2");
        reveal_strlit("3");
        reveal_strlit("4");
        reveal_strlit("5");
        reveal_strlit("6");
        reveal_strlit("7");
        reveal_strlit("8");
        reveal_strlit("9");
    }
    let s = if d == 0 {
        "0"
    } else if d == 1 {
        "1"
    } else if d == 2 {
        "2"
    } else if d == 3 {
        "3"
    } else if d == 4 {
        "4"
    } else if d == 5 {
        "5"
    } else if d == 6 {
        "6"
    } else if d == 7 {
        "7"
    } else if d == 8 {
        "8"
    } else {
        "9"
    };
    proof {
        assert(s@ =~= seq![digit_char(d as nat)]);
    }
    s
}

/// Appends the decimal digits of `n` to `out`.
fn push_dec(n: u128, out: &mut String)
    ensures
        final(out)@ == old(out)@ + dec_digits(n as nat),
    decreases n,
{
    if n >= 10 {
        push_dec(n / 10, out);
    }
    let ghost mid = out@;
    let d: u8 = (n % 10) as u8;
    out.append(digit_str(d));
    proof {
        if n < 10 {
            assert(n as nat % 10 == n as nat);
            assert(final(out)@ =~= old(out)@ + dec_digits(n as nat));
        } else {
            assert(mid == old(out)@ + dec_digits(n as nat / 10));
            assert(dec_digits(n as nat) == dec_digits(n as nat / 10) + seq![
                digit_char(n as nat % 10),
            ]);
            assert(final(out)@ =~= old(out)@ + dec_digits(n as nat));
        }
    }
}

/// The decimal representation of `n` as a fresh string.
pub fn dec_string(n: u128) -> (s: String)
    ensures
        s@ == dec_digits(n as nat),
{
    let mut out = String::new();
    push_dec(n, &mut out);
    proof {
        assert(out@ =~= dec_digits(n as nat));
    }
    out
}

/// `s` right-aligned in a field of `width` space characters.
pub fn pad_string(s: &str, width: usize) -> (r: String)
    ensures
        r@ == pad_left(s@, width as nat),
{
    let len = s.unicode_len();
    let mut out = String::new();
    if len < width {
        let pad = width - len;
        let mut i: usize = 0;
        while i < pad
            invariant
                i <= pad,
                out@ == spaces(i as nat),
            decreases pad - i,
        {
            out.append(" ");
            proof {
                reveal_strlit(" ");
                assert(spaces((i + 1) as nat) =~= spaces(i as nat) + " "@);
            }
            i += 1;
        }
    }
    out.append(s);
    proof {
        if len >= width {
            assert(out@ =~= s@);
        }
    }
    out
}

/// Days, hours, minutes and seconds of a total second count.
pub open spec fn spec_dhms(sec: nat) -> (nat, nat, nat, nat) {
    (sec / 60 / 60 / 24, (sec / 60 / 60) % 24, (sec / 60) % 60, sec % 60)
}

/// Decomposes a total amount of seconds into days, hours, minutes and
/// seconds. The parts always recompose exactly: `d*86400 + h*3600 + m*60 + s
/// == sec`, with hours below 24 and minutes and seconds below 60.
pub fn format_dhms(sec: u64) -> (r: (u64, u8, u8, u8))
    ensures
        r.0 * 86400 + r.1 * 3600 + r.2 * 60 + r.3 == sec,
        r.1 < 24,
        r.2 < 60,
        r.3 < 60,
        (r.0 as nat, r.1 as nat, r.2 as nat, r.3 as nat) == spec_dhms(sec as nat),
{
    let s: u8 = (sec % 60) as u8;
    let mins: u64 = sec / 60;
    let m: u8 = (mins % 60) as u8;
    let hours: u64 = mins / 60;
    let h: u8 = (hours % 24) as u8;
    let d: u64 = hours / 24;
    proof {
        vstd::arithmetic::div_mod::lemma_fundamental_div_mod(sec as int, 60);
        vstd::arithmetic::div_mod::lemma_fundamental_div_mod(mins as int, 60);
        vstd::arithmetic::div_mod::lemma_fundamental_div_mod(hours as int, 24);
    }
    (d, h, m, s)
}

/// The rendering of a duration: seconds alone while under a minute, then
/// minutes and seconds, then hours, then days, each component right-aligned
/// (two columns; three for days).
pub open spec fn spec_time_suffix(secs: nat) -> Seq<char> {
    let d = secs / 60 / 60 / 24;
    let h = (secs / 60 / 60) % 24;
    let m = (secs / 60) % 60;
    let s = secs % 60;
    if d == 0 && h == 0 && m == 0 {
        pad_left(dec_digits(s), 2) + "s"@
    } else if d == 0 && h == 0 {
        pad_left(dec_digits(m), 2) + "m "@ + pad_left(dec_digits(s), 2) + "s"@
    } else if d == 0 {
        pad_left(dec_digits(h), 2) + "h "@ + pad_left(dec_digits(m), 2) + "m "@ + pad_left(
            dec_digits(s),
            2,
        ) + "s"@
    } else {
        pad_left(dec_digits(d), 3) + "d "@ + pad_left(dec_digits(h), 2) + "h "@ + pad_left(
            dec_digits(m),
            2,
        ) + "m "@ + pad_left(dec_digits(s), 2) + "s"@
    }
}

/// A right-aligned decimal rendering of `n` in a field of `width` columns.
pub fn pad_dec(n: u128, width: usize) -> (r: String)
    ensures
        r@ == pad_left(dec_digits(n as nat), width as nat),
{
    let digits = dec_string(n);
    pad_string(digits.as_str(), width)
}

/// Renders a duration in seconds with unit-of-time suffixes, suppressing the
/// most significant components while they are zero.
pub fn time_suffix(secs: u64) -> (r: String)
    ensures
        r@ == spec_time_suffix(secs as nat),
{
    let (d, h, m, s) = format_dhms(secs);
    let mut out: String;
    if d == 0 && h == 0 && m == 0 {
        out = pad_dec(s as u128, 2);
        out.append("s");
    } else if d == 0 && h == 0 {
        out = pad_dec(m as u128, 2);
        out.append("m ");
        let sp = pad_dec(s as u128, 2);
        out.append(sp.as_str());
        out.append("s");
    } else if d == 0 {
        out = pad_dec(h as u128, 2);
        out.append("h ");
        let mp = pad_dec(m as u128, 2);
        out.append(mp.as_str());
        out.append("m ");
        let sp = pad_dec(s as u128, 2);
        out.append(sp.as_str());
        out.append("s");
    } else {
        out = pad_dec(d as u128, 3);
        out.append("d ");
        let hp = pad_dec(h as u128, 2);
        out.append(hp.as_str());
        out.append("h ");
        let mp = pad_dec(m as u128, 2);
        out.append(mp.as_str());
        out.append("m ");
        let sp = pad_dec(s as u128, 2);
        out.append(sp.as_str());
        out.append("s");
    }
    out
}

/// One kibibyte, the threshold between raw bytes and scaled units.
pub const KI: u64 = 1024;

/// One mebibyte.
pub const MI: u64 = 1024 * 1024;

/// One gibibyte.
pub const GI: u64 = 1024 * 1024 * 1024;

/// `v` scaled by `unit` in tenths, rounded half up: the integer nearest to
/// `10 * v / unit`.
pub open spec fn scaled_tenths(v: nat, unit: nat) -> nat {
    (10 * v + unit / 2) / unit
}

/// A quantity of tenths rendered with exactly one decimal place.
pub open spec fn one_decimal(tenths: nat) -> Seq<char> {
    dec_digits(tenths / 10) + seq!['.'] + seq![digit_char(tenths % 10)]
}

/// The rendering of a byte count: raw bytes below 1024 with no decimals,
/// otherwise scaled to KiB, MiB or GiB with one decimal place, plus a `/s`
/// suffix when the count is a rate.
pub open spec fn spec_size_string(v: nat, rate: bool) -> Seq<char> {
    let body = if v >= GI {
        pad_left(one_decimal(scaled_tenths(v, GI as nat)), 5) + " GiB"@
    } else if v >= MI {
        pad_left(one_decimal(scaled_tenths(v, MI as nat)), 5) + " MiB"@
    } else if v >= KI {
        pad_left(one_decimal(scaled_tenths(v, KI as nat)), 5) + " KiB"@
    } else {
        pad_left(dec_digits(v), 3) + " B"@
    };
    if rate {
        body + "/s"@
    } else {
        body
    }
}

/// A five-column right-aligned one-decimal rendering of `v / unit`.
fn scaled_decimal(v: u128, unit: u64) -> (r: String)
    requires
        1 <= unit,
        v <= u64::MAX,
    ensures
        r@ == pad_left(one_decimal(scaled_tenths(v as nat, unit as nat)), 5),
{
    let tenths: u128 = (10 * v + (unit as u128) / 2) / (unit as u128);
    let mut body = dec_string(tenths / 10);
    body.append(".");
    body.append(digit_str((tenths % 10) as u8));
    proof {
        reveal_strlit(".");
        assert(body@ =~= one_decimal(tenths as nat));
    }
    pad_string(body.as_str(), 5)
}

/// Formats a byte count with a binary unit suffix. Setting `include_suffix`
/// appends a `/s` (per second) marker for rates.
pub fn as_time_unit(size: usize, include_suffix: bool) -> (r: String)
    ensures
        r@ == spec_size_string(size as nat, include_suffix),
{
    let v = size as u128;
    let mut out: String;
    if v >= GI as u128 {
        out = scaled_decimal(v, GI);
        out.append(" GiB");
    } else if v >= MI as u128 {
        out = scaled_decimal(v, MI);
        out.append(" MiB");
    } else if v >= KI as u128 {
        out = scaled_decimal(v, KI);
        out.append(" KiB");
    } else {
        out = pad_dec(v, 3);
        out.append(" B");
    }
    if include_suffix {
        out.append("/s");
    }
    out
}

/// Every byte count falls in exactly one unit band: below 1024 it is shown as
/// raw bytes with no decimal places, from 1024 up to 1024 squared as KiB with
/// one decimal place, and analogously for MiB and GiB.
pub proof fn lemma_unit_thresholds(b: nat)
    ensures
        b < KI ==> spec_size_string(b, false) == pad_left(dec_digits(b), 3) + " B"@,
        KI <= b < MI ==> spec_size_string(b, false) == pad_left(
            one_decimal(scaled_tenths(b, KI as nat)),
            5,
        ) + " KiB"@,
        MI <= b < GI ==> spec_size_string(b, false) == pad_left(
            one_decimal(scaled_tenths(b, MI as nat)),
            5,
        ) + " MiB"@,
        GI <= b ==> spec_size_string(b, false) == pad_left(
            one_decimal(scaled_tenths(b, GI as nat)),
            5,
        ) + " GiB"@,
{
}

} // verus!
