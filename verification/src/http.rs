//! Classification of HTTP outcomes and parsing of the advertised length.
use vstd::prelude::*;
use vstd::string::*;

verus! {

/// The typed failures a download can surface. A certificate that fails to
/// load and a status line that fails to print are deliberately not here: both
/// are swallowed by design and never fail a transfer.
#[derive(Clone, Copy, Debug, PartialEq, Eq, Structural)]
pub enum DownloadError {
    /// The server answered 404.
    NotFound,
    /// The server answered some other non-success status, carried here.
    BadStatus(u16),
    /// Reading the body failed with an error other than an interruption.
    ReadFailed,
}

/// Classifies an HTTP status code at the response boundary: success statuses
/// pass, 404 becomes `NotFound`, every other status becomes `BadStatus`
/// carrying the code. This happens exactly once per request; nothing is
/// retried at this layer.
pub fn classify_status(status: u16) -> (r: Result<(), DownloadError>)
    ensures
        200 <= status < 300 <==> r is Ok,
        status == 404 ==> r == Result::<(), DownloadError>::Err(DownloadError::NotFound),
        (!(200 <= status < 300) && status != 404) ==> r == Result::<(), DownloadError>::Err(
            DownloadError::BadStatus(status),
        ),
{
    if 200 <= status && status < 300 {
        Ok(())
    } else if status == 404 {
        Err(DownloadError::NotFound)
    } else {
        Err(DownloadError::BadStatus(status))
    }
}

/// Whether a character is a decimal digit.
pub open spec fn is_digit(c: char) -> bool {
    48 <= c as int <= 57
}

/// The numeric value of a digit character.
pub open spec fn digit_val(c: char) -> nat {
    (c as int - 48) as nat
}

/// Whether every character of `s` is a decimal digit.
pub open spec fn all_digits(s: Seq<char>) -> bool {
    forall|i: int| 0 <= i < s.len() ==> is_digit(s[i])
}

/// The numeric value of a sequence of digit characters.
pub open spec fn dec_value(s: Seq<char>) -> nat
    decreases s.len(),
{
    if s.len() == 0 {
        0
    } else {
        dec_value(s.drop_last()) * 10 + digit_val(s.last())
    }
}

/// A digit string's value only grows as digits are appended: every prefix is
/// worth at most the whole.
proof fn lemma_dec_value_prefix(s: Seq<char>, j: int)
    requires
        0 <= j <= s.len(),
    ensures
        dec_value(s.take(j)) <= dec_value(s),
    decreases s.len() - j,
{
    if j == s.len() {
        assert(s.take(j) =~= s);
    } else {
        lemma_dec_value_prefix(s, j + 1);
        assert(s.take(j + 1).drop_last() =~= s.take(j));
        assert(s.take(j + 1).last() == s[j]);
        assert(dec_value(s.take(j + 1)) == dec_value(s.take(j)) * 10 + digit_val(s[j]));
    }
}

/// Printing a number and reading it back is the identity: the decimal digits
/// of `n` are all digits, and their value is `n` again. In particular a
/// length rendered by the library parses back to itself.
pub proof fn lemma_dec_round_trip(n: nat)
    ensures
        all_digits(crate::units::dec_digits(n)),
        crate::units::dec_digits(n).len() > 0,
        dec_value(crate::units::dec_digits(n)) == n,
    decreases n,
{
    let digits = crate::units::dec_digits(n);
    if n < 10 {
        assert(digits =~= seq![crate::units::digit_char(n)]);
        assert(digits.drop_last() =~= Seq::<char>::empty());
        assert(digit_val(crate::units::digit_char(n)) == n);
        assert(digits.last() == crate::units::digit_char(n));
        assert(dec_value(Seq::<char>::empty()) == 0);
        assert(dec_value(digits) == dec_value(digits.drop_last()) * 10 + digit_val(digits.last()));
    } else {
        lemma_dec_round_trip(n / 10);
        let prefix = crate::units::dec_digits(n / 10);
        assert(digits == prefix + seq![crate::units::digit_char(n % 10)]);
        assert(digits.drop_last() =~= prefix);
        assert(digits.last() == crate::units::digit_char(n % 10));
        assert(digit_val(crate::units::digit_char(n % 10)) == n % 10);
        assert(forall|i: int| 0 <= i < digits.len() ==> is_digit(digits[i])) by {
            assert(forall|i: int| 0 <= i < prefix.len() ==> is_digit(#[trigger] digits[i]));
        }
        vstd::arithmetic::div_mod::lemma_fundamental_div_mod(n as int, 10);
    }
}

/// Parses an advertised content length: the decimal value of `s` when `s` is
/// nonempty, holds only digits, and the value fits the platform's sizes;
/// `None` otherwise.
pub fn parse_content_length(s: &str) -> (r: Option<usize>)
    ensures
        r matches Some(v) ==> s@.len() > 0 && all_digits(s@) && v == dec_value(s@),
        (s@.len() > 0 && all_digits(s@) && dec_value(s@) <= usize::MAX) ==> r is Some,
{
    let len = s.unicode_len();
    if len == 0 {
        return None;
    }
    let mut i: usize = 0;
    let mut val: usize = 0;
    while i < len
        invariant
            0 <= i <= len,
            len == s@.len(),
            all_digits(s@.take(i as int)),
            val == dec_value(s@.take(i as int)),
        decreases len - i,
    {
        let c = s.get_char(i);
        let u = c as u32;
        if u < 48 || u > 57 {
            return None;
        }
        let d = (u - 48) as usize;
        proof {
            assert(s@.take(i + 1).drop_last() =~= s@.take(i as int));
            assert(s@.take(i + 1).last() == s@[i as int]);
        }
        if val > (usize::MAX - d) / 10 {
            proof {
                vstd::arithmetic::div_mod::lemma_fundamental_div_mod(
                    usize::MAX as int - d as int,
                    10,
                );
                assert(dec_value(s@.take(i + 1)) > usize::MAX);
                if all_digits(s@) {
                    lemma_dec_value_prefix(s@, i + 1);
                }
            }
            return None;
        }
        val = val * 10 + d;
        i += 1;
    }
    proof {
        assert(s@.take(len as int) =~= s@);
    }
    Some(val)
}

} // verus!
