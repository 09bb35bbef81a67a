//! Resolution of the listen port from the `PORT` environment text.
//!
//! The port is the decimal value of the text when one is present, and
//! 8080 otherwise. Parsing follows unsigned-integer syntax: an optional
//! leading `+`, then one or more decimal digits, with a value of at most
//! 65535. Anything else is rejected with the precise cause, so that the
//! host program can fail fast before opening any socket.

use vstd::prelude::*;

verus! {

/// The port used when no `PORT` text is present.
pub const DEFAULT_PORT: u16 = 8080;

/// Why a `PORT` text was rejected: it was empty, it held a character
/// that is not a decimal digit, or its value does not fit in 16 bits.
#[derive(Clone, Copy, Debug, PartialEq, Eq, Structural)]
pub enum PortError {
    Empty,
    InvalidDigit,
    TooLarge,
}

/// A decimal digit.
pub open spec fn is_digit(c: char) -> bool {
    '0' <= c && c <= '9'
}

/// The numeric value of a decimal digit.
pub open spec fn digit_value(c: char) -> int {
    c as int - '0' as int
}

/// Every character of the sequence is a decimal digit.
pub open spec fn all_digits(s: Seq<char>) -> bool {
    forall|i: int| 0 <= i < s.len() ==> is_digit(#[trigger] s[i])
}

/// The value of a sequence of decimal digits, most significant first.
pub open spec fn dec_value(s: Seq<char>) -> int
    decreases s.len(),
{
    if s.len() == 0 {
        0
    } else {
        dec_value(s.drop_last()) * 10 + digit_value(s.last())
    }
}

/// The digits of a port text: what follows an optional leading `+`.
pub open spec fn digits_part(s: Seq<char>) -> Seq<char> {
    if s.len() > 0 && s[0] == '+' {
        s.skip(1)
    } else {
        s
    }
}

/// A port text is valid when its digits are non-empty, all decimal,
/// and denote a value of at most 65535.
pub open spec fn is_valid_port_text(s: Seq<char>) -> bool {
    &&& digits_part(s).len() > 0
    &&& all_digits(digits_part(s))
    &&& dec_value(digits_part(s)) <= 65535
}

/// What parsing a port text returns: on a valid text exactly its value,
/// and otherwise the error that names the cause.
pub open spec fn port_parse_result(s: Seq<char>, r: Result<u16, PortError>) -> bool {
    match r {
        Ok(p) => is_valid_port_text(s) && p == dec_value(digits_part(s)),
        Err(PortError::Empty) => s.len() == 0,
        Err(PortError::InvalidDigit) => s.len() > 0 && (digits_part(s).len() == 0
            || !all_digits(digits_part(s))),
        Err(PortError::TooLarge) => digits_part(s).len() > 0 && all_digits(digits_part(s))
            && dec_value(digits_part(s)) > 65535,
    }
}

/// A sequence of digits has a non-negative value.
proof fn lemma_dec_value_nonneg(s: Seq<char>)
    requires
        all_digits(s),
    ensures
        dec_value(s) >= 0,
    decreases s.len(),
{
    if s.len() > 0 {
        assert(all_digits(s.drop_last()));
        lemma_dec_value_nonneg(s.drop_last());
    }
}

/// The value of a prefix of a digit sequence is at most the value of
/// the whole: appending digits never shrinks the value.
proof fn lemma_dec_value_take_le(s: Seq<char>, k: int)
    requires
        all_digits(s),
        0 <= k <= s.len(),
    ensures
        dec_value(s.take(k)) <= dec_value(s),
    decreases s.len() - k,
{
    if k == s.len() {
        assert(s.take(k) =~= s);
    } else {
        assert(s.take(k + 1).drop_last() =~= s.take(k));
        assert(all_digits(s.take(k)));
        lemma_dec_value_nonneg(s.take(k));
        assert(dec_value(s.take(k)) <= dec_value(s.take(k + 1)));
        lemma_dec_value_take_le(s, k + 1);
    }
}

/// Parse a port text as an unsigned 16-bit integer: an optional leading
/// `+`, then decimal digits whose value fits in 16 bits.
pub fn parse_port(s: &str) -> (r: Result<u16, PortError>)
    ensures
        port_parse_result(s@, r),
{
    let n = s.unicode_len();
    if n == 0 {
        return Err(PortError::Empty);
    }
    let first = s.get_char(0);
    let start: usize = if first == '+' {
        1
    } else {
        0
    };
    proof {
        assert(digits_part(s@) =~= s@.skip(start as int));
    }
    if start == n {
        return Err(PortError::InvalidDigit);
    }
    let mut i: usize = start;
    while i < n
        invariant
            n == s@.len(),
            start <= i <= n,
            start < n,
            digits_part(s@) == s@.skip(start as int),
            forall|j: int| start <= j < i ==> is_digit(#[trigger] s@[j]),
        decreases n - i,
    {
        let c = s.get_char(i);
        if c < '0' || '9' < c {
            proof {
                assert(digits_part(s@)[i - start] == s@[i as int]);
            }
            return Err(PortError::InvalidDigit);
        }
        i += 1;
    }
    proof {
        assert forall|k: int| 0 <= k < digits_part(s@).len() implies is_digit(
            #[trigger] digits_part(s@)[k],
        ) by {
            assert(digits_part(s@)[k] == s@[k + start]);
        }
    }
    let mut acc: u32 = 0;
    let mut j: usize = start;
    while j < n
        invariant
            n == s@.len(),
            start <= j <= n,
            start < n,
            digits_part(s@) == s@.skip(start as int),
            all_digits(digits_part(s@)),
            acc <= 65535,
            acc as int == dec_value(s@.skip(start as int).take(j - start)),
        decreases n - j,
    {
        let c = s.get_char(j);
        proof {
            assert(digits_part(s@)[j - start] == s@[j as int]);
        }
        let d: u32 = c as u32 - 48;
        acc = acc * 10 + d;
        proof {
            let dp = s@.skip(start as int);
            let k = j - start;
            assert(dp.take(k + 1).drop_last() =~= dp.take(k));
        }
        j += 1;
        if acc > 65535 {
            proof {
                lemma_dec_value_take_le(digits_part(s@), j - start);
            }
            return Err(PortError::TooLarge);
        }
    }
    proof {
        assert(s@.skip(start as int).take(n - start) =~= s@.skip(start as int));
    }
    Ok(acc as u16)
}

/// The port the server is to use: the parsed value of the `PORT` text
/// when one is present, and the default of 8080 when none is.
pub fn resolve_port(env_value: Option<&str>) -> (r: Result<u16, PortError>)
    ensures
        match env_value {
            None => r == Ok::<u16, PortError>(DEFAULT_PORT),
            Some(s) => port_parse_result(s@, r),
        },
{
    match env_value {
        None => Ok(DEFAULT_PORT),
        Some(s) => parse_port(s),
    }
}

impl PortError {
    /// The cause in words, for the startup error message.
    pub fn message(&self) -> (r: &'static str)
        ensures
            self is Empty ==> r@ == "PORT is empty"@,
            self is InvalidDigit ==> r@ == "PORT is not a number"@,
            self is TooLarge ==> r@ == "PORT is out of range for a 16-bit port"@,
    {
        match self {
            PortError::Empty => "PORT is empty",
            PortError::InvalidDigit => "PORT is not a number",
            PortError::TooLarge => "PORT is out of range for a 16-bit port",
        }
    }
}

} // verus!
