//! Errors of the parameter queries.

use vstd::prelude::*;
use vstd::string::StringExecFns;

verus! {

/// What a parameter query can object to.
#[derive(Debug, PartialOrd, PartialEq, Eq)]
pub enum LapackError {
    /// The selector of the query is not one of those defined.
    InvalidIspecValue { value: i32 },
    /// A name that must not be empty is empty.
    CannotBeEmpty { param: &'static str },
}

/// The character of the decimal digit `d`.
pub open spec fn digit_char(d: int) -> char {
    ('0' as int + d) as char
}

/// The decimal digits of `n`, most significant first.
pub open spec fn digits(n: nat) -> Seq<char>
    decreases n,
{
    if n < 10 {
        seq![digit_char(n as int)]
    } else {
        digits(n / 10).push(digit_char((n % 10) as int))
    }
}

/// The decimal form of `v`, with a minus sign in front of a negative number.
pub open spec fn decimal(v: int) -> Seq<char> {
    if v < 0 {
        seq!['-'] + digits((-v) as nat)
    } else {
        digits(v as nat)
    }
}

impl Clone for LapackError {
    fn clone(&self) -> (r: Self)
        ensures
            r == *self,
    {
        match self {
            LapackError::InvalidIspecValue { value } => LapackError::InvalidIspecValue {
                value: *value,
            },
            LapackError::CannotBeEmpty { param } => LapackError::CannotBeEmpty { param: *param },
        }
    }
}

impl LapackError {
    /// The text of the message.
    pub open spec fn message_spec(self) -> Seq<char> {
        match self {
            LapackError::InvalidIspecValue { value } => "Invalid ISPEC value: "@ + decimal(
                value as int,
            ),
            LapackError::CannotBeEmpty { param } => "Parameter cannot be empty: "@ + param@,
        }
    }

    /// The message that describes the error.
    pub fn message(&self) -> (r: String)
        ensures
            r@ == self.message_spec(),
    {
        match self {
            LapackError::InvalidIspecValue { value } => {
                let mut out = String::from_str("Invalid ISPEC value: ");
                push_decimal(&mut out, *value);
                out
            },
            LapackError::CannotBeEmpty { param } => {
                let mut out = String::from_str("Parameter cannot be empty: ");
                out.append(param);
                out
            },
        }
    }
}

/// The one-character string of the decimal digit `d`.
fn digit_str(d: u32) -> (r: &'static str)
    requires
        d < 10,
    ensures
        r@ == seq![digit_char(d as int)],
{
    proof {
        reveal_strlit("0");
        reveal_strlit("1");
        reveal_strlit("2");
        reveal_strlit("3");
        reveal_strlit("4");
        reveal_strlit("5");
        reveal_strlit("6");
        reveal_strlit("7");
        reveal_strlit("8");
        reveal_strlit("9");
    }
    let r = match d {
        0 => "0",
        1 => "1",
        2 => "2",
        3 => "3",
        4 => "4",
        5 => "5",
        6 => "6",
        7 => "7",
        8 => "8",
        _ => "9",
    };
    assert(r@ =~= seq![digit_char(d as int)]);
    r
}

/// Appends the decimal form of `v` to `out`.
pub fn push_decimal(out: &mut String, v: i32)
    ensures
        final(out)@ == old(out)@ + decimal(v as int),
{
    let wide: i64 = v as i64;
    if wide < 0 {
        proof {
            reveal_strlit("-");
        }
        out.append("-");
        push_digits(out, (-wide) as u32);
        assert(out@ =~= old(out)@ + decimal(v as int));
    } else {
        push_digits(out, wide as u32);
    }
}

/// Appends the decimal digits of `n` to `out`.
fn push_digits(out: &mut String, n: u32)
    ensures
        final(out)@ == old(out)@ + digits(n as nat),
    decreases n,
{
    if n >= 10 {
        push_digits(out, n / 10);
    }
    out.append(digit_str(n % 10));
    assert(out@ =~= old(out)@ + digits(n as nat));
}

} // verus!
