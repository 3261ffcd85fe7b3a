//! What the handlers of the symbols decide before they act: whether they were
//! given the right number of arguments, what a timeout says, and what they
//! answer.

use vstd::prelude::*;
use vstd::string::StringExecFns;
use crate::executor::error::Error;
use crate::text::chars_of;

verus! {

/// Why a timeout that is no number is refused.
pub const INVALID_TIMEOUT: &'static str = "Invalid timeout value";

/// Accepts a call with as many arguments as are wanted; refuses any other
/// with the given message.
pub fn check_arguments(given: usize, wanted: usize, message: &str) -> (r: Result<(), Error>)
    ensures
        r is Ok == (given == wanted),
        r matches Err(e) ==> e matches Error::SymbolRegistrationError(m) && m@ == message@,
{
    if given != wanted {
        return Err(Error::SymbolRegistrationError(String::from_str(message)));
    }
    Ok(())
}

/// The value of a decimal digit.
pub open spec fn digit_of(c: char) -> Option<nat> {
    if c == '0' {
        Some(0nat)
    } else if c == '1' {
        Some(1nat)
    } else if c == '2' {
        Some(2nat)
    } else if c == '3' {
        Some(3nat)
    } else if c == '4' {
        Some(4nat)
    } else if c == '5' {
        Some(5nat)
    } else if c == '6' {
        Some(6nat)
    } else if c == '7' {
        Some(7nat)
    } else if c == '8' {
        Some(8nat)
    } else if c == '9' {
        Some(9nat)
    } else {
        None
    }
}

/// Every character is a decimal digit.
pub open spec fn all_digits(s: Seq<char>) -> bool {
    forall|i: int| 0 <= i < s.len() ==> digit_of(#[trigger] s[i]) is Some
}

/// The number that a text of decimal digits writes.
pub open spec fn number_of(s: Seq<char>) -> nat
    decreases s.len(),
{
    if s.len() == 0 {
        0
    } else {
        number_of(s.drop_last()) * 10 + match digit_of(s.last()) {
            Some(d) => d,
            None => 0,
        }
    }
}

/// A text without the plus sign that it may begin with.
pub open spec fn unsigned_text(s: Seq<char>) -> Seq<char> {
    if s.len() > 0 && s[0] == '+' {
        s.drop_first()
    } else {
        s
    }
}

/// The timeout that a text says: the text is decimal digits, one at least,
/// after an optional plus sign, and the number fits in 64 bits.
pub open spec fn timeout_of(s: Seq<char>) -> Option<u64> {
    let digits = unsigned_text(s);
    if digits.len() > 0 && all_digits(digits) && number_of(digits) <= u64::MAX {
        Some(number_of(digits) as u64)
    } else {
        None
    }
}

/// A number never shrinks as digits are appended.
pub proof fn lemma_number_grows(s: Seq<char>, i: int)
    requires
        0 <= i <= s.len(),
    ensures
        number_of(s.take(i)) <= number_of(s),
    decreases s.len() - i,
{
    if i < s.len() {
        lemma_number_grows(s, i + 1);
        assert(s.take(i + 1).drop_last() =~= s.take(i));
    } else {
        assert(s.take(i) =~= s);
    }
}

fn digit_value(c: char) -> (r: Option<u64>)
    ensures
        match r {
            Some(d) => digit_of(c) == Some(d as nat) && d < 10,
            None => digit_of(c) is None,
        },
{
    if c == '0' {
        Some(0)
    } else if c == '1' {
        Some(1)
    } else if c == '2' {
        Some(2)
    } else if c == '3' {
        Some(3)
    } else if c == '4' {
        Some(4)
    } else if c == '5' {
        Some(5)
    } else if c == '6' {
        Some(6)
    } else if c == '7' {
        Some(7)
    } else if c == '8' {
        Some(8)
    } else if c == '9' {
        Some(9)
    } else {
        None
    }
}

/// Reads a timeout in milliseconds. Refuses a text that is no number of 64
/// bits.
pub fn parse_timeout(text: &str) -> (r: Result<u64, Error>)
    ensures
        r is Ok == timeout_of(text@) is Some,
        r matches Ok(v) ==> timeout_of(text@) == Some(v),
        r matches Err(e) ==> e matches Error::SymbolRegistrationError(m) && m@ == INVALID_TIMEOUT@,
{
    let chars = chars_of(text);
    let start: usize = if chars.len() > 0 && chars[0] == '+' {
        1
    } else {
        0
    };
    let ghost digits = unsigned_text(text@);
    assert(digits =~= chars@.skip(start as int));
    if start == chars.len() {
        return Err(Error::SymbolRegistrationError(String::from_str(INVALID_TIMEOUT)));
    }
    let mut value: u64 = 0;
    let mut i: usize = start;
    assert(digits.take(0) =~= Seq::<char>::empty());
    while i < chars.len()
        invariant
            start <= i <= chars.len(),
            digits == chars@.skip(start as int),
            digits == unsigned_text(text@),
            digits.len() > 0,
            all_digits(digits.take(i - start)),
            value == number_of(digits.take(i - start)),
        decreases chars.len() - i,
    {
        let ghost done = digits.take(i - start);
        let ghost next = digits.take(i - start + 1);
        proof {
            assert(next.drop_last() =~= done);
            assert(next.last() == chars@[i as int]);
            lemma_number_grows(digits, i - start + 1);
        }
        let d = match digit_value(chars[i]) {
            Some(d) => d,
            None => {
                assert(digit_of(digits[i - start]) is None);
                return Err(Error::SymbolRegistrationError(String::from_str(INVALID_TIMEOUT)));
            },
        };
        if value > (u64::MAX - d) / 10 {
            assert(number_of(next) > u64::MAX);
            return Err(Error::SymbolRegistrationError(String::from_str(INVALID_TIMEOUT)));
        }
        value = value * 10 + d;
        assert forall|k: int| 0 <= k < next.len() implies digit_of(#[trigger] next[k]) is Some by {
            if k < done.len() {
                assert(next[k] == done[k]);
            }
        }
        i += 1;
    }
    assert(digits.take(chars.len() - start) =~= digits);
    Ok(value)
}

/// What a network request for `url` answers: a status of success and the
/// content.
pub open spec fn response_for(url: Seq<char>) -> Seq<char> {
    "{\"s\":200,\"b\":\"Content from "@ + url + "\"}"@
}

/// The answer to a network request for `url`.
pub fn network_response(url: &str) -> (r: String)
    ensures
        r@ == response_for(url@),
{
    let mut out = String::from_str("{\"s\":200,\"b\":\"Content from ");
    out.append(url);
    out.append("\"}");
    out
}

} // verus!
