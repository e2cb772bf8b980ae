//! What the platform's interface delivers, and how it is read.

pub mod api_types;
pub mod impls_from_json;
pub mod impls_from_openml;
pub mod json;
pub mod sharing;
pub mod web_access;

use vstd::prelude::*;
use vstd::string::StringExecFns;

verus! {

/// Whether two texts are the same.
pub fn same_text(a: &str, b: &str) -> (same: bool)
    ensures
        same == (a@ == b@),
{
    let left = String::from_str(a);
    let right = String::from_str(b);
    left == right
}

/// The character that writes the digit `d`.
pub open spec fn digit_char(d: nat) -> char {
    ('0' as nat + d) as char
}

/// The decimal notation of `n`, without leading zeros.
pub open spec fn decimal(n: nat) -> Seq<char>
    decreases n,
{
    if n < 10 {
        seq![digit_char(n)]
    } else {
        decimal(n / 10).push(digit_char(n % 10))
    }
}

/// Whether `c` is one of the ten digits.
pub open spec fn is_digit(c: char) -> bool {
    '0' <= c <= '9'
}

/// The number that a sequence of digits writes.
pub open spec fn digits_value(digits: Seq<char>) -> nat
    decreases digits.len(),
{
    if digits.len() == 0 {
        0
    } else {
        10 * digits_value(digits.drop_last()) + (digits.last() as nat - '0' as nat) as nat
    }
}

/// The digits of a number written as text: all of the text, but for a plus
/// sign that may stand in front.
pub open spec fn digits_of(text: Seq<char>) -> Seq<char> {
    if text.len() > 0 && text[0] == '+' {
        text.subrange(1, text.len() as int)
    } else {
        text
    }
}

/// Whether `text` writes a number that fits 32 bits: digits and nothing else,
/// at least one of them, after a plus sign or none.
pub open spec fn is_number(text: Seq<char>) -> bool {
    &&& digits_of(text).len() > 0
    &&& forall|i: int| 0 <= i < digits_of(text).len() ==> is_digit(#[trigger] digits_of(text)[i])
    &&& digits_value(digits_of(text)) <= u32::MAX
}

/// A longer sequence of digits writes no smaller a number.
pub proof fn lemma_digits_value_grows(digits: Seq<char>, k: int)
    requires
        0 <= k <= digits.len(),
        forall|i: int| 0 <= i < digits.len() ==> is_digit(#[trigger] digits[i]),
    ensures
        digits_value(digits.take(k)) <= digits_value(digits),
    decreases digits.len() - k,
{
    if k < digits.len() {
        lemma_digits_value_grows(digits, k + 1);
        assert(digits.take(k + 1).drop_last() =~= digits.take(k));
    } else {
        assert(digits.take(k) =~= digits);
    }
}

/// The decimal notation of `n`.
pub fn decimal_text(n: u64) -> (text: String)
    ensures
        text@ == decimal(n as nat),
{
    let mut digits: Vec<char> = Vec::new();
    let mut rest: u64 = n;
    while rest >= 10
        invariant
            decimal(n as nat) == decimal(rest as nat) + digits@.reverse(),
        decreases rest,
    {
        let digit: u8 = (rest % 10) as u8;
        let ghost before = digits@;
        let ghost was = rest;
        digits.push((48u8 + digit) as char);
        rest = rest / 10;
        proof {
            assert(decimal(was as nat) + before.reverse() =~= decimal(rest as nat)
                + digits@.reverse());
        }
    }
    let mut text = String::new();
    text.push((48u8 + rest as u8) as char);
    let mut k: usize = digits.len();
    while k > 0
        invariant
            k <= digits@.len(),
            decimal(n as nat) == decimal(rest as nat) + digits@.reverse(),
            text@ == decimal(rest as nat) + digits@.reverse().take(digits@.len() - k),
        decreases k,
    {
        k = k - 1;
        text.push(digits[k]);
        proof {
            let done = digits@.len() - k - 1;
            assert(digits@.reverse().take(done + 1) =~= digits@.reverse().take(done).push(
                digits@[k as int],
            ));
        }
    }
    text
}

/// The number that `text` writes.
pub fn number_of(text: &str) -> (n: Option<u32>)
    ensures
        n is Some <==> is_number(text@),
        n matches Some(v) ==> v == digits_value(digits_of(text@)),
{
    let len = text.unicode_len();
    let start: usize = if len > 0 && text.get_char(0) == '+' {
        1
    } else {
        0
    };
    if start == len {
        return None;
    }
    let ghost digits = digits_of(text@);
    let mut value: u32 = 0;
    let mut i: usize = start;
    while i < len
        invariant
            start <= i <= len,
            len == text@.len(),
            digits == digits_of(text@),
            digits.len() == len - start,
            forall|j: int| 0 <= j < digits.len() ==> digits[j] == text@[j + start],
            forall|j: int| 0 <= j < i - start ==> is_digit(#[trigger] digits[j]),
            value == digits_value(digits.take(i - start)),
        decreases len - i,
    {
        let c = text.get_char(i);
        proof {
            assert(digits[i - start] == c);
            assert(digits.take(i - start + 1).drop_last() =~= digits.take(i - start));
        }
        if c < '0' || c > '9' {
            return None;
        }
        let digit: u32 = c as u32 - 48;
        let grown = match value.checked_mul(10) {
            Some(tens) => tens.checked_add(digit),
            None => None,
        };
        match grown {
            Some(v) => {
                value = v;
            },
            None => {
                proof {
                    if forall|j: int| 0 <= j < digits.len() ==> is_digit(#[trigger] digits[j]) {
                        lemma_digits_value_grows(digits, i - start + 1);
                    }
                }
                return None;
            },
        }
        i = i + 1;
    }
    proof {
        assert(digits.take(i - start) =~= digits);
    }
    Some(value)
}

/// What names a task or a data set on the platform: a number, or text that writes one.
pub trait Id {
    /// The id as text.
    spec fn text(&self) -> Seq<char>;

    /// The id as text.
    fn as_string(&self) -> (text: String)
        ensures
            text@ == self.text(),
    ;

    /// The id as a number. Text that writes no number has none.
    fn as_u32(&self) -> (n: u32)
        requires
            is_number(self.text()),
        ensures
            n == digits_value(digits_of(self.text())),
    ;
}

impl Id for String {
    open spec fn text(&self) -> Seq<char> {
        self@
    }

    fn as_string(&self) -> (text: String) {
        self.clone()
    }

    fn as_u32(&self) -> (n: u32) {
        match number_of(self.as_str()) {
            Some(n) => n,
            None => 0,
        }
    }
}

impl<'a> Id for &'a str {
    open spec fn text(&self) -> Seq<char> {
        self@
    }

    fn as_string(&self) -> (text: String) {
        String::from_str(*self)
    }

    fn as_u32(&self) -> (n: u32) {
        match number_of(*self) {
            Some(n) => n,
            None => 0,
        }
    }
}

/// The digits of a number's own notation write that number.
pub proof fn lemma_decimal_is_number(n: nat)
    ensures
        decimal(n).len() > 0,
        forall|i: int| 0 <= i < decimal(n).len() ==> is_digit(#[trigger] decimal(n)[i]),
        digits_value(decimal(n)) == n,
    decreases n,
{
    if n < 10 {
        assert(digits_value(decimal(n).drop_last()) == 0);
    } else {
        lemma_decimal_is_number(n / 10);
        assert(decimal(n).drop_last() =~= decimal(n / 10));
    }
}

impl Id for u32 {
    open spec fn text(&self) -> Seq<char> {
        decimal(*self as nat)
    }

    fn as_string(&self) -> (text: String) {
        decimal_text(*self as u64)
    }

    fn as_u32(&self) -> (n: u32) {
        proof {
            lemma_decimal_is_number(*self as nat);
        }
        *self
    }
}

} // verus!
