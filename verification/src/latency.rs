//! Latency of a record, and the line of text that records it.

use vstd::prelude::*;
use vstd::string::StringExecFns;
use crate::experiment::ExperimentID;
use crate::record::{RecordView, WSData};

verus! {

/// The latency of one record: which pattern it belongs to, and how long it
/// was under way, in nanoseconds.
#[derive(Debug, Clone, Copy, PartialEq, Eq, Structural)]
pub struct Measurement {
    pub tag: ExperimentID,
    pub latency_ns: u128,
}

/// The character of a decimal digit.
pub open spec fn digit_char(digit: nat) -> char {
    if digit == 0 {
        '0'
    } else if digit == 1 {
        '1'
    } else if digit == 2 {
        '2'
    } else if digit == 3 {
        '3'
    } else if digit == 4 {
        '4'
    } else if digit == 5 {
        '5'
    } else if digit == 6 {
        '6'
    } else if digit == 7 {
        '7'
    } else if digit == 8 {
        '8'
    } else {
        '9'
    }
}

/// The digit that a character stands for; zero for any other character.
pub open spec fn digit_value(c: char) -> nat {
    if c == '1' {
        1
    } else if c == '2' {
        2
    } else if c == '3' {
        3
    } else if c == '4' {
        4
    } else if c == '5' {
        5
    } else if c == '6' {
        6
    } else if c == '7' {
        7
    } else if c == '8' {
        8
    } else if c == '9' {
        9
    } else {
        0
    }
}

/// A number in decimal: its digits from the most significant one, without
/// leading zeros, and `0` for zero.
pub open spec fn decimal_text(n: nat) -> Seq<char>
    decreases n,
{
    if n < 10 {
        seq![digit_char(n)]
    } else {
        decimal_text(n / 10).push(digit_char(n % 10))
    }
}

/// The number that a string of digits stands for.
pub open spec fn decimal_value(text: Seq<char>) -> nat
    decreases text.len(),
{
    if text.len() == 0 {
        0
    } else {
        decimal_value(text.drop_last()) * 10 + digit_value(text.last())
    }
}

/// The latency of a record that is received at `now_ns`: the time since it
/// was stamped. There is none if the clock reads earlier than the stamp.
pub open spec fn spec_measure(record: RecordView, now_ns: u128) -> Option<Measurement> {
    if now_ns >= record.timestamp {
        Some(
            Measurement {
                tag: record.experiment_id,
                latency_ns: (now_ns - record.timestamp) as u128,
            },
        )
    } else {
        None
    }
}

/// Whether a character is a decimal digit.
pub open spec fn is_digit(c: char) -> bool {
    c == '0' || c == '1' || c == '2' || c == '3' || c == '4' || c == '5' || c == '6' || c == '7'
        || c == '8' || c == '9'
}

/// The decimal text of a number is a numeral: it has at least one
/// character, all its characters are digits, and it begins with `0` only
/// if it is `0`. Reading it gives the number back, so two latencies are
/// written alike only if they are equal.
pub proof fn lemma_decimal_text(n: nat)
    ensures
        decimal_text(n).len() >= 1,
        forall|i: int| 0 <= i < decimal_text(n).len() ==> is_digit(#[trigger] decimal_text(n)[i]),
        decimal_text(n)[0] == '0' <==> n == 0,
        decimal_value(decimal_text(n)) == n,
    decreases n,
{
    if n < 10 {
        assert(decimal_text(n).drop_last() =~= Seq::<char>::empty());
        assert(decimal_value(Seq::<char>::empty()) == 0);
    } else {
        lemma_decimal_text(n / 10);
        assert(decimal_text(n).drop_last() =~= decimal_text(n / 10));
    }
}

/// The digits of a number, or nothing for zero: what stands before the last
/// digit of ten times as much.
spec fn leading_digits(n: nat) -> Seq<char> {
    if n == 0 {
        Seq::empty()
    } else {
        decimal_text(n)
    }
}

/// A one-character string for a digit.
fn digit_str(digit: u8) -> (s: &'static str)
    requires
        digit < 10,
    ensures
        s@ == seq![digit_char(digit as nat)],
{
    proof {
        reveal_strlit("0");
        reveal_strlit("1");
        reveal_strlit("2");
        reveal_strlit("3");
        reveal_strlit("4");
        reveal_strlit("5");
        reveal_strlit("6");
        reveal_strlit("7");
        reveal_strlit("8");
        reveal_strlit("9");
    }
    match digit {
        0 => "0",
        1 => "1",
        2 => "2",
        3 => "3",
        4 => "4",
        5 => "5",
        6 => "6",
        7 => "7",
        8 => "8",
        _ => "9",
    }
}

/// A number in decimal text.
pub fn decimal(n: u128) -> (text: String)
    ensures
        text@ == decimal_text(n as nat),
{
    let mut digits: Vec<u8> = Vec::new();
    let mut rest: u128 = n;
    digits.push((rest % 10) as u8);
    rest = rest / 10;
    let ghost mut written: Seq<char> = seq![digit_char((n % 10) as nat)];
    while rest > 0
        invariant
            digits@.len() == written.len(),
            digits@.len() >= 1,
            forall|j: int|
                0 <= j < digits@.len() ==> digits@[j] < 10 && written[written.len() - 1 - j]
                    == digit_char(#[trigger] digits@[j] as nat),
            decimal_text(n as nat) == leading_digits(rest as nat) + written,
        decreases rest,
    {
        let digit = (rest % 10) as u8;
        proof {
            written = seq![digit_char(digit as nat)] + written;
        }
        digits.push(digit);
        rest = rest / 10;
    }
    let mut text = String::new();
    let mut left: usize = digits.len();
    while left > 0
        invariant
            left <= digits@.len(),
            digits@.len() == written.len(),
            forall|j: int|
                0 <= j < digits@.len() ==> digits@[j] < 10 && written[written.len() - 1 - j]
                    == digit_char(#[trigger] digits@[j] as nat),
            text@ == written.take(digits@.len() - left),
        decreases left,
    {
        left = left - 1;
        text.append(digit_str(digits[left]));
    }
    text
}

/// The latency of a record that is received at `now_ns`. `None` if the
/// clock reads earlier than the record's stamp; otherwise the difference,
/// which is never negative.
pub fn measure(record: &WSData, now_ns: u128) -> (measurement: Option<Measurement>)
    ensures
        measurement == spec_measure(record@, now_ns),
        now_ns >= record.timestamp ==> measurement is Some && measurement->0.latency_ns
            == now_ns - record.timestamp && measurement->0.tag == record.experiment_id,
        now_ns < record.timestamp ==> measurement is None,
{
    if now_ns >= record.timestamp {
        Some(Measurement { tag: record.experiment_id, latency_ns: now_ns - record.timestamp })
    } else {
        None
    }
}

impl Measurement {
    /// The place of the sink that takes the measurement: that of its tag.
    pub fn sink(&self) -> (place: usize)
        ensures
            place == self.tag.spec_index(),
            ExperimentID::spec_from_index(place) == Some(self.tag),
    {
        self.tag.index()
    }

    /// The measurement as it is written to its sink: the latency in decimal.
    pub fn line(&self) -> (text: String)
        ensures
            text@ == decimal_text(self.latency_ns as nat),
    {
        decimal(self.latency_ns)
    }
}

} // verus!
