//! The fault taxonomy as executable values: immutable value objects,
//! constructed once and never mutated, each viewed as a [`Fault`] of the
//! model.

use vstd::prelude::*;
use vstd::string::StringExecFns;
use crate::digits::{dec_str, dec_chars_i32, dec_chars_u64};
use crate::model::Fault;
use crate::model::int_views;

verus! {

/// Marker for the members of the fault taxonomy.
pub trait StringCalculatorError {}

/// A structured fault: the single error value the calculator returns.
#[derive(Debug, PartialEq)]
pub enum Error {
    /// The payload ends with an active separator.
    TrailingSeparator,
    /// A custom separator was declared but the payload uses another
    /// non-numeric character.
    InvalidSeparator(InvalidSeparator),
    /// Negative values were found; the policy forbids them.
    NegativeNumber(NegativeNumber),
    /// Two or more independent faults, in detection order.
    Multiple(MultipleErrorKind),
}

/// The payload of an invalid-separator fault: the separator that was
/// declared or defaulted, the first character found that is neither a digit
/// nor that separator, and its 1-based position in the payload.
#[derive(Clone, Debug, PartialEq)]
pub struct InvalidSeparator {
    pub expected: char,
    pub actual: char,
    pub position: usize,
}

/// The payload of a negative-number fault: all negative values found across
/// the whole input, in order, not just the first.
#[derive(Clone, Debug, PartialEq)]
pub struct NegativeNumber {
    pub numbers: Vec<i32>,
}

/// An ordered collection of faults, used only when more than one was
/// detected.
#[derive(Debug, PartialEq)]
pub struct MultipleErrorKind {
    pub errors: Vec<Error>,
}

impl StringCalculatorError for Error {}

/// The fault a single (non-`Multiple`) error stands for. The taxonomy caps
/// nesting at one level, so a `Multiple` never appears below a `Multiple`;
/// an (unconstructible) nested one is modeled with an empty fault list.
pub open spec fn simple_fault(e: Error) -> Fault {
    match e {
        Error::TrailingSeparator => Fault::TrailingSeparator,
        Error::InvalidSeparator(i) => Fault::InvalidSeparator {
            expected: i.expected,
            actual: i.actual,
            position: i.position as int,
        },
        Error::NegativeNumber(n) => Fault::NegativeNumber {
            numbers: int_views(n.numbers@),
        },
        Error::Multiple(_) => Fault::Multiple { faults: Seq::empty() },
    }
}

/// The faults a collection of (non-`Multiple`) errors stands for, in order.
pub open spec fn errors_view(m: MultipleErrorKind) -> Seq<Fault> {
    m.errors@.map_values(|e: Error| simple_fault(e))
}

impl View for Error {
    type V = Fault;

    open spec fn view(&self) -> Fault {
        match self {
            Error::Multiple(m) => Fault::Multiple { faults: errors_view(*m) },
            _ => simple_fault(*self),
        }
    }
}

/// A list of integers rendered in decimal and joined with commas.
pub open spec fn joined_dec(numbers: Seq<int>) -> Seq<char>
    decreases numbers.len(),
{
    if numbers.len() == 0 {
        Seq::empty()
    } else if numbers.len() == 1 {
        dec_str(numbers[0])
    } else {
        joined_dec(numbers.drop_last()) + seq![','] + dec_str(numbers.last())
    }
}

/// The human-readable template of an invalid-separator fault.
pub open spec fn invalid_separator_message(expected: char, actual: char, position: int) -> Seq<
    char,
> {
    seq!['\''] + seq![expected] + "' expected, but found '"@ + seq![actual] + "' at position "@
        + dec_str(position)
}

/// The human-readable template of a negative-number fault.
pub open spec fn negative_number_message(numbers: Seq<int>) -> Seq<char> {
    "Negative number(s) are not allowed: "@ + joined_dec(numbers)
}

/// The human-readable message of a fault. A `Multiple` renders as a fixed
/// summary; callers needing detail inspect its fault list programmatically.
pub open spec fn fault_message(f: Fault) -> Seq<char> {
    match f {
        Fault::TrailingSeparator => "trailing separator in input"@,
        Fault::InvalidSeparator { expected, actual, position } => invalid_separator_message(
            expected,
            actual,
            position,
        ),
        Fault::NegativeNumber { numbers } => negative_number_message(numbers),
        Fault::Multiple { .. } => "multiple errors"@,
    }
}

/// Relies on `String::push`: appends exactly the one character to the end of
/// the string.
#[verifier::external_body]
fn push_char(s: &mut String, c: char)
    ensures
        final(s)@ == old(s)@.push(c),
{
    s.push(c);
}

/// Append a sequence of characters to a string.
fn push_chars(s: &mut String, v: &Vec<char>)
    ensures
        final(s)@ == old(s)@ + v@,
{
    let mut i: usize = 0;
    while i < v.len()
        invariant
            0 <= i <= v@.len(),
            s@ == old(s)@ + v@.take(i as int),
        decreases v@.len() - i,
    {
        let c = v[i];
        push_char(s, c);
        proof {
            assert(old(s)@ + v@.take(i + 1) =~= (old(s)@ + v@.take(i as int)).push(v@[i as int]));
        }
        i += 1;
    }
    proof {
        assert(old(s)@ + v@.take(v@.len() as int) =~= old(s)@ + v@);
    }
}

impl InvalidSeparator {
    /// The fault's message: which separator was expected, what was found,
    /// and where.
    pub fn message(&self) -> (m: String)
        ensures
            m@ == invalid_separator_message(self.expected, self.actual, self.position as int),
    {
        let mut m = String::new();
        push_char(&mut m, '\'');
        push_char(&mut m, self.expected);
        m.append("' expected, but found '");
        push_char(&mut m, self.actual);
        m.append("' at position ");
        let ds = dec_chars_u64(self.position as u64);
        push_chars(&mut m, &ds);
        proof {
            assert(m@ =~= invalid_separator_message(
                self.expected,
                self.actual,
                self.position as int,
            ));
        }
        m
    }
}

impl NegativeNumber {
    /// The fault's message: every offending value, comma-joined, in order.
    pub fn message(&self) -> (m: String)
        ensures
            m@ == negative_number_message(int_views(self.numbers@)),
    {
        let ghost vals = int_views(self.numbers@);
        let mut m = String::from_str("Negative number(s) are not allowed: ");
        let ghost prefix = m@;
        let mut i: usize = 0;
        while i < self.numbers.len()
            invariant
                0 <= i <= self.numbers@.len(),
                vals == int_views(self.numbers@),
                vals.len() == self.numbers@.len(),
                forall|j: int| 0 <= j < vals.len() ==> #[trigger] vals[j]
                    == self.numbers@[j] as int,
                m@ == prefix + joined_dec(vals.take(i as int)),
            decreases self.numbers@.len() - i,
        {
            if i > 0 {
                push_char(&mut m, ',');
            }
            let n = self.numbers[i];
            let ds = dec_chars_i32(n);
            push_chars(&mut m, &ds);
            proof {
                assert(vals.take(i + 1).drop_last() =~= vals.take(i as int));
                assert(vals.take(i + 1).last() == vals[i as int]);
                if i == 0 {
                    assert(joined_dec(vals.take(1)) == dec_str(vals[0]));
                    assert(m@ =~= prefix + joined_dec(vals.take(i + 1)));
                } else {
                    assert(m@ =~= prefix + joined_dec(vals.take(i + 1)));
                }
            }
            i += 1;
        }
        proof {
            assert(vals.take(vals.len() as int) =~= vals);
            assert(prefix + joined_dec(vals) =~= negative_number_message(vals));
        }
        m
    }
}

impl Error {
    /// The fault's human-readable message, following a fixed template per
    /// fault kind.
    pub fn message(&self) -> (m: String)
        ensures
            m@ == fault_message(self@),
    {
        match self {
            Error::TrailingSeparator => String::from_str("trailing separator in input"),
            Error::InvalidSeparator(e) => e.message(),
            Error::NegativeNumber(e) => e.message(),
            Error::Multiple(_) => String::from_str("multiple errors"),
        }
    }
}

} // verus!
