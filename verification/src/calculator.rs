//! The executable pipeline: separator resolution, tokenization, number
//! parsing, and fault aggregation, each stage specified against the model.

use vstd::prelude::*;
use crate::digits::is_digit;
use crate::digits::is_digit_char;
use crate::digits::digit_value;
use crate::errors::{Error, InvalidSeparator, NegativeNumber, MultipleErrorKind, errors_view, simple_fault};
use crate::model::{
    default_seps, spec_seps, spec_payload, split_tokens, all_digits, digits_val, unsigned_part,
    token_val, token_parses, any_parse_error, positives_of, negatives_of, sum_of, int_views,
    scan_invalid, Fault, spec_faults, spec_total, spec_add, lemma_collect_push,
    lemma_positives_bounds, lemma_scan_skip,
};

verus! {

/// One past the largest magnitude a token within the `i32` range may have:
/// an accumulated magnitude saturates here, marking the token out of range.
const MAG_CAP: u64 = 2147483649;

/// Is `c` one of the active separator characters?
fn is_separator(c: char, separators: &Vec<char>) -> (r: bool)
    ensures
        r == separators@.contains(c),
{
    let mut i: usize = 0;
    while i < separators.len()
        invariant
            0 <= i <= separators@.len(),
            forall|j: int| 0 <= j < i ==> separators@[j] != c,
        decreases separators@.len() - i,
    {
        if separators[i] == c {
            return true;
        }
        i += 1;
    }
    false
}

/// Split the payload into tokens on the active separators, preserving order
/// and empty tokens.
fn tokenize(input: &Vec<char>, separators: &Vec<char>) -> (toks: Vec<Vec<char>>)
    ensures
        toks.deep_view() == split_tokens(input@, separators@),
        toks@.len() >= 1,
{
    let mut toks: Vec<Vec<char>> = Vec::new();
    let mut cur: Vec<char> = Vec::new();
    let mut i: usize = 0;
    while i < input.len()
        invariant
            0 <= i <= input@.len(),
            split_tokens(input@.take(i as int), separators@) == toks.deep_view().push(cur@),
        decreases input@.len() - i,
    {
        let ghost pre = input@.take(i as int);
        let ghost rest = split_tokens(pre, separators@);
        let c = input[i];
        proof {
            assert(input@.take(i + 1).drop_last() =~= pre);
            assert(input@.take(i + 1).last() == input@[i as int]);
        }
        if is_separator(c, separators) {
            let ghost old_toks = toks.deep_view();
            toks.push(cur);
            cur = Vec::new();
            proof {
                assert(toks.deep_view() =~~= old_toks.push(rest.last()));
                assert(split_tokens(input@.take(i + 1), separators@) =~= toks.deep_view().push(
                    cur@,
                ));
            }
        } else {
            cur.push(c);
            proof {
                assert(rest.update(rest.len() - 1, rest.last().push(c)) =~= toks.deep_view().push(
                    cur@,
                ));
            }
        }
        i += 1;
    }
    proof {
        assert(input@.take(input@.len() as int) =~= input@);
    }
    let ghost old_toks = toks.deep_view();
    toks.push(cur);
    proof {
        assert(toks.deep_view() =~~= old_toks.push(cur@));
    }
    toks
}

/// Parse one token as a signed 32-bit integer: an optional `+` or `-` sign,
/// then at least one decimal digit, with the value in range. `None` when the
/// token does not parse.
fn parse_token(t: &Vec<char>) -> (r: Option<i32>)
    ensures
        r is Some <==> token_parses(t@),
        r is Some ==> r->0 as int == token_val(t@),
{
    let n = t.len();
    let mut start: usize = 0;
    let mut negative = false;
    if n > 0 && (t[0] == '+' || t[0] == '-') {
        start = 1;
        negative = t[0] == '-';
    }
    proof {
        assert(unsigned_part(t@) =~= t@.skip(start as int));
    }
    if n == start {
        return None;
    }
    let mut mag: u64 = 0;
    let mut i: usize = start;
    while i < n
        invariant
            start <= i <= n,
            n == t@.len(),
            unsigned_part(t@) == t@.skip(start as int),
            negative == (t@.len() > 0 && t@[0] == '-'),
            all_digits(t@.subrange(start as int, i as int)),
            ({
                let dv = digits_val(t@.subrange(start as int, i as int));
                if dv >= MAG_CAP { mag == MAG_CAP } else { mag as int == dv }
            }),
            mag <= MAG_CAP,
        decreases n - i,
    {
        let c = t[i];
        if !is_digit_char(c) {
            proof {
                assert(unsigned_part(t@) =~= t@.skip(start as int));
                assert(t@.skip(start as int)[i - start] == t@[i as int]);
            }
            return None;
        }
        let d = digit_value(c);
        let ghost pre = t@.subrange(start as int, i as int);
        proof {
            assert(t@.subrange(start as int, i + 1).drop_last() =~= pre);
            assert(t@.subrange(start as int, i + 1).last() == t@[i as int]);
        }
        let m2 = mag * 10 + d;
        if m2 > MAG_CAP {
            mag = MAG_CAP;
        } else {
            mag = m2;
        }
        i += 1;
    }
    proof {
        assert(t@.subrange(start as int, n as int) =~= unsigned_part(t@));
    }
    let ghost dv = digits_val(unsigned_part(t@));
    if negative {
        if mag <= 2147483648u64 {
            let v = -(mag as i64);
            Some(v as i32)
        } else {
            proof {
                assert(dv > 2147483648);
            }
            None
        }
    } else {
        if mag <= 2147483647u64 {
            Some(mag as i32)
        } else {
            proof {
                assert(dv > 2147483647);
            }
            None
        }
    }
}

/// Does the token list end in an empty token (the trailing-separator fault)?
fn contains_trailing_separator(numbers: &Vec<Vec<char>>) -> (r: bool)
    requires
        numbers@.len() > 0,
    ensures
        r == (numbers.deep_view().last().len() == 0),
{
    numbers[numbers.len() - 1].len() == 0
}

/// Locate the first character of the payload that is neither a digit nor the
/// expected separator, with its 1-based position, packaged as the payload of
/// the invalid-separator fault; when every character is clean, the separator
/// itself at one past the end.
fn get_invalid_character_and_position(input: &Vec<char>, separator: char) -> (r: InvalidSeparator)
    requires
        input@.len() < usize::MAX,
    ensures
        r.expected == separator,
        r.actual == scan_invalid(input@, separator).0,
        r.position as int == scan_invalid(input@, separator).1,
{
    let n = input.len();
    let mut i: usize = 0;
    while i < n
        invariant
            0 <= i <= n,
            n == input@.len(),
            n < usize::MAX,
            forall|j: int| 0 <= j < i ==> is_digit(#[trigger] input@[j]) || input@[j] == separator,
        decreases n - i,
    {
        let c = input[i];
        if !is_digit_char(c) && c != separator {
            proof {
                lemma_scan_skip(input@, separator, i as int);
                assert(input@.skip(i as int)[0] == input@[i as int]);
            }
            return InvalidSeparator { expected: separator, actual: c, position: i + 1 };
        }
        i += 1;
    }
    proof {
        lemma_scan_skip(input@, separator, n as int);
        assert(input@.skip(n as int) =~= Seq::<char>::empty());
    }
    InvalidSeparator { expected: separator, actual: separator, position: n + 1 }
}

/// Parse every token of the payload, collecting non-negative and negative
/// values separately. A token that fails to parse contributes a zero to the
/// non-negative list — the least side effect — so that negative numbers can
/// still be collected; the parse as a whole stands (`Some`) only when there
/// was no failure, or a negative number was found besides it.
fn parse_numbers(input: &Vec<char>, separators: &Vec<char>) -> (r: Option<(Vec<i32>, Vec<i32>)>)
    ensures
        ({
            let toks = split_tokens(input@, separators@);
            &&& (r is Some <==> (!any_parse_error(toks) || negatives_of(toks).len() > 0))
            &&& (r matches Some(p) ==> int_views(p.0@) == positives_of(toks) && int_views(p.1@)
                == negatives_of(toks))
        }),
{
    let toks = tokenize(input, separators);
    let ghost tv = toks.deep_view();
    let mut positive_numbers: Vec<i32> = Vec::new();
    let mut negative_numbers: Vec<i32> = Vec::new();
    let mut has_error = false;
    let mut i: usize = 0;
    while i < toks.len()
        invariant
            0 <= i <= toks@.len(),
            tv == toks.deep_view(),
            tv == split_tokens(input@, separators@),
            tv.len() == toks@.len(),
            int_views(positive_numbers@) == positives_of(tv.take(i as int)),
            int_views(negative_numbers@) == negatives_of(tv.take(i as int)),
            has_error == any_parse_error(tv.take(i as int)),
        decreases toks@.len() - i,
    {
        let ghost pre = tv.take(i as int);
        proof {
            assert(tv[i as int] == toks@[i as int].deep_view());
            assert(toks@[i as int].deep_view() =~= toks@[i as int]@);
            assert(tv.take(i + 1) =~= pre.push(tv[i as int]));
            lemma_collect_push(pre, tv[i as int]);
        }
        let ghost old_pos = positive_numbers@;
        let ghost old_neg = negative_numbers@;
        let num = match parse_token(&toks[i]) {
            Some(v) => v,
            None => {
                has_error = true;
                0
            },
        };
        if num < 0 {
            negative_numbers.push(num);
            proof {
                assert(int_views(negative_numbers@) =~= int_views(old_neg).push(num as int));
            }
        } else {
            positive_numbers.push(num);
            proof {
                assert(int_views(positive_numbers@) =~= int_views(old_pos).push(num as int));
            }
        }
        i += 1;
    }
    proof {
        assert(tv.take(tv.len() as int) =~= tv);
    }
    if !has_error || negative_numbers.len() > 0 {
        Some((positive_numbers, negative_numbers))
    } else {
        None
    }
}

/// Run the fault-detection pipeline over a payload under the active
/// separators: the trailing-separator check first (it wins outright and
/// short-circuits numeric evaluation), then number parsing, the
/// invalid-separator scan with its default-separator rescue of the negative
/// scan, and the negative-number policy check. Returns the total alongside
/// the faults, in detection order; the total is meaningful only when no
/// fault was detected.
fn parse_and_sum(input: &Vec<char>, separators: &Vec<char>) -> (r: (i128, MultipleErrorKind))
    requires
        separators@.len() >= 1,
        input@.len() < usize::MAX,
    ensures
        errors_view(r.1) == spec_faults(input@, separators@),
        forall|i: int| 0 <= i < r.1.errors@.len() ==> !(#[trigger] r.1.errors@[i] is Multiple),
        r.0 as int == spec_total(input@, separators@),
        r.0 >= 0,
{
    let ghost toks = split_tokens(input@, separators@);
    let numbers = tokenize(input, separators);
    let mut errors: Vec<Error> = Vec::new();
    if contains_trailing_separator(&numbers) {
        errors.push(Error::TrailingSeparator);
        let multi_error = MultipleErrorKind { errors };
        proof {
            assert(errors_view(multi_error) =~= seq![Fault::TrailingSeparator]);
        }
        return (0, multi_error);
    }
    let mut negative_numbers: Vec<i32> = Vec::new();
    let mut total: i128 = 0;
    match parse_numbers(input, separators) {
        Some(nums) => {
            let (pos_nums, neg_nums) = nums;
            negative_numbers = neg_nums;
            proof {
                lemma_positives_bounds(toks);
            }
            let ghost pvals = positives_of(toks);
            let mut k: usize = 0;
            while k < pos_nums.len()
                invariant
                    0 <= k <= pos_nums@.len(),
                    int_views(pos_nums@) == pvals,
                    forall|j: int| 0 <= j < pvals.len() ==> 0 <= #[trigger] pvals[j]
                        <= i32::MAX as int,
                    0 <= total,
                    total as int == sum_of(pvals.take(k as int)),
                    total as int <= k as int * (i32::MAX as int),
                decreases pos_nums@.len() - k,
            {
                proof {
                    assert(pvals.take(k + 1).drop_last() =~= pvals.take(k as int));
                    assert(pvals[k as int] == pos_nums@[k as int] as int);
                }
                total = total + (pos_nums[k] as i128);
                k += 1;
            }
            proof {
                assert(pvals.take(pvals.len() as int) =~= pvals);
                assert(pvals.take(pos_nums@.len() as int) =~= pvals);
                assert(errors@.len() == 0);
                assert(int_views(negative_numbers@) == negatives_of(toks));
                assert(!any_parse_error(toks) || negatives_of(toks).len() > 0);
                assert(total as int == sum_of(positives_of(toks)));
            }
        },
        None => {
            let inv = get_invalid_character_and_position(input, separators[0]);
            errors.push(Error::InvalidSeparator(inv));
            proof {
                let sc = scan_invalid(input@, separators@[0]);
                assert(errors@.len() == 1);
                assert(simple_fault(errors@[0]) == (Fault::InvalidSeparator {
                    expected: separators@[0],
                    actual: sc.0,
                    position: sc.1,
                }));
            }
            // The declared separator is presumed wrong: redo the negative
            // scan under the default separators as a best-effort recovery.
            let mut default_separators: Vec<char> = Vec::new();
            default_separators.push(',');
            default_separators.push('\n');
            proof {
                assert(default_separators@ =~= default_seps());
            }
            match parse_numbers(input, &default_separators) {
                Some(nums) => {
                    negative_numbers = nums.1;
                },
                None => {
                    proof {
                        assert(negatives_of(split_tokens(input@, default_seps()))
                            =~= int_views(negative_numbers@));
                    }
                },
            }
            proof {
                assert(int_views(negative_numbers@) == negatives_of(
                    split_tokens(input@, default_seps()),
                ));
                assert(any_parse_error(toks) && negatives_of(toks).len() == 0);
            }
        },
    }
    let ghost mid_errors = errors@;
    let ghost negs_v = int_views(negative_numbers@);
    match no_negative_numbers_or_err(negative_numbers) {
        Ok(_) => {},
        Err(e) => {
            proof {
                assert(simple_fault(e) == (Fault::NegativeNumber { numbers: negs_v }));
                assert(!(e is Multiple));
            }
            errors.push(e);
        },
    }
    let multi_error = MultipleErrorKind { errors };
    proof {
        let es = multi_error.errors@;
        assert forall|i: int| 0 <= i < es.len() implies !(#[trigger] es[i] is Multiple) by {
            if i < mid_errors.len() {
                assert(es[i] == mid_errors[i]);
            }
        }
        assert(errors_view(multi_error) =~= spec_faults(input@, separators@));
    }
    (total, multi_error)
}

/// Reject a non-empty collection of negative numbers with the fault that
/// carries them all, in order.
fn no_negative_numbers_or_err(numbers: Vec<i32>) -> (r: Result<(), Error>)
    ensures
        numbers@.len() == 0 ==> r is Ok,
        numbers@.len() > 0 ==> (r matches Err(e) && e == Error::NegativeNumber(
            NegativeNumber { numbers },
        )),
{
    if numbers.len() > 0 {
        return Err(Error::NegativeNumber(NegativeNumber { numbers }));
    }
    Ok(())
}

/// Unwrap a fault collection into the single error the caller returns: the
/// one fault alone when there is exactly one, the `Multiple` wrapper when
/// there are more.
fn return_error(multi_error: MultipleErrorKind) -> (r: Error)
    requires
        multi_error.errors@.len() >= 1,
    ensures
        multi_error.errors@.len() == 1 ==> r == multi_error.errors@[0],
        multi_error.errors@.len() > 1 ==> r == (Error::Multiple(multi_error)),
{
    if multi_error.errors.len() > 1 {
        Error::Multiple(multi_error)
    } else {
        let mut m = multi_error;
        m.errors.remove(0)
    }
}

/// Aggregate: success with the total when no fault was detected, the
/// unwrapped single fault or the `Multiple` wrapper otherwise.
fn return_ok_or_err(multi_error: MultipleErrorKind, total: i128) -> (r: Result<i32, Error>)
    requires
        multi_error.errors@.len() == 0 ==> 0 <= total <= i32::MAX as i128,
    ensures
        multi_error.errors@.len() == 0 ==> (r matches Ok(v) && v as int == total as int),
        multi_error.errors@.len() == 1 ==> (r matches Err(e) && e == multi_error.errors@[0]),
        multi_error.errors@.len() > 1 ==> (r matches Err(e) && e == Error::Multiple(multi_error)),
{
    if multi_error.errors.len() > 0 {
        Err(return_error(multi_error))
    } else {
        Ok(total as i32)
    }
}

/// Resolve the separator set. A well-formed custom-separator header (`//`,
/// one character, a newline) replaces the default separators with the one
/// declared character and is stripped from the payload; otherwise — a
/// malformed header falls back here too — the defaults stand and the payload
/// is the input unchanged.
fn get_input_and_separators(input: &Vec<char>) -> (r: (Vec<char>, Vec<char>))
    ensures
        r.0@ == spec_payload(input@),
        r.1@ == spec_seps(input@),
{
    let mut separator: Vec<char> = Vec::new();
    let start: usize;
    if input.len() >= 4 && input[0] == '/' && input[1] == '/' && input[3] == '\n' {
        separator.push(input[2]);
        start = 4;
    } else {
        separator.push(',');
        separator.push('\n');
        start = 0;
    }
    proof {
        assert(separator@ =~= spec_seps(input@));
    }
    let mut payload: Vec<char> = Vec::new();
    let mut i: usize = start;
    while i < input.len()
        invariant
            start <= i <= input@.len(),
            payload@ == input@.subrange(start as int, i as int),
        decreases input@.len() - i,
    {
        let c = input[i];
        payload.push(c);
        proof {
            assert(input@.subrange(start as int, i + 1) =~= input@.subrange(
                start as int,
                i as int,
            ).push(input@[i as int]));
        }
        i += 1;
    }
    proof {
        assert(input@.subrange(start as int, input@.len() as int) =~= spec_payload(input@));
    }
    (payload, separator)
}

/// The calculator's entry point: parse a delimited string of integers and
/// sum them, reporting every fault detected instead of failing fast on the
/// first.
///
/// The two preconditions are machine limits only: the character count must
/// fit the machine, and a total beyond `i32::MAX` cannot be returned in an
/// `i32` (the model total is never negative). Everything else the contract
/// pins down exactly: the result is `spec_add` of the input, total for
/// total, fault for fault — in particular, parsing the same string twice
/// always yields the same result.
pub fn add(arg: &str) -> (r: Result<i32, Error>)
    requires
        arg@.len() < usize::MAX,
        spec_add(arg@) matches Ok(t) ==> t <= i32::MAX as int,
    ensures
        spec_add(arg@) matches Ok(t) ==> (r matches Ok(v) && v as int == t),
        spec_add(arg@) matches Err(f) ==> (r matches Err(e) && e@ == f),
{
    if arg.is_empty() {
        return Ok(0);
    }
    let n = arg.unicode_len();
    let mut chars: Vec<char> = Vec::new();
    let mut i: usize = 0;
    while i < n
        invariant
            0 <= i <= n,
            n == arg@.len(),
            chars@ == arg@.take(i as int),
        decreases n - i,
    {
        let c = arg.get_char(i);
        chars.push(c);
        proof {
            assert(arg@.take(i + 1) =~= arg@.take(i as int).push(arg@[i as int]));
        }
        i += 1;
    }
    proof {
        assert(arg@.take(n as int) =~= arg@);
    }
    let (input, separators) = get_input_and_separators(&chars);
    let (total, error_list) = parse_and_sum(&input, &separators);
    proof {
        let faults = spec_faults(spec_payload(arg@), spec_seps(arg@));
        assert(errors_view(error_list).len() == error_list.errors@.len());
        if faults.len() == 1 {
            assert(error_list.errors@[0]@ == faults[0]);
        }
    }
    return_ok_or_err(error_list, total)
}

} // verus!
