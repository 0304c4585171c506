//! The mathematical model of the calculator: the separator grammar, the
//! tokenizer, the integer-token grammar, the fault list a given input earns,
//! and the total it sums to.
//!
//! Every executable function of the pipeline is specified against the
//! functions of this module; `spec_add` is the one-line answer to "what does
//! the calculator return on this input".

use vstd::prelude::*;
use crate::digits::{is_digit, digit_val};

verus! {

/// The default separator set: comma and newline, in that order.
pub open spec fn default_seps() -> Seq<char> {
    seq![',', '\n']
}

/// Does the input begin with a well-formed custom-separator header:
/// `//`, exactly one character, then a newline?
///
/// A string that starts with `//` but does not complete the header shape
/// (for example `//` alone, or `//;` with no newline) is not treated as a
/// header; it falls back to the default separators and is parsed whole.
pub open spec fn has_header(s: Seq<char>) -> bool {
    s.len() >= 4 && s[0] == '/' && s[1] == '/' && s[3] == '\n'
}

/// The active separator set for an input: the single declared character when
/// a header is present, the default pair otherwise. A custom declaration
/// fully replaces the defaults, never merges with them.
pub open spec fn spec_seps(s: Seq<char>) -> Seq<char> {
    if has_header(s) {
        seq![s[2]]
    } else {
        default_seps()
    }
}

/// The payload an input is parsed from: everything after the header line
/// when a header is present, the input itself otherwise.
pub open spec fn spec_payload(s: Seq<char>) -> Seq<char> {
    if has_header(s) {
        s.skip(4)
    } else {
        s
    }
}

/// Split `s` on the characters of `seps`, preserving empty tokens. The
/// result always holds at least one token: splitting the empty sequence
/// yields one empty token.
pub open spec fn split_tokens(s: Seq<char>, seps: Seq<char>) -> Seq<Seq<char>>
    decreases s.len(),
{
    if s.len() == 0 {
        seq![Seq::<char>::empty()]
    } else {
        let rest = split_tokens(s.drop_last(), seps);
        if seps.contains(s.last()) {
            rest.push(Seq::<char>::empty())
        } else {
            rest.update(rest.len() - 1, rest.last().push(s.last()))
        }
    }
}

/// Is every character of `s` a decimal digit?
pub open spec fn all_digits(s: Seq<char>) -> bool {
    forall|i: int| 0 <= i < s.len() ==> is_digit(s[i])
}

/// The value of a sequence of digit characters read in base ten
/// (meaningful only when `all_digits(s)`; the empty sequence reads as 0).
pub open spec fn digits_val(s: Seq<char>) -> int
    decreases s.len(),
{
    if s.len() == 0 {
        0
    } else {
        digits_val(s.drop_last()) * 10 + digit_val(s.last())
    }
}

/// The digits of a token, with a single leading sign stripped.
pub open spec fn unsigned_part(t: Seq<char>) -> Seq<char> {
    if t.len() > 0 && (t[0] == '+' || t[0] == '-') {
        t.drop_first()
    } else {
        t
    }
}

/// The sign a token's value carries: -1 under a leading minus, 1 otherwise.
pub open spec fn token_sign(t: Seq<char>) -> int {
    if t.len() > 0 && t[0] == '-' {
        -1
    } else {
        1
    }
}

/// The signed value a token denotes (meaningful only when it parses).
pub open spec fn token_val(t: Seq<char>) -> int {
    token_sign(t) * digits_val(unsigned_part(t))
}

/// Does a token parse as a 32-bit signed integer: an optional sign, then at
/// least one digit, and a value within the `i32` range?
pub open spec fn token_parses(t: Seq<char>) -> bool {
    &&& unsigned_part(t).len() > 0
    &&& all_digits(unsigned_part(t))
    &&& i32::MIN as int <= token_val(t) <= i32::MAX as int
}

/// Does any token of the list fail to parse?
pub open spec fn any_parse_error(toks: Seq<Seq<char>>) -> bool {
    exists|i: int| 0 <= i < toks.len() && !token_parses(toks[i])
}

/// The non-negative values collected from a token list, in order. A token
/// that fails to parse contributes a zero (so that evaluation can continue
/// far enough to also detect negative numbers); a negative value is skipped.
pub open spec fn positives_of(toks: Seq<Seq<char>>) -> Seq<int>
    decreases toks.len(),
{
    if toks.len() == 0 {
        Seq::empty()
    } else {
        let rest = positives_of(toks.drop_last());
        let t = toks.last();
        if !token_parses(t) {
            rest.push(0)
        } else if token_val(t) >= 0 {
            rest.push(token_val(t))
        } else {
            rest
        }
    }
}

/// The negative values collected from a token list, in order, unchanged.
pub open spec fn negatives_of(toks: Seq<Seq<char>>) -> Seq<int>
    decreases toks.len(),
{
    if toks.len() == 0 {
        Seq::empty()
    } else {
        let rest = negatives_of(toks.drop_last());
        let t = toks.last();
        if token_parses(t) && token_val(t) < 0 {
            rest.push(token_val(t))
        } else {
            rest
        }
    }
}

/// The sum of a sequence of integers.
pub open spec fn sum_of(s: Seq<int>) -> int
    decreases s.len(),
{
    if s.len() == 0 {
        0
    } else {
        sum_of(s.drop_last()) + s.last()
    }
}

/// The values of a sequence of machine integers, as mathematical integers.
pub open spec fn int_views(v: Seq<i32>) -> Seq<int> {
    v.map_values(|x: i32| x as int)
}

/// How the collected lists and the parse-error flag grow when one token is
/// appended to a token list.
pub proof fn lemma_collect_push(toks: Seq<Seq<char>>, t: Seq<char>)
    ensures
        positives_of(toks.push(t)) == (if !token_parses(t) {
            positives_of(toks).push(0)
        } else if token_val(t) >= 0 {
            positives_of(toks).push(token_val(t))
        } else {
            positives_of(toks)
        }),
        negatives_of(toks.push(t)) == (if token_parses(t) && token_val(t) < 0 {
            negatives_of(toks).push(token_val(t))
        } else {
            negatives_of(toks)
        }),
        any_parse_error(toks.push(t)) <==> (any_parse_error(toks) || !token_parses(t)),
{
    assert(toks.push(t).drop_last() =~= toks);
    assert(toks.push(t).last() == t);
    if any_parse_error(toks) {
        let i = choose|i: int| 0 <= i < toks.len() && !token_parses(toks[i]);
        assert(!token_parses(toks.push(t)[i]));
    }
    if !token_parses(t) {
        assert(!token_parses(toks.push(t)[toks.len() as int]));
    }
    if any_parse_error(toks.push(t)) {
        let i = choose|i: int| 0 <= i < toks.push(t).len() && !token_parses(toks.push(t)[i]);
        if i < toks.len() {
            assert(!token_parses(toks[i]));
        }
    }
}

/// Every value collected into the non-negative list lies in `0..=i32::MAX`.
pub proof fn lemma_positives_bounds(toks: Seq<Seq<char>>)
    ensures
        forall|i: int| 0 <= i < positives_of(toks).len()
            ==> 0 <= #[trigger] positives_of(toks)[i] <= i32::MAX as int,
    decreases toks.len(),
{
    if toks.len() > 0 {
        lemma_positives_bounds(toks.drop_last());
        let rest = positives_of(toks.drop_last());
        let cur = positives_of(toks);
        assert forall|i: int| 0 <= i < cur.len() implies 0 <= #[trigger] cur[i] <= i32::MAX as int by {
            if i < rest.len() {
                assert(cur[i] == rest[i]);
            }
        }
    }
}

/// The first character of `s` that is neither a digit nor the expected
/// separator, with its 1-based position. When every character is a digit or
/// the separator, the separator itself is reported at position `len + 1`.
pub open spec fn scan_invalid(s: Seq<char>, sep: char) -> (char, int)
    decreases s.len(),
{
    if s.len() == 0 {
        (sep, 1)
    } else if !is_digit(s[0]) && s[0] != sep {
        (s[0], 1)
    } else {
        let r = scan_invalid(s.drop_first(), sep);
        (r.0, r.1 + 1)
    }
}

/// Scanning past a clean prefix (digit characters and the expected separator
/// only) finds the same character, shifted by the prefix length.
pub proof fn lemma_scan_skip(s: Seq<char>, sep: char, i: int)
    requires
        0 <= i <= s.len(),
        forall|j: int| 0 <= j < i ==> is_digit(#[trigger] s[j]) || s[j] == sep,
    ensures
        scan_invalid(s, sep).0 == scan_invalid(s.skip(i), sep).0,
        scan_invalid(s, sep).1 == scan_invalid(s.skip(i), sep).1 + i,
    decreases i,
{
    if i > 0 {
        let rest = s.drop_first();
        assert(rest =~= s.skip(1));
        assert(forall|j: int| 0 <= j < i - 1 ==> is_digit(#[trigger] rest[j]) || rest[j] == sep);
        lemma_scan_skip(rest, sep, i - 1);
        assert(rest.skip(i - 1) =~= s.skip(i));
    } else {
        assert(s.skip(0) =~= s);
    }
}

/// A fault, at the level of the model: what the executable error values of
/// the crate stand for.
pub enum Fault {
    /// The payload ends with an active separator.
    TrailingSeparator,
    /// A token failed to parse and no negative number explains it: the
    /// payload is taken to use the wrong separator character.
    InvalidSeparator { expected: char, actual: char, position: int },
    /// All negative values found across the whole input, in order.
    NegativeNumber { numbers: Seq<int> },
    /// Two or more of the above, in detection order.
    Multiple { faults: Seq<Fault> },
}

/// The fault list a payload earns under an active separator set, in
/// detection order.
///
/// A trailing separator wins outright and stands alone. Otherwise a failed
/// token parse with no negative numbers in sight raises an invalid-separator
/// fault, and the negative scan is redone under the default separators as a
/// best-effort recovery (the declared separator being presumed wrong); any
/// negative numbers found are reported after it.
pub open spec fn spec_faults(payload: Seq<char>, seps: Seq<char>) -> Seq<Fault> {
    let toks = split_tokens(payload, seps);
    if toks.last().len() == 0 {
        seq![Fault::TrailingSeparator]
    } else {
        let negs = negatives_of(toks);
        if any_parse_error(toks) && negs.len() == 0 {
            let sc = scan_invalid(payload, seps[0]);
            let inv = Fault::InvalidSeparator { expected: seps[0], actual: sc.0, position: sc.1 };
            let dnegs = negatives_of(split_tokens(payload, default_seps()));
            if dnegs.len() == 0 {
                seq![inv]
            } else {
                seq![inv, Fault::NegativeNumber { numbers: dnegs }]
            }
        } else if negs.len() > 0 {
            seq![Fault::NegativeNumber { numbers: negs }]
        } else {
            Seq::empty()
        }
    }
}

/// The total a payload sums to under an active separator set: the sum of its
/// non-negative values. The total is meaningless (and zero) whenever a
/// trailing separator or a bare invalid-separator fault cuts evaluation
/// short; callers must not rely on it when any fault is present.
pub open spec fn spec_total(payload: Seq<char>, seps: Seq<char>) -> int {
    let toks = split_tokens(payload, seps);
    if toks.last().len() == 0 {
        0
    } else if any_parse_error(toks) && negatives_of(toks).len() == 0 {
        0
    } else {
        sum_of(positives_of(toks))
    }
}

/// What the calculator returns on an input: a total, or exactly one fault
/// (itself `Multiple` when two or more were detected).
pub open spec fn spec_add(s: Seq<char>) -> Result<int, Fault> {
    if s.len() == 0 {
        Ok(0)
    } else {
        let payload = spec_payload(s);
        let seps = spec_seps(s);
        let faults = spec_faults(payload, seps);
        if faults.len() == 0 {
            Ok(spec_total(payload, seps))
        } else if faults.len() == 1 {
            Err(faults[0])
        } else {
            Err(Fault::Multiple { faults })
        }
    }
}

} // verus!
