//! The general laws of the calculator, proved once and for all inputs over
//! the model that [`crate::calculator::add`] is specified against.

use vstd::prelude::*;
use crate::digits::is_digit;
use crate::model::{
    default_seps, has_header, spec_payload, spec_seps, split_tokens, unsigned_part, token_val,
    token_parses, any_parse_error, positives_of, negatives_of, sum_of, Fault, spec_faults,
    spec_total, spec_add,
};

verus! {

/// The empty input sums to zero; no fault is possible.
pub proof fn lemma_empty_input()
    ensures
        spec_add(Seq::empty()) == Ok::<int, Fault>(0),
{
}

/// Splitting a sequence that contains no separator character yields that
/// one sequence as the only token.
proof fn lemma_split_no_seps(s: Seq<char>, seps: Seq<char>)
    requires
        forall|i: int| 0 <= i < s.len() ==> !seps.contains(#[trigger] s[i]),
    ensures
        split_tokens(s, seps) == seq![s],
    decreases s.len(),
{
    if s.len() == 0 {
        assert(split_tokens(s, seps) =~~= seq![s]);
    } else {
        lemma_split_no_seps(s.drop_last(), seps);
        assert(split_tokens(s, seps) =~~= seq![s]);
    }
}

/// Every character of a token that parses is a digit, or a sign in front.
proof fn lemma_token_chars(t: Seq<char>)
    requires
        token_parses(t),
    ensures
        t.len() > 0,
        forall|i: int| 0 <= i < t.len() ==> is_digit(#[trigger] t[i]) || (i == 0 && (t[0] == '+'
            || t[0] == '-')),
{
    let u = unsigned_part(t);
    if t.len() > 0 && (t[0] == '+' || t[0] == '-') {
        assert(forall|i: int| 1 <= i < t.len() ==> u[i - 1] == #[trigger] t[i]);
    }
}

/// A well-formed single-token input sums to the number it spells: the result
/// is success with exactly that value. The hypotheses say only that the
/// whole input parses as one non-negative number.
pub proof fn lemma_single_number(s: Seq<char>)
    requires
        token_parses(s),
        token_val(s) >= 0,
    ensures
        spec_add(s) == Ok::<int, Fault>(token_val(s)),
{
    lemma_token_chars(s);
    assert(!has_header(s));
    assert(forall|i: int| 0 <= i < s.len() ==> !default_seps().contains(#[trigger] s[i]));
    lemma_split_no_seps(s, default_seps());
    let toks = split_tokens(s, default_seps());
    assert(toks == seq![s]);
    assert(toks.last() == s);
    assert(!any_parse_error(toks)) by {
        assert(forall|i: int| 0 <= i < toks.len() ==> token_parses(#[trigger] toks[i]));
    }
    assert(toks.drop_last() =~= Seq::<Seq<char>>::empty());
    assert(negatives_of(Seq::<Seq<char>>::empty()) =~= Seq::<int>::empty());
    assert(positives_of(Seq::<Seq<char>>::empty()) =~= Seq::<int>::empty());
    assert(negatives_of(toks) =~= Seq::<int>::empty());
    assert(positives_of(toks) =~= seq![token_val(s)]);
    assert(spec_faults(s, default_seps()) =~= Seq::<Fault>::empty());
    assert(sum_of(seq![token_val(s)].drop_last()) == 0);
    assert(spec_total(s, default_seps()) == token_val(s));
}

/// On a token list in which every token parses to a non-negative value, the
/// negative scan finds nothing and the non-negative values are exactly the
/// token values, in order.
proof fn lemma_all_non_negative(toks: Seq<Seq<char>>)
    requires
        forall|i: int| 0 <= i < toks.len() ==> token_parses(#[trigger] toks[i]) && token_val(
            toks[i],
        ) >= 0,
    ensures
        negatives_of(toks) == Seq::<int>::empty(),
        positives_of(toks) == toks.map_values(|t: Seq<char>| token_val(t)),
    decreases toks.len(),
{
    if toks.len() == 0 {
        assert(positives_of(toks) =~= toks.map_values(|t: Seq<char>| token_val(t)));
    } else {
        assert(forall|i: int| 0 <= i < toks.drop_last().len() ==> toks.drop_last()[i]
            == #[trigger] toks[i]);
        lemma_all_non_negative(toks.drop_last());
        assert(negatives_of(toks) =~= Seq::<int>::empty());
        assert(positives_of(toks) =~= toks.map_values(|t: Seq<char>| token_val(t)));
    }
}

/// A well-formed list of non-negative integers under the default separators
/// sums to the arithmetic sum of its values: the result is success with
/// exactly that total. The hypotheses say only that the input is non-empty,
/// declares no custom separator, does not end in a separator, and that every
/// token parses as a non-negative number.
pub proof fn lemma_sum_of_list(s: Seq<char>)
    requires
        s.len() > 0,
        !has_header(s),
        split_tokens(s, default_seps()).last().len() > 0,
        forall|i: int| 0 <= i < split_tokens(s, default_seps()).len() ==> token_parses(
            #[trigger] split_tokens(s, default_seps())[i],
        ) && token_val(split_tokens(s, default_seps())[i]) >= 0,
    ensures
        spec_add(s) == Ok::<int, Fault>(
            sum_of(split_tokens(s, default_seps()).map_values(|t: Seq<char>| token_val(t))),
        ),
{
    let toks = split_tokens(s, default_seps());
    lemma_all_non_negative(toks);
    assert(!any_parse_error(toks));
    assert(spec_faults(s, default_seps()) =~= Seq::<Fault>::empty());
}

/// A trailing separator wins outright: whenever the payload ends in an
/// active separator, the result is the trailing-separator fault alone —
/// custom declaration or not, and regardless of what the numbers would have
/// summed to.
pub proof fn lemma_trailing_separator(s: Seq<char>)
    requires
        s.len() > 0,
        spec_payload(s).len() > 0,
        spec_seps(s).contains(spec_payload(s).last()),
    ensures
        spec_add(s) == Err::<int, Fault>(Fault::TrailingSeparator),
{
    let payload = spec_payload(s);
    let seps = spec_seps(s);
    let toks = split_tokens(payload, seps);
    assert(toks.last().len() == 0);
    assert(spec_faults(payload, seps) =~= seq![Fault::TrailingSeparator]);
}

} // verus!
