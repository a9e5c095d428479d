//! What holds of the check digits of a CPF: which strings they accept, and
//! which changes of a digit they detect.

use crate::text::{all_digits, digit_value, is_digit};
use crate::validation::{
    all_same, cpf_first_check, cpf_second_check, cpf_valid, descending_weights, weighted_sum,
};
use vstd::prelude::*;

verus! {

/// A weighted sum reads only the digits and weights that it adds up.
pub proof fn lemma_weighted_sum_reads_prefix(
    s: Seq<char>,
    t: Seq<char>,
    weights: Seq<int>,
    n: nat,
)
    requires
        forall|i: int| 0 <= i < n ==> s[i] == t[i],
    ensures
        weighted_sum(s, weights, n) == weighted_sum(t, weights, n),
    decreases n,
{
    if n > 0 {
        lemma_weighted_sum_reads_prefix(s, t, weights, (n - 1) as nat);
    }
}

/// The character that writes a digit value.
pub open spec fn digit_char(value: int) -> char {
    (value + 48) as char
}

/// Nine digits followed by the two check digits that they call for.
pub open spec fn with_cpf_check_digits(base: Seq<char>) -> Seq<char> {
    let first = base.push(digit_char(cpf_first_check(base)));
    first.push(digit_char(cpf_second_check(first)))
}

/// Completing nine digits with their check digits gives a valid CPF,
/// unless all eleven digits come out the same.
pub proof fn lemma_completed_cpf_is_valid(base: Seq<char>)
    requires
        base.len() == 9,
        all_digits(base),
        !all_same(with_cpf_check_digits(base)),
    ensures
        with_cpf_check_digits(base).len() == 11,
        all_digits(with_cpf_check_digits(base)),
        cpf_valid(with_cpf_check_digits(base)),
{
    let first = base.push(digit_char(cpf_first_check(base)));
    let full = with_cpf_check_digits(base);
    lemma_weighted_sum_reads_prefix(full, base, descending_weights(10), 9);
    lemma_weighted_sum_reads_prefix(full, first, descending_weights(11), 10);
    assert(full[9] == digit_char(cpf_first_check(base)));
    assert(full[10] == digit_char(cpf_second_check(first)));
    assert forall|i: int| 0 <= i < full.len() implies is_digit(#[trigger] full[i]) by {
        if i < 9 {
            assert(full[i] == base[i]);
        }
    }
}

/// An identifier whose eleven digits are all the same is no valid CPF,
/// whatever its check digits.
pub proof fn lemma_repeated_digit_is_invalid(s: Seq<char>)
    requires
        s.len() == 11,
        all_same(s),
    ensures
        !cpf_valid(s),
{
}

/// The remainder that the first check digit of a CPF is taken from.
pub open spec fn cpf_first_remainder(s: Seq<char>) -> int {
    weighted_sum(s, descending_weights(10), 9) % 11
}

/// The remainder that the second check digit of a CPF is taken from.
pub open spec fn cpf_second_remainder(s: Seq<char>) -> int {
    weighted_sum(s, descending_weights(11), 10) % 11
}

/// Replacing the digit at `k` by `c` is a change that the check digits
/// cannot see. The remainders 0 and 1 both call for the check digit 0, so
/// a change that moves a remainder from one to the other leaves the check
/// digit as it was; and the first digit has the weight 11 in the second
/// sum, so it does not move the second remainder at all.
pub open spec fn change_goes_unseen(s: Seq<char>, k: int, c: char) -> bool {
    let t = s.update(k, c);
    &&& cpf_first_remainder(s) < 2
    &&& cpf_first_remainder(t) < 2
    &&& (k == 0 || (cpf_second_remainder(s) < 2 && cpf_second_remainder(t) < 2))
}

/// Replacing one digit moves a weighted sum by the difference of the two
/// digits, taken as often as the weight of the position says.
pub proof fn lemma_weighted_sum_after_change(
    s: Seq<char>,
    weights: Seq<int>,
    n: nat,
    k: int,
    c: char,
)
    requires
        0 <= k < n <= s.len(),
    ensures
        weighted_sum(s.update(k, c), weights, n) == weighted_sum(s, weights, n) + weights[k] * (
        digit_value(c) - digit_value(s[k])),
    decreases n,
{
    let t = s.update(k, c);
    let w = weights[n - 1];
    if k == n - 1 {
        lemma_weighted_sum_reads_prefix(t, s, weights, (n - 1) as nat);
        assert(digit_value(c) * w == digit_value(s[k]) * w + w * (digit_value(c) - digit_value(
            s[k],
        ))) by (nonlinear_arith);
    } else {
        lemma_weighted_sum_after_change(s, weights, (n - 1) as nat, k, c);
    }
}

/// A weighted sum of zeros is zero.
proof fn lemma_weighted_sum_of_zeros(s: Seq<char>, weights: Seq<int>, n: nat)
    requires
        forall|i: int| 0 <= i < n ==> digit_value(#[trigger] s[i]) == 0,
    ensures
        weighted_sum(s, weights, n) == 0,
    decreases n,
{
    if n > 0 {
        lemma_weighted_sum_of_zeros(s, weights, (n - 1) as nat);
        assert(digit_value(s[n - 1]) == 0);
        assert(digit_value(s[n - 1]) * weights[n - 1] == 0) by (nonlinear_arith)
            requires
                digit_value(s[n - 1]) == 0,
        ;
    }
}

/// The product of a weight below 11 and a difference of two distinct
/// digits is no multiple of 11.
proof fn lemma_product_not_multiple_of_11(w: int, delta: int)
    by (nonlinear_arith)
    requires
        1 <= w <= 10,
        -9 <= delta <= 9,
        delta != 0,
    ensures
        (w * delta) % 11 != 0,
{
}

/// Adding such a product to a sum changes its remainder.
proof fn lemma_remainder_moves(sum: int, w: int, delta: int)
    requires
        1 <= w <= 10,
        -9 <= delta <= 9,
        delta != 0,
    ensures
        (sum + w * delta) % 11 != sum % 11,
{
    lemma_product_not_multiple_of_11(w, delta);
}

/// A string of zeros with one other digit among its first nine is no
/// valid CPF: its two sums are that digit times its two weights, and these
/// cannot both leave a remainder below 2.
proof fn lemma_lone_digit_is_seen(a: int, k: int)
    requires
        1 <= a <= 9,
        0 <= k <= 8,
    ensures
        !((a * (10 - k)) % 11 < 2 && (k == 0 || (a * (11 - k)) % 11 < 2)),
{
    lemma_product_not_multiple_of_11(10 - k, a);
    assert((10 - k) * a == a * (10 - k)) by (nonlinear_arith);
    if k == 0 {
        assert(a * (10 - k) == 10 * a) by (nonlinear_arith)
            requires
                k == 0,
        ;
    } else {
        lemma_product_not_multiple_of_11(11 - k, a);
        assert((11 - k) * a == a * (11 - k)) by (nonlinear_arith);
        assert(a * (11 - k) == a * (10 - k) + a) by (nonlinear_arith);
    }
}

/// How replacing the digit at `k` by `c` moves the two sums of a CPF.
proof fn lemma_cpf_sums_after_change(s: Seq<char>, k: int, c: char)
    requires
        s.len() == 11,
        0 <= k <= 8,
    ensures
        weighted_sum(s.update(k, c), descending_weights(10), 9) == weighted_sum(
            s,
            descending_weights(10),
            9,
        ) + (10 - k) * (digit_value(c) - digit_value(s[k])),
        weighted_sum(s.update(k, c), descending_weights(11), 10) == weighted_sum(
            s,
            descending_weights(11),
            10,
        ) + (11 - k) * (digit_value(c) - digit_value(s[k])),
{
    lemma_weighted_sum_after_change(s, descending_weights(10), 9, k, c);
    lemma_weighted_sum_after_change(s, descending_weights(11), 10, k, c);
    assert(descending_weights(10)[k] == 10 - k);
    assert(descending_weights(11)[k] == 11 - k);
}

/// Checksum sensitivity: replacing one of the first nine digits of a valid
/// CPF by another digit gives an invalid one, unless the change is one
/// that the check digits cannot see.
pub proof fn lemma_cpf_digit_change_detected(s: Seq<char>, k: int, c: char)
    requires
        s.len() == 11,
        all_digits(s),
        cpf_valid(s),
        0 <= k <= 8,
        is_digit(c),
        c != s[k],
        !change_goes_unseen(s, k, c),
    ensures
        !cpf_valid(s.update(k, c)),
{
    let t = s.update(k, c);
    let delta = digit_value(c) - digit_value(s[k]);
    let first = weighted_sum(s, descending_weights(10), 9);
    let second = weighted_sum(s, descending_weights(11), 10);
    assert(is_digit(s[k]));
    assert(t[9] == s[9] && t[10] == s[10]);
    lemma_cpf_sums_after_change(s, k, c);
    lemma_remainder_moves(first, 10 - k, delta);
    if k > 0 {
        lemma_remainder_moves(second, 11 - k, delta);
    }
}

/// A change that the check digits cannot see does not lead to eleven
/// digits that are all the same.
proof fn lemma_unseen_change_is_not_repeated(s: Seq<char>, k: int, c: char)
    requires
        s.len() == 11,
        all_digits(s),
        cpf_valid(s),
        0 <= k <= 8,
        is_digit(c),
        c != s[k],
        change_goes_unseen(s, k, c),
    ensures
        !all_same(s.update(k, c)),
{
    let t = s.update(k, c);
    let a = digit_value(s[k]);
    let first = weighted_sum(s, descending_weights(10), 9);
    let second = weighted_sum(s, descending_weights(11), 10);
    if all_same(t) {
        assert(is_digit(s[k]));
        assert(is_digit(s[9]));
        assert(t[9] == s[9] && t[9] == t[0]);
        assert(digit_value(t[0]) == 0);
        assert forall|i: int| 0 <= i < 11 implies digit_value(#[trigger] t[i]) == 0 by {
            assert(t[i] == t[0]);
        }
        assert(digit_value(t[k]) == 0 && t[k] == c);
        lemma_weighted_sum_of_zeros(t, descending_weights(10), 9);
        lemma_weighted_sum_of_zeros(t, descending_weights(11), 10);
        lemma_cpf_sums_after_change(s, k, c);
        assert((10 - k) * (0 - a) == -(a * (10 - k))) by (nonlinear_arith);
        assert((11 - k) * (0 - a) == -(a * (11 - k))) by (nonlinear_arith);
        assert(first == a * (10 - k));
        assert(second == a * (11 - k));
        lemma_lone_digit_is_seen(a, k);
    }
}

/// The changes left out above are exactly those that go undetected: such a
/// change turns a valid CPF into another valid one.
pub proof fn lemma_cpf_digit_change_unseen(s: Seq<char>, k: int, c: char)
    requires
        s.len() == 11,
        all_digits(s),
        cpf_valid(s),
        0 <= k <= 8,
        is_digit(c),
        c != s[k],
        change_goes_unseen(s, k, c),
    ensures
        cpf_valid(s.update(k, c)),
{
    let t = s.update(k, c);
    let delta = digit_value(c) - digit_value(s[k]);
    let second = weighted_sum(s, descending_weights(11), 10);
    lemma_unseen_change_is_not_repeated(s, k, c);
    assert(t[9] == s[9] && t[10] == s[10]);
    if k == 0 {
        lemma_cpf_sums_after_change(s, k, c);
        vstd::arithmetic::div_mod::lemma_mod_multiples_vanish(delta, second, 11);
    }
}

} // verus!
