//! What holds of the arithmetic as a whole.
//!
//! Each statement speaks of numbers that meet the contract of an operation:
//! the sum of `a` and `b` is any well-formed number that denotes `a@ + b@`,
//! which is what `plus`, `add_sub` and `+` return. Two numbers are the same
//! where they agree in sign and in every limb, which is what `==` tests.

use super::compare::int_order;
use super::derived::factorial;
use super::number::BigInt;
use super::text::{
    canonical_text, decimal_digits_of, decimal_text, lemma_decimal_digits_of,
    lemma_digits_of_value, lemma_read_digits_text, lemma_read_negative_text,
    lemma_text_digits_in_range, text_digits, text_value,
};
use core::cmp::Ordering;
use vstd::arithmetic::mul::{lemma_mul_basics, lemma_mul_is_commutative};
use vstd::prelude::*;
use vstd::std_specs::cmp::PartialEqSpec;

verus! {

/// Writing the number that was read from a text gives the canonical form
/// of that text: no minus sign before zero, no leading zeros.
pub proof fn law_text_round_trip(text: Seq<char>)
    requires
        text_digits(text).len() > 0,
    ensures
        decimal_text(text_value(text)) == canonical_text(text),
{
    let ds = text_digits(text);
    lemma_text_digits_in_range(text);
    lemma_digits_of_value(ds);
    lemma_decimal_digits_of(super::text::digits_value(ds) as nat);
}

/// Reading the decimal form of an integer gives that integer back.
pub proof fn law_value_round_trip(n: int)
    ensures
        text_digits(decimal_text(n)).len() > 0,
        text_value(decimal_text(n)) == n,
{
    if n < 0 {
        let ds = decimal_digits_of((-n) as nat);
        lemma_decimal_digits_of((-n) as nat);
        lemma_read_negative_text(ds);
    } else {
        let ds = decimal_digits_of(n as nat);
        lemma_decimal_digits_of(n as nat);
        lemma_read_digits_text(ds);
    }
}

/// Numbers that denote one integer are the same number.
pub proof fn law_same_value_same_number(x: BigInt, y: BigInt)
    requires
        x.wf(),
        y.wf(),
        x@ == y@,
    ensures
        x.eq_spec(&y),
{
    x.lemma_view_injective(&y);
}

/// `a + b == b + a`.
pub proof fn law_add_commutative(a: BigInt, b: BigInt, ab: BigInt, ba: BigInt)
    requires
        ab.wf(),
        ab@ == a@ + b@,
        ba.wf(),
        ba@ == b@ + a@,
    ensures
        ab.eq_spec(&ba),
{
    ab.lemma_view_injective(&ba);
}

/// `a * b == b * a`.
pub proof fn law_mul_commutative(a: BigInt, b: BigInt, ab: BigInt, ba: BigInt)
    requires
        ab.wf(),
        ab@ == a@ * b@,
        ba.wf(),
        ba@ == b@ * a@,
    ensures
        ab.eq_spec(&ba),
{
    lemma_mul_is_commutative(a@, b@);
    ab.lemma_view_injective(&ba);
}

/// `(a + b) + c == a + (b + c)`.
pub proof fn law_add_associative(
    a: BigInt,
    b: BigInt,
    c: BigInt,
    ab: BigInt,
    bc: BigInt,
    left: BigInt,
    right: BigInt,
)
    requires
        ab@ == a@ + b@,
        bc@ == b@ + c@,
        left.wf(),
        left@ == ab@ + c@,
        right.wf(),
        right@ == a@ + bc@,
    ensures
        left.eq_spec(&right),
{
    left.lemma_view_injective(&right);
}

/// `a + 0 == a`.
pub proof fn law_add_zero(a: BigInt, zero: BigInt, sum: BigInt)
    requires
        a.wf(),
        zero@ == 0,
        sum.wf(),
        sum@ == a@ + zero@,
    ensures
        sum.eq_spec(&a),
{
    sum.lemma_view_injective(&a);
}

/// `a * 1 == a`.
pub proof fn law_mul_one(a: BigInt, one: BigInt, product: BigInt)
    requires
        a.wf(),
        one@ == 1,
        product.wf(),
        product@ == a@ * one@,
    ensures
        product.eq_spec(&a),
{
    lemma_mul_basics(a@);
    product.lemma_view_injective(&a);
}

/// `a * 0 == 0`.
pub proof fn law_mul_zero(a: BigInt, zero: BigInt, product: BigInt)
    requires
        zero.wf(),
        zero@ == 0,
        product.wf(),
        product@ == a@ * zero@,
    ensures
        product.eq_spec(&zero),
{
    lemma_mul_basics(a@);
    product.lemma_view_injective(&zero);
}

/// `a - a == 0`.
pub proof fn law_sub_self(a: BigInt, zero: BigInt, difference: BigInt)
    requires
        zero.wf(),
        zero@ == 0,
        difference.wf(),
        difference@ == a@ - a@,
    ensures
        difference.eq_spec(&zero),
{
    difference.lemma_view_injective(&zero);
}

/// `a + (-a) == 0`, where `-a` is `a` with its sign flipped.
pub proof fn law_add_negated(a: BigInt, negated: BigInt, zero: BigInt, sum: BigInt)
    requires
        negated@ == -a@,
        zero.wf(),
        zero@ == 0,
        sum.wf(),
        sum@ == a@ + negated@,
    ensures
        sum.eq_spec(&zero),
{
    sum.lemma_view_injective(&zero);
}

/// Sum, difference and product agree with the machine's arithmetic: where
/// `a` and `b` denote the machine integers `x` and `y`, the results of the
/// three operations are the numbers that denote `x + y`, `x - y` and
/// `x * y`.
pub proof fn law_agrees_with_native(
    x: i128,
    y: i128,
    a: BigInt,
    b: BigInt,
    sum: BigInt,
    difference: BigInt,
    product: BigInt,
    native_sum: BigInt,
    native_difference: BigInt,
    native_product: BigInt,
)
    requires
        a@ == x,
        b@ == y,
        sum.wf() && sum@ == a@ + b@,
        difference.wf() && difference@ == a@ - b@,
        product.wf() && product@ == a@ * b@,
        native_sum.wf() && native_sum@ == x + y,
        native_difference.wf() && native_difference@ == x - y,
        native_product.wf() && native_product@ == x * y,
    ensures
        sum.eq_spec(&native_sum),
        difference.eq_spec(&native_difference),
        product.eq_spec(&native_product),
{
    sum.lemma_view_injective(&native_sum);
    difference.lemma_view_injective(&native_difference);
    product.lemma_view_injective(&native_product);
}

/// Of `a < b`, `a == b` and `a > b` exactly one holds.
pub proof fn law_order_total(a: BigInt, b: BigInt)
    requires
        a.wf(),
        b.wf(),
    ensures
        a.order(&b) == int_order(a@, b@),
        a.order(&b) == Ordering::Equal <==> a.eq_spec(&b),
        a.order(&b) == Ordering::Less <==> b.order(&a) == Ordering::Greater,
        a.order(&b) == Ordering::Greater <==> b.order(&a) == Ordering::Less,
{
    a.lemma_order_is_int_order(&b);
    b.lemma_order_is_int_order(&a);
    if a@ == b@ {
        a.lemma_view_injective(&b);
    }
}

/// `a < b` and `b < c` give `a < c`, and so for `<=`.
pub proof fn law_order_transitive(a: BigInt, b: BigInt, c: BigInt)
    requires
        a.wf(),
        b.wf(),
        c.wf(),
    ensures
        a.order(&b) == Ordering::Less && b.order(&c) == Ordering::Less ==> a.order(&c)
            == Ordering::Less,
        a.order(&b) != Ordering::Greater && b.order(&c) != Ordering::Greater ==> a.order(&c)
            != Ordering::Greater,
{
    a.lemma_order_is_int_order(&b);
    b.lemma_order_is_int_order(&c);
    a.lemma_order_is_int_order(&c);
}

/// `factorial(0) == 1`, and `factorial(n) == n * factorial(n - 1)` for
/// `n > 0`.
pub proof fn law_factorial_step(
    n: BigInt,
    fact_n: BigInt,
    fact_before: BigInt,
    product: BigInt,
    one: BigInt,
)
    requires
        n@ >= 0,
        fact_n.wf(),
        fact_n@ == factorial(n@ as nat),
        n@ > 0 ==> fact_before@ == factorial((n@ - 1) as nat),
        product.wf(),
        product@ == n@ * fact_before@,
        one.wf(),
        one@ == 1,
    ensures
        n@ == 0 ==> fact_n.eq_spec(&one),
        n@ > 0 ==> fact_n.eq_spec(&product),
{
    if n@ == 0 {
        fact_n.lemma_view_injective(&one);
    } else {
        fact_n.lemma_view_injective(&product);
    }
}

} // verus!
