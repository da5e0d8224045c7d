//! Properties of the evaluation, proved over the specification that
//! `cart_lines_discounts_generate_run` meets.
use vstd::prelude::*;
use crate::decimal::{Decimal, lemma_pow10_positive};
use crate::discount::{
    CartContext, CustomerContext, DiscountCandidate, DiscountConfig, DiscountOutcome, DiscountTarget,
    DiscountValue, OrderDiscountOperation, allows_order_discounts, attribute_is_true, credits_spec,
    discount_spec, outcome_is,
};

verus! {

/// The cart lines that a target leaves out, as text.
pub open spec fn target_exclusions(t: DiscountTarget) -> Seq<Seq<char>> {
    match t {
        DiscountTarget::OrderSubtotal { excluded_cart_line_ids } => excluded_cart_line_ids@.map_values(
            |s: String| s@,
        ),
    }
}

/// An optional message as text.
pub open spec fn message_view(m: Option<String>) -> Option<Seq<char>> {
    match m {
        Some(s) => Some(s@),
        None => None,
    }
}

pub open spec fn same_candidate(c: DiscountCandidate, d: DiscountCandidate) -> bool {
    &&& c.value == d.value
    &&& message_view(c.message) == message_view(d.message)
    &&& c.targets@.len() == d.targets@.len()
    &&& forall|k: int|
        0 <= k < c.targets@.len() ==> target_exclusions(#[trigger] c.targets@[k])
            == target_exclusions(d.targets@[k])
}

pub open spec fn same_operation(p: OrderDiscountOperation, q: OrderDiscountOperation) -> bool {
    &&& p.selection_strategy == q.selection_strategy
    &&& p.candidates@.len() == q.candidates@.len()
    &&& forall|j: int|
        0 <= j < p.candidates@.len() ==> same_candidate(#[trigger] p.candidates@[j], q.candidates@[j])
}

/// Two outcomes say the same thing, field by field.
pub open spec fn same_outcome(x: DiscountOutcome, y: DiscountOutcome) -> bool {
    &&& x.operations@.len() == y.operations@.len()
    &&& forall|i: int|
        0 <= i < x.operations@.len() ==> same_operation(#[trigger] x.operations@[i], y.operations@[i])
}

/// Without the order-level discount class the outcome is empty.
pub proof fn lemma_no_order_class_no_discount(cart: CartContext, out: DiscountOutcome)
    requires
        !allows_order_discounts(cart.discount_classes@),
        outcome_is(out, discount_spec(cart)),
    ensures
        discount_spec(cart) == None::<DiscountValue>,
        out.operations@.len() == 0,
{
}

/// With order discounts allowed, a configuration, a validated referral, a
/// named referrer and a subtotal at least the minimum order, the outcome is
/// one operation of the configured percentage.
pub proof fn lemma_validated_referral_gets_percentage(
    cart: CartContext,
    config: DiscountConfig,
    out: DiscountOutcome,
)
    requires
        allows_order_discounts(cart.discount_classes@),
        cart.config == Some(config),
        attribute_is_true(cart.referral_validated),
        cart.referrer_customer_id.is_some(),
        config.referee_min_order.le_spec(cart.subtotal),
        outcome_is(out, discount_spec(cart)),
    ensures
        discount_spec(cart) == Some(DiscountValue::Percentage(config.referee_discount_percentage)),
        out.operations@.len() == 1,
        out.operations@[0].candidates@[0].value == DiscountValue::Percentage(
            config.referee_discount_percentage,
        ),
{
}

/// In referral mode, without a validated referral the outcome is empty.
pub proof fn lemma_unvalidated_referral_no_discount(cart: CartContext, out: DiscountOutcome)
    requires
        cart.config.is_some(),
        !attribute_is_true(cart.referral_validated),
        outcome_is(out, discount_spec(cart)),
    ensures
        discount_spec(cart) == None::<DiscountValue>,
        out.operations@.len() == 0,
{
}

proof fn lemma_min_is_min(a: Decimal, b: Decimal)
    ensures
        a.min_spec(b).le_spec(a),
        a.min_spec(b).le_spec(b),
        a.min_spec(b).same_value(a) || a.min_spec(b).same_value(b),
        a.min_spec(b) == a || a.min_spec(b) == b,
{
}

/// In store-credit mode, with order discounts allowed, an identified buyer
/// with positive credits and a positive subtotal, the outcome is one fixed
/// amount equal to the smaller of credits and subtotal.
pub proof fn lemma_store_credit_is_min(
    cart: CartContext,
    customer: CustomerContext,
    out: DiscountOutcome,
)
    requires
        cart.wf(),
        allows_order_discounts(cart.discount_classes@),
        cart.config.is_none(),
        cart.customer == Some(customer),
        credits_spec(customer).is_positive_spec(),
        cart.subtotal.is_positive_spec(),
        outcome_is(out, discount_spec(cart)),
    ensures
        discount_spec(cart) matches Some(DiscountValue::FixedAmount(a)) && a.le_spec(
            credits_spec(customer),
        ) && a.le_spec(cart.subtotal) && (a.same_value(credits_spec(customer)) || a.same_value(
            cart.subtotal,
        )),
        out.operations@.len() == 1,
        out.operations@[0].candidates@[0].value == discount_spec(cart).unwrap(),
{
    lemma_min_is_min(credits_spec(customer), cart.subtotal);
}

/// In store-credit mode, without an identified buyer or without positive
/// credits, the outcome is empty.
pub proof fn lemma_no_credit_no_discount(cart: CartContext, out: DiscountOutcome)
    requires
        cart.config.is_none(),
        cart.customer matches Some(c) ==> !credits_spec(c).is_positive_spec(),
        outcome_is(out, discount_spec(cart)),
    ensures
        discount_spec(cart) == None::<DiscountValue>,
        out.operations@.len() == 0,
{
}

/// Evaluating the same cart twice gives the same outcome: any two outcomes
/// that meet the evaluation's postcondition for one cart agree field by
/// field.
pub proof fn lemma_evaluation_is_repeatable(
    cart: CartContext,
    first: DiscountOutcome,
    second: DiscountOutcome,
)
    requires
        outcome_is(first, discount_spec(cart)),
        outcome_is(second, discount_spec(cart)),
    ensures
        same_outcome(first, second),
{
    if discount_spec(cart).is_some() {
        let p = first.operations@[0];
        let q = second.operations@[0];
        let c = p.candidates@[0];
        let d = q.candidates@[0];
        assert(target_exclusions(c.targets@[0]) =~= seq![]);
        assert(target_exclusions(d.targets@[0]) =~= seq![]);
        assert(same_candidate(c, d));
        assert(same_operation(p, q));
    }
}

/// A subtotal exactly at the minimum order qualifies for the referral
/// percentage.
pub proof fn lemma_minimum_order_is_inclusive(cart: CartContext, config: DiscountConfig)
    requires
        allows_order_discounts(cart.discount_classes@),
        cart.config == Some(config),
        attribute_is_true(cart.referral_validated),
        cart.referrer_customer_id.is_some(),
        cart.subtotal.same_value(config.referee_min_order),
    ensures
        discount_spec(cart) == Some(DiscountValue::Percentage(config.referee_discount_percentage)),
{
}

/// Credits exactly equal to a positive subtotal give a fixed amount equal
/// to the subtotal.
pub proof fn lemma_credits_equal_to_subtotal(cart: CartContext, customer: CustomerContext)
    requires
        cart.wf(),
        allows_order_discounts(cart.discount_classes@),
        cart.config.is_none(),
        cart.customer == Some(customer),
        credits_spec(customer).same_value(cart.subtotal),
        cart.subtotal.is_positive_spec(),
    ensures
        discount_spec(cart) matches Some(DiscountValue::FixedAmount(a)) && a.same_value(
            cart.subtotal,
        ),
{
    let c = credits_spec(customer);
    let s = cart.subtotal;
    let pc = crate::decimal::pow10(c.scale as nat);
    let ps = crate::decimal::pow10(s.scale as nat);
    lemma_pow10_positive(c.scale as nat);
    lemma_pow10_positive(s.scale as nat);
    let cu = c.units as int;
    let su = s.units as int;
    assert(cu > 0) by (nonlinear_arith)
        requires
            cu * ps == su * pc,
            su > 0,
            pc >= 1,
            ps >= 1,
    ;
    assert(c.le_spec(s));
}

} // verus!
