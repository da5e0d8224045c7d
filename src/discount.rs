//! The discount decision: who may get a discount, in which mode, how much,
//! and the operation that carries it.
use vstd::prelude::*;
use crate::decimal::Decimal;
use crate::text::{append_cents, append_plain, cents_text, parse_decimal, parse_spec, plain_text};

verus! {

/// A kind of discount that the platform may allow an evaluation to produce.
#[derive(Clone, Copy, Debug, PartialEq, Eq, Structural)]
pub enum DiscountClass {
    Order,
    Product,
    Shipping,
}

/// The referral settings stored on a discount.
///
/// `referrer_credit_amount` and `min_referrer_orders` are carried but
/// reserved: no calculation reads them.
#[derive(Clone, Copy, Debug, PartialEq, Eq, Structural, Default)]
pub struct DiscountConfig {
    pub referee_discount_percentage: Decimal,
    pub referee_min_order: Decimal,
    pub referrer_credit_amount: Decimal,
    pub min_referrer_orders: i32,
}

impl DiscountConfig {
    pub open spec fn wf(self) -> bool {
        self.referee_discount_percentage.wf() && self.referee_min_order.wf()
            && self.referrer_credit_amount.wf()
    }
}

/// The identified buyer.
#[derive(Debug)]
pub struct CustomerContext {
    /// The buyer's credit balance as free text, where it is set.
    pub credits: Option<String>,
}

/// Everything one evaluation reads.
#[derive(Debug)]
pub struct CartContext {
    /// The discount classes the platform grants this evaluation.
    pub discount_classes: Vec<DiscountClass>,
    /// The cart subtotal.
    pub subtotal: Decimal,
    /// The cart attribute that marks the referral as checked (`"true"`).
    pub referral_validated: Option<String>,
    /// The cart attribute naming the referring customer.
    pub referrer_customer_id: Option<String>,
    /// The buyer, where identified.
    pub customer: Option<CustomerContext>,
    /// The referral settings of the discount; `None` where they are absent
    /// or could not be read.
    pub config: Option<DiscountConfig>,
}

impl CartContext {
    pub open spec fn wf(self) -> bool {
        self.subtotal.wf() && (self.config matches Some(c) ==> c.wf())
    }
}

/// Which calculation applies.
#[derive(Clone, Copy, Debug, PartialEq, Eq, Structural)]
pub enum Mode {
    Referral(DiscountConfig),
    StoreCredit,
}

/// The size of a discount.
#[derive(Clone, Copy, Debug, PartialEq, Eq, Structural)]
pub enum DiscountValue {
    /// A percentage off the order subtotal.
    Percentage(Decimal),
    /// A fixed amount off the order subtotal.
    FixedAmount(Decimal),
}

/// A calculated discount and the message shown with it.
#[derive(Debug)]
pub struct Discount {
    pub value: DiscountValue,
    pub message: String,
}

/// How to choose among the candidates of one operation.
#[derive(Clone, Copy, Debug, PartialEq, Eq, Structural)]
pub enum SelectionStrategy {
    First,
}

/// What a candidate applies to.
#[derive(Debug)]
pub enum DiscountTarget {
    /// The order subtotal, less the listed cart lines.
    OrderSubtotal { excluded_cart_line_ids: Vec<String> },
}

/// One discount offered by an operation. It carries no conditions and no
/// discount code.
#[derive(Debug)]
pub struct DiscountCandidate {
    pub targets: Vec<DiscountTarget>,
    pub message: Option<String>,
    pub value: DiscountValue,
}

/// An order-level discount operation.
#[derive(Debug)]
pub struct OrderDiscountOperation {
    pub selection_strategy: SelectionStrategy,
    pub candidates: Vec<DiscountCandidate>,
}

/// The result of an evaluation: no operation, or exactly one.
#[derive(Debug)]
pub struct DiscountOutcome {
    pub operations: Vec<OrderDiscountOperation>,
}

/// The granted classes allow order-level discounts.
pub open spec fn allows_order_discounts(classes: Seq<DiscountClass>) -> bool {
    classes.contains(DiscountClass::Order)
}

/// An optional attribute holds exactly `true`.
pub open spec fn attribute_is_true(attr: Option<String>) -> bool {
    attr matches Some(v) && v@ == seq!['t', 'r', 'u', 'e']
}

/// The buyer's credits: the balance text read as a decimal, zero where it
/// is missing or not a plain decimal.
pub open spec fn credits_spec(customer: CustomerContext) -> Decimal {
    match customer.credits {
        Some(t) => match parse_spec(t@) {
            Some(d) => d,
            None => Decimal { units: 0, scale: 0 },
        },
        None => Decimal { units: 0, scale: 0 },
    }
}

/// The mode that the configuration selects.
pub open spec fn mode_spec(config: Option<DiscountConfig>) -> Mode {
    match config {
        Some(c) => Mode::Referral(c),
        None => Mode::StoreCredit,
    }
}

/// The referral percentage owed: the referral is validated, a referrer is
/// named, and the subtotal reaches the minimum order.
pub open spec fn referral_value(cart: CartContext, config: DiscountConfig) -> Option<DiscountValue> {
    if attribute_is_true(cart.referral_validated) && cart.referrer_customer_id.is_some()
        && config.referee_min_order.le_spec(cart.subtotal) {
        Some(DiscountValue::Percentage(config.referee_discount_percentage))
    } else {
        None
    }
}

/// The store credit owed: the smaller of the buyer's credits and the
/// subtotal, where the buyer is identified and both are positive.
pub open spec fn store_credit_value(cart: CartContext) -> Option<DiscountValue> {
    match cart.customer {
        None => None,
        Some(c) => {
            let credits = credits_spec(c);
            let amount = credits.min_spec(cart.subtotal);
            if credits.is_positive_spec() && amount.is_positive_spec() {
                Some(DiscountValue::FixedAmount(amount))
            } else {
                None
            }
        },
    }
}

/// The discount, if any, that an evaluation of `cart` yields.
pub open spec fn discount_spec(cart: CartContext) -> Option<DiscountValue> {
    if !allows_order_discounts(cart.discount_classes@) {
        None
    } else {
        match mode_spec(cart.config) {
            Mode::Referral(c) => referral_value(cart, c),
            Mode::StoreCredit => store_credit_value(cart),
        }
    }
}

/// The value of an optional discount.
pub open spec fn value_of(d: Option<Discount>) -> Option<DiscountValue> {
    match d {
        Some(d) => Some(d.value),
        None => None,
    }
}

/// The message shown with a discount.
pub open spec fn message_spec(value: DiscountValue) -> Seq<char> {
    match value {
        DiscountValue::Percentage(p) => "Referral discount: "@ + plain_text(p) + "% off"@,
        DiscountValue::FixedAmount(a) => "Store credit: $"@ + cents_text(a),
    }
}

/// `op` offers exactly `d`, first-selected, on the whole order subtotal.
pub open spec fn offers(op: OrderDiscountOperation, d: DiscountValue) -> bool {
    &&& op.selection_strategy == SelectionStrategy::First
    &&& op.candidates@.len() == 1
    &&& op.candidates@[0].value == d
    &&& op.candidates@[0].message matches Some(m) && m@ == message_spec(d)
    &&& op.candidates@[0].targets@.len() == 1
    &&& op.candidates@[0].targets@[0] matches DiscountTarget::OrderSubtotal {
        excluded_cart_line_ids,
    } && excluded_cart_line_ids@.len() == 0
}

/// `out` is empty where there is no discount, and one operation offering
/// it where there is.
pub open spec fn outcome_is(out: DiscountOutcome, d: Option<DiscountValue>) -> bool {
    match d {
        None => out.operations@.len() == 0,
        Some(v) => out.operations@.len() == 1 && offers(out.operations@[0], v),
    }
}

/// Whether the granted classes include order-level discounts.
pub fn has_order_discount_class(classes: &Vec<DiscountClass>) -> (r: bool)
    ensures
        r == allows_order_discounts(classes@),
{
    let mut i: usize = 0;
    while i < classes.len()
        invariant
            i <= classes@.len(),
            forall|j: int| 0 <= j < i ==> classes@[j] != DiscountClass::Order,
        decreases classes@.len() - i,
    {
        if classes[i] == DiscountClass::Order {
            assert(classes@[i as int] == DiscountClass::Order);
            return true;
        }
        i = i + 1;
    }
    false
}

/// Whether an optional attribute holds exactly `true`.
pub fn is_attribute_true(attr: &Option<String>) -> (r: bool)
    ensures
        r == attribute_is_true(*attr),
{
    match attr {
        None => false,
        Some(v) => {
            let t = v.as_str();
            if t.unicode_len() != 4 {
                return false;
            }
            let r = t.get_char(0) == 't' && t.get_char(1) == 'r' && t.get_char(2) == 'u'
                && t.get_char(3) == 'e';
            proof {
                if r {
                    assert(v@ =~= seq!['t', 'r', 'u', 'e']);
                }
            }
            r
        },
    }
}

/// Selects the referral mode where a configuration is present, the
/// store-credit mode where it is not.
pub fn resolve_mode(config: &Option<DiscountConfig>) -> (r: Mode)
    ensures
        r == mode_spec(*config),
{
    match config {
        Some(c) => Mode::Referral(*c),
        None => Mode::StoreCredit,
    }
}

/// The buyer's credits; zero where the balance is missing or unreadable.
pub fn available_credits(customer: &CustomerContext) -> (r: Decimal)
    ensures
        r == credits_spec(*customer),
        r.wf(),
{
    match &customer.credits {
        Some(t) => match parse_decimal(t.as_str()) {
            Some(d) => d,
            None => Decimal::zero(),
        },
        None => Decimal::zero(),
    }
}

/// The message of a discount.
pub fn discount_message(value: &DiscountValue) -> (r: String)
    requires
        match *value {
            DiscountValue::Percentage(p) => p.wf(),
            DiscountValue::FixedAmount(a) => a.wf(),
        },
    ensures
        r@ == message_spec(*value),
{
    let mut m = String::new();
    match value {
        DiscountValue::Percentage(p) => {
            m.append("Referral discount: ");
            append_plain(&mut m, p);
            m.append("% off");
        },
        DiscountValue::FixedAmount(a) => {
            m.append("Store credit: $");
            append_cents(&mut m, a);
        },
    }
    proof {
        assert(m@ =~= message_spec(*value));
    }
    m
}

/// The referral discount owed on `cart` under `config`.
pub fn referral_discount(cart: &CartContext, config: &DiscountConfig) -> (r: Option<Discount>)
    requires
        cart.wf(),
        config.wf(),
    ensures
        value_of(r) == referral_value(*cart, *config),
        r matches Some(d) ==> d.message@ == message_spec(d.value),
{
    if !is_attribute_true(&cart.referral_validated) {
        return None;
    }
    if cart.referrer_customer_id.is_none() {
        return None;
    }
    if !config.referee_min_order.le(&cart.subtotal) {
        return None;
    }
    let value = DiscountValue::Percentage(config.referee_discount_percentage);
    let message = discount_message(&value);
    Some(Discount { value, message })
}

/// The store-credit discount owed on `cart`.
pub fn store_credit_discount(cart: &CartContext) -> (r: Option<Discount>)
    requires
        cart.wf(),
    ensures
        value_of(r) == store_credit_value(*cart),
        r matches Some(d) ==> d.message@ == message_spec(d.value),
{
    match &cart.customer {
        None => None,
        Some(c) => {
            let credits = available_credits(c);
            if !credits.is_positive() {
                return None;
            }
            let amount = credits.min(&cart.subtotal);
            if !amount.is_positive() {
                return None;
            }
            let value = DiscountValue::FixedAmount(amount);
            let message = discount_message(&value);
            Some(Discount { value, message })
        },
    }
}

/// No discount.
pub fn no_discount() -> (r: DiscountOutcome)
    ensures
        outcome_is(r, None),
{
    DiscountOutcome { operations: Vec::new() }
}

/// Wraps a discount into the single operation of an outcome.
pub fn build_operations(discount: Discount) -> (r: DiscountOutcome)
    requires
        discount.message@ == message_spec(discount.value),
    ensures
        outcome_is(r, Some(discount.value)),
{
    let target = DiscountTarget::OrderSubtotal { excluded_cart_line_ids: Vec::new() };
    let candidate = DiscountCandidate {
        targets: vec![target],
        message: Some(discount.message),
        value: discount.value,
    };
    let operation = OrderDiscountOperation {
        selection_strategy: SelectionStrategy::First,
        candidates: vec![candidate],
    };
    DiscountOutcome { operations: vec![operation] }
}

/// Evaluates a cart: the discount operation owed, if any.
pub fn cart_lines_discounts_generate_run(cart: &CartContext) -> (r: DiscountOutcome)
    requires
        cart.wf(),
    ensures
        outcome_is(r, discount_spec(*cart)),
{
    if !has_order_discount_class(&cart.discount_classes) {
        return no_discount();
    }
    let discount = match resolve_mode(&cart.config) {
        Mode::Referral(config) => referral_discount(cart, &config),
        Mode::StoreCredit => store_credit_discount(cart),
    };
    match discount {
        None => no_discount(),
        Some(d) => build_operations(d),
    }
}

} // verus!
