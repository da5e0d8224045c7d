use daisychain_discount::decimal::Decimal;
use daisychain_discount::discount::{
    available_credits, cart_lines_discounts_generate_run, has_order_discount_class,
    is_attribute_true, resolve_mode, CartContext, CustomerContext, DiscountClass, DiscountConfig,
    DiscountOutcome, DiscountTarget, DiscountValue, Mode, SelectionStrategy,
};

fn dec(units: i64, scale: u32) -> Decimal {
    Decimal::new(units, scale).unwrap()
}

fn config(percentage: Decimal, min_order: Decimal) -> DiscountConfig {
    DiscountConfig {
        referee_discount_percentage: percentage,
        referee_min_order: min_order,
        referrer_credit_amount: dec(10, 0),
        min_referrer_orders: 1,
    }
}

fn referral_cart(subtotal: Decimal, cfg: DiscountConfig) -> CartContext {
    CartContext {
        discount_classes: vec![DiscountClass::Order],
        subtotal,
        referral_validated: Some("true".to_string()),
        referrer_customer_id: Some("gid://shopify/Customer/1".to_string()),
        customer: None,
        config: Some(cfg),
    }
}

fn credit_cart(subtotal: Decimal, credits: Option<&str>) -> CartContext {
    CartContext {
        discount_classes: vec![DiscountClass::Order],
        subtotal,
        referral_validated: None,
        referrer_customer_id: None,
        customer: Some(CustomerContext { credits: credits.map(|c| c.to_string()) }),
        config: None,
    }
}

fn single(out: &DiscountOutcome) -> (DiscountValue, String) {
    assert_eq!(out.operations.len(), 1);
    let op = &out.operations[0];
    assert_eq!(op.selection_strategy, SelectionStrategy::First);
    assert_eq!(op.candidates.len(), 1);
    let cand = &op.candidates[0];
    assert_eq!(cand.targets.len(), 1);
    match &cand.targets[0] {
        DiscountTarget::OrderSubtotal { excluded_cart_line_ids } => {
            assert!(excluded_cart_line_ids.is_empty())
        }
    }
    (cand.value, cand.message.clone().unwrap())
}

#[test]
fn permission_missing_gives_no_operations() {
    let mut cart = referral_cart(dec(100, 0), config(dec(15, 0), dec(50, 0)));
    cart.discount_classes = vec![];
    assert!(cart_lines_discounts_generate_run(&cart).operations.is_empty());
}

#[test]
fn product_and_shipping_classes_alone_give_no_operations() {
    let mut cart = credit_cart(dec(100, 0), Some("25.00"));
    cart.discount_classes = vec![DiscountClass::Product, DiscountClass::Shipping];
    assert!(cart_lines_discounts_generate_run(&cart).operations.is_empty());
    cart.discount_classes = vec![DiscountClass::Product, DiscountClass::Order];
    assert_eq!(cart_lines_discounts_generate_run(&cart).operations.len(), 1);
}

#[test]
fn referral_above_minimum_gives_percentage() {
    let cart = referral_cart(dec(100, 0), config(dec(15, 0), dec(50, 0)));
    let (value, message) = single(&cart_lines_discounts_generate_run(&cart));
    assert_eq!(value, DiscountValue::Percentage(dec(15, 0)));
    assert_eq!(message, "Referral discount: 15% off");
}

#[test]
fn referral_below_minimum_gives_nothing() {
    let cart = referral_cart(dec(40, 0), config(dec(15, 0), dec(50, 0)));
    assert!(cart_lines_discounts_generate_run(&cart).operations.is_empty());
}

#[test]
fn referral_at_minimum_qualifies() {
    let cart = referral_cart(dec(5000, 2), config(dec(125, 1), dec(50, 0)));
    let (value, message) = single(&cart_lines_discounts_generate_run(&cart));
    assert_eq!(value, DiscountValue::Percentage(dec(125, 1)));
    assert_eq!(message, "Referral discount: 12.5% off");
}

#[test]
fn referral_just_below_minimum_fails() {
    let cart = referral_cart(dec(4999, 2), config(dec(15, 0), dec(50, 0)));
    assert!(cart_lines_discounts_generate_run(&cart).operations.is_empty());
}

#[test]
fn referral_not_validated_gives_nothing() {
    let mut cart = referral_cart(dec(100, 0), config(dec(15, 0), dec(50, 0)));
    cart.referral_validated = None;
    assert!(cart_lines_discounts_generate_run(&cart).operations.is_empty());
    cart.referral_validated = Some("false".to_string());
    assert!(cart_lines_discounts_generate_run(&cart).operations.is_empty());
    cart.referral_validated = Some("TRUE".to_string());
    assert!(cart_lines_discounts_generate_run(&cart).operations.is_empty());
    cart.referral_validated = Some("true ".to_string());
    assert!(cart_lines_discounts_generate_run(&cart).operations.is_empty());
}

#[test]
fn referral_without_referrer_gives_nothing() {
    let mut cart = referral_cart(dec(100, 0), config(dec(15, 0), dec(50, 0)));
    cart.referrer_customer_id = None;
    assert!(cart_lines_discounts_generate_run(&cart).operations.is_empty());
}

#[test]
fn referral_mode_ignores_store_credit() {
    let mut cart = referral_cart(dec(100, 0), config(dec(15, 0), dec(50, 0)));
    cart.customer = Some(CustomerContext { credits: Some("30".to_string()) });
    cart.referral_validated = None;
    assert!(cart_lines_discounts_generate_run(&cart).operations.is_empty());
}

#[test]
fn store_credit_below_subtotal() {
    let cart = credit_cart(dec(100, 0), Some("25.00"));
    let (value, message) = single(&cart_lines_discounts_generate_run(&cart));
    assert_eq!(value, DiscountValue::FixedAmount(dec(2500, 2)));
    assert_eq!(message, "Store credit: $25.00");
}

#[test]
fn store_credit_capped_at_subtotal() {
    let cart = credit_cart(dec(100, 0), Some("150.00"));
    let (value, message) = single(&cart_lines_discounts_generate_run(&cart));
    assert_eq!(value, DiscountValue::FixedAmount(dec(100, 0)));
    assert_eq!(message, "Store credit: $100.00");
}

#[test]
fn store_credit_equal_to_subtotal() {
    let cart = credit_cart(dec(1250, 2), Some("12.5"));
    let (value, message) = single(&cart_lines_discounts_generate_run(&cart));
    match value {
        DiscountValue::FixedAmount(a) => {
            assert!(a.le(&dec(1250, 2)) && dec(1250, 2).le(&a));
        }
        _ => panic!("expected a fixed amount"),
    }
    assert_eq!(message, "Store credit: $12.50");
}

#[test]
fn store_credit_without_customer_gives_nothing() {
    let mut cart = credit_cart(dec(100, 0), Some("25.00"));
    cart.customer = None;
    assert!(cart_lines_discounts_generate_run(&cart).operations.is_empty());
}

#[test]
fn store_credit_without_positive_credits_gives_nothing() {
    for credits in [None, Some("0"), Some("0.00"), Some("-5"), Some("abc"), Some(""), Some("1e3")] {
        let cart = credit_cart(dec(100, 0), credits);
        assert!(cart_lines_discounts_generate_run(&cart).operations.is_empty());
    }
}

#[test]
fn store_credit_on_zero_subtotal_gives_nothing() {
    let cart = credit_cart(dec(0, 0), Some("25.00"));
    assert!(cart_lines_discounts_generate_run(&cart).operations.is_empty());
}

#[test]
fn store_credit_message_rounds_to_cents() {
    let cart = credit_cart(dec(100, 0), Some("12.345"));
    let (value, message) = single(&cart_lines_discounts_generate_run(&cart));
    assert_eq!(value, DiscountValue::FixedAmount(dec(12345, 3)));
    assert_eq!(message, "Store credit: $12.35");
    let cart = credit_cart(dec(100, 0), Some("0.004"));
    let (_, message) = single(&cart_lines_discounts_generate_run(&cart));
    assert_eq!(message, "Store credit: $0.00");
    let cart = credit_cart(dec(100, 0), Some("7"));
    let (_, message) = single(&cart_lines_discounts_generate_run(&cart));
    assert_eq!(message, "Store credit: $7.00");
}

#[test]
fn evaluation_is_repeatable() {
    let cart = credit_cart(dec(100, 0), Some("25.00"));
    let first = single(&cart_lines_discounts_generate_run(&cart));
    let second = single(&cart_lines_discounts_generate_run(&cart));
    assert_eq!(first, second);
    let cart = referral_cart(dec(100, 0), config(dec(15, 0), dec(50, 0)));
    let first = single(&cart_lines_discounts_generate_run(&cart));
    let second = single(&cart_lines_discounts_generate_run(&cart));
    assert_eq!(first, second);
}

#[test]
fn order_class_lookup() {
    assert!(!has_order_discount_class(&vec![]));
    assert!(has_order_discount_class(&vec![DiscountClass::Shipping, DiscountClass::Order]));
    assert!(!has_order_discount_class(&vec![DiscountClass::Product]));
}

#[test]
fn attribute_truth() {
    assert!(is_attribute_true(&Some("true".to_string())));
    assert!(!is_attribute_true(&Some("True".to_string())));
    assert!(!is_attribute_true(&Some("1".to_string())));
    assert!(!is_attribute_true(&None));
}

#[test]
fn mode_follows_configuration() {
    let cfg = config(dec(15, 0), dec(50, 0));
    assert_eq!(resolve_mode(&Some(cfg)), Mode::Referral(cfg));
    assert_eq!(resolve_mode(&None), Mode::StoreCredit);
}

#[test]
fn credits_fall_back_to_zero() {
    let zero = Decimal::zero();
    assert_eq!(available_credits(&CustomerContext { credits: None }), zero);
    assert_eq!(available_credits(&CustomerContext { credits: Some("n/a".to_string()) }), zero);
    assert_eq!(
        available_credits(&CustomerContext { credits: Some("25.00".to_string()) }),
        dec(2500, 2)
    );
}
