//! Order-discount decision engine for a checkout: given the cart, the buyer
//! and the discount classes that the platform grants, decide whether one
//! order-level discount applies and how large it is.
//!
//! - `decimal`: exact decimal numbers and their order.
//! - `text`: reading a balance as a decimal, writing decimals into messages.
//! - `discount`: the evaluation, from eligibility to the operation it emits.
//! - `laws`: properties of the evaluation, proved.
pub mod decimal;
pub mod text;
pub mod discount;
pub mod laws;
