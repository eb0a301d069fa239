//! Wholesale pricing: tiered percentage discounts for wholesale customers,
//! decided from a snapshot of the cart.
//!
//! Three evaluations share the quantity tiers of [`tiers`]:
//! [`tag_discounts`] reads the customer's tags and grants discounts on cart
//! lines; [`variant_discounts`] reads the cart from a generic tree
//! ([`json`]) and grants discounts on product variants, written back as a
//! tree; [`cart_lines_discounts_generate_run`] grants cart operations where
//! the host allows product discounts. Each is a pure function of its input.

pub mod cart;
pub mod cart_lines_discounts_generate_run;
pub mod discount;
pub mod json;
pub mod tag_discounts;
pub mod text;
pub mod tiers;
pub mod variant_discounts;
pub mod views;
