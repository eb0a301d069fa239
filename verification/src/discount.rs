//! What an evaluation hands back: percentage discounts on cart lines.

use vstd::prelude::*;

verus! {

/// Which candidate applies when several match the same target.
#[derive(Debug, Clone, Copy, PartialEq, Eq, Structural)]
pub enum SelectionStrategy {
    /// Only the first matching candidate.
    First,
    /// The candidate worth the most.
    Maximum,
    /// Every matching candidate.
    All,
}

/// The cart line a discount applies to, named by the line's identifier.
#[derive(Debug, PartialEq, Eq)]
pub struct CartLineTarget {
    pub id: String,
}

/// The mathematical value of a [`CartLineTarget`].
pub struct CartLineTargetView {
    pub id: Seq<char>,
}

impl View for CartLineTarget {
    type V = CartLineTargetView;

    open spec fn view(&self) -> CartLineTargetView {
        CartLineTargetView { id: self.id@ }
    }
}

/// A percentage off one cart line, with an optional message for the buyer.
#[derive(Debug, PartialEq, Eq)]
pub struct Discount {
    pub message: Option<String>,
    pub target: CartLineTarget,
    pub percentage: u32,
}

/// The mathematical value of a [`Discount`].
pub struct DiscountView {
    pub message: Option<Seq<char>>,
    pub target: CartLineTargetView,
    pub percentage: int,
}

impl View for Discount {
    type V = DiscountView;

    open spec fn view(&self) -> DiscountView {
        DiscountView {
            message: match self.message {
                Some(text) => Some(text@),
                None => None,
            },
            target: self.target@,
            percentage: self.percentage as int,
        }
    }
}

} // verus!
