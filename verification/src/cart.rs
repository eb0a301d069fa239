//! The part of a cart that every evaluation reads alike: its lines.

use vstd::prelude::*;

verus! {

/// One line of a cart: an identifier that the host assigned, unique within
/// the cart, and the number of units on the line.
#[derive(Debug, PartialEq, Eq)]
pub struct CartLine {
    pub id: String,
    pub quantity: i64,
}

/// The mathematical value of a [`CartLine`].
pub struct CartLineView {
    pub id: Seq<char>,
    pub quantity: int,
}

impl View for CartLine {
    type V = CartLineView;

    open spec fn view(&self) -> CartLineView {
        CartLineView { id: self.id@, quantity: self.quantity as int }
    }
}

} // verus!
