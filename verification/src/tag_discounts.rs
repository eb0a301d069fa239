//! Wholesale discounts for customers tagged as wholesale: every cart line of
//! such a customer earns the percentage of the standard schedule.

use crate::cart::{CartLine, CartLineView};
use crate::discount::{
    CartLineTarget, CartLineTargetView, Discount, DiscountView, SelectionStrategy,
};
use crate::text::{discount_message, wholesale_message};
use crate::tiers::{standard_percent, standard_tier};
use crate::views::{lemma_view_each_push, view_each};
use vstd::prelude::*;

verus! {

/// Settings of the evaluation. There are none.
#[derive(Debug, Clone, Copy, PartialEq, Eq, Structural)]
pub struct Configuration {}

impl Default for Configuration {
    fn default() -> (configuration: Configuration)
        ensures
            configuration == (Configuration {  }),
    {
        Configuration {  }
    }
}

/// A customer, with the tags the shop gave them.
#[derive(Debug, PartialEq, Eq)]
pub struct Customer {
    pub tags: Vec<String>,
}

/// Who is buying; the customer is known only when they are signed in.
#[derive(Debug, PartialEq, Eq)]
pub struct BuyerIdentity {
    pub customer: Option<Customer>,
}

/// The cart: its lines in order, and the buyer if there is one.
#[derive(Debug, PartialEq, Eq)]
pub struct Cart {
    pub buyer_identity: Option<BuyerIdentity>,
    pub lines: Vec<CartLine>,
}

/// What an evaluation is given.
#[derive(Debug, PartialEq, Eq)]
pub struct Input {
    pub cart: Cart,
}

/// What an evaluation hands back.
#[derive(Debug, PartialEq, Eq)]
pub struct FunctionRunResult {
    pub discounts: Vec<Discount>,
    pub discount_application_strategy: SelectionStrategy,
}

/// The mathematical value of a [`Customer`].
pub struct CustomerView {
    pub tags: Seq<Seq<char>>,
}

/// The mathematical value of a [`BuyerIdentity`].
pub struct BuyerIdentityView {
    pub customer: Option<CustomerView>,
}

/// The mathematical value of a [`Cart`].
pub struct CartView {
    pub buyer_identity: Option<BuyerIdentityView>,
    pub lines: Seq<CartLineView>,
}

/// The mathematical value of an [`Input`].
pub struct InputView {
    pub cart: CartView,
}

/// The mathematical value of a [`FunctionRunResult`].
pub struct FunctionRunResultView {
    pub discounts: Seq<DiscountView>,
    pub discount_application_strategy: SelectionStrategy,
}

impl View for Customer {
    type V = CustomerView;

    open spec fn view(&self) -> CustomerView {
        CustomerView { tags: view_each(self.tags@) }
    }
}

impl View for BuyerIdentity {
    type V = BuyerIdentityView;

    open spec fn view(&self) -> BuyerIdentityView {
        BuyerIdentityView {
            customer: match self.customer {
                Some(customer) => Some(customer@),
                None => None,
            },
        }
    }
}

impl View for Cart {
    type V = CartView;

    open spec fn view(&self) -> CartView {
        CartView {
            buyer_identity: match self.buyer_identity {
                Some(identity) => Some(identity@),
                None => None,
            },
            lines: view_each(self.lines@),
        }
    }
}

impl View for Input {
    type V = InputView;

    open spec fn view(&self) -> InputView {
        InputView { cart: self.cart@ }
    }
}

impl View for FunctionRunResult {
    type V = FunctionRunResultView;

    open spec fn view(&self) -> FunctionRunResultView {
        FunctionRunResultView {
            discounts: view_each(self.discounts@),
            discount_application_strategy: self.discount_application_strategy,
        }
    }
}

/// A cart is a wholesale cart when its buyer is a known customer who carries
/// the tag `wholesale`, written exactly so.
pub open spec fn has_wholesale_tag(cart: CartView) -> bool {
    match cart.buyer_identity {
        Some(identity) => match identity.customer {
            Some(customer) => customer.tags.contains("wholesale"@),
            None => false,
        },
        None => false,
    }
}

/// The discount one line earns in a wholesale cart, if its quantity reaches
/// a tier: the tier's percentage off that line, with the buyer's message.
pub open spec fn line_discount(line: CartLineView) -> Option<DiscountView> {
    let percent = standard_percent(line.quantity);
    if percent > 0 {
        Some(
            DiscountView {
                message: Some(discount_message(percent as nat)),
                target: CartLineTargetView { id: line.id },
                percentage: percent,
            },
        )
    } else {
        None
    }
}

/// The discounts of the lines that earn one, in the order of the lines.
pub open spec fn line_discounts(lines: Seq<CartLineView>) -> Seq<DiscountView>
    decreases lines.len(),
{
    if lines.len() == 0 {
        Seq::empty()
    } else {
        let earlier = line_discounts(lines.drop_last());
        match line_discount(lines.last()) {
            Some(discount) => earlier.push(discount),
            None => earlier,
        }
    }
}

/// The result of evaluating an input: the line discounts of a wholesale
/// cart, none for any other cart, and always the strategy `First`.
pub open spec fn evaluation(input: InputView) -> FunctionRunResultView {
    FunctionRunResultView {
        discounts: if has_wholesale_tag(input.cart) {
            line_discounts(input.cart.lines)
        } else {
            Seq::empty()
        },
        discount_application_strategy: SelectionStrategy::First,
    }
}

/// Decides whether `tag` is among `tags`. Tags match only when they are
/// written exactly alike.
pub fn has_tag(tags: &Vec<String>, tag: &str) -> (found: bool)
    ensures
        found == view_each(tags@).contains(tag@),
{
    let wanted: String = tag.to_owned();
    let mut i: usize = 0;
    while i < tags.len()
        invariant
            i <= tags.len(),
            wanted@ == tag@,
            forall|j: int| 0 <= j < i ==> tags[j]@ != tag@,
        decreases tags.len() - i,
    {
        if tags[i] == wanted {
            assert(view_each(tags@)[i as int] == tag@);
            return true;
        }
        i = i + 1;
    }
    assert forall|j: int| 0 <= j < view_each(tags@).len() implies view_each(tags@)[j] != tag@ by {
        assert(view_each(tags@)[j] == tags[j]@);
    }
    false
}

/// Decides whether the cart belongs to a wholesale customer. A cart without
/// a buyer, or with a buyer who is no known customer, does not.
pub fn is_wholesale(cart: &Cart) -> (eligible: bool)
    ensures
        eligible == has_wholesale_tag(cart@),
{
    match &cart.buyer_identity {
        Some(identity) => match &identity.customer {
            Some(customer) => has_tag(&customer.tags, "wholesale"),
            None => false,
        },
        None => false,
    }
}

/// Works out the discount of one line of a wholesale cart.
pub fn discount_for_line(line: &CartLine) -> (discount: Option<Discount>)
    ensures
        match discount {
            Some(granted) => line_discount(line@) == Some(granted@),
            None => line_discount(line@) is None,
        },
{
    let percent: u32 = standard_tier(line.quantity);
    if percent > 0 {
        Some(
            Discount {
                message: Some(wholesale_message(percent)),
                target: CartLineTarget { id: line.id.clone() },
                percentage: percent,
            },
        )
    } else {
        None
    }
}

/// The result without any discount.
pub fn no_discount() -> (result: FunctionRunResult)
    ensures
        result@ == (FunctionRunResultView {
            discounts: Seq::empty(),
            discount_application_strategy: SelectionStrategy::First,
        }),
{
    let discounts: Vec<Discount> = Vec::new();
    assert(view_each(discounts@) =~= Seq::<DiscountView>::empty());
    FunctionRunResult { discounts, discount_application_strategy: SelectionStrategy::First }
}

/// Evaluates a cart: a wholesale customer gets, for each line whose quantity
/// reaches a tier, that tier's percentage off the line; anyone else gets no
/// discount. The lines keep their order.
pub fn run(input: Input) -> (result: FunctionRunResult)
    ensures
        result@ == evaluation(input@),
        !has_wholesale_tag(input@.cart) ==> result@.discounts.len() == 0,
        result@.discount_application_strategy == SelectionStrategy::First,
{
    if !is_wholesale(&input.cart) {
        return no_discount();
    }
    let mut discounts: Vec<Discount> = Vec::new();
    assert(view_each(discounts@) =~= Seq::<DiscountView>::empty());
    let ghost lines = input@.cart.lines;
    let mut i: usize = 0;
    while i < input.cart.lines.len()
        invariant
            i <= input.cart.lines.len(),
            lines == view_each(input.cart.lines@),
            view_each(discounts@) == line_discounts(lines.take(i as int)),
        decreases input.cart.lines.len() - i,
    {
        let ghost before = discounts@;
        let granted: Option<Discount> = discount_for_line(&input.cart.lines[i]);
        proof {
            lemma_line_discounts_step(lines, i as int);
            assert(lines[i as int] == input.cart.lines[i as int]@);
        }
        match granted {
            Some(discount) => {
                proof {
                    lemma_view_each_push(before, discount);
                }
                discounts.push(discount);
            },
            None => {},
        }
        i = i + 1;
    }
    assert(lines.take(i as int) == lines);
    FunctionRunResult { discounts, discount_application_strategy: SelectionStrategy::First }
}

/// Taking one more line into account adds that line's discount, if it earns
/// one, behind those of the lines before it.
pub proof fn lemma_line_discounts_step(lines: Seq<CartLineView>, i: int)
    requires
        0 <= i < lines.len(),
    ensures
        line_discounts(lines.take(i + 1)) == match line_discount(lines[i]) {
            Some(discount) => line_discounts(lines.take(i)).push(discount),
            None => line_discounts(lines.take(i)),
        },
{
    assert(lines.take(i + 1).drop_last() == lines.take(i));
    assert(lines.take(i + 1).last() == lines[i]);
}

/// A line's quantity alone decides its percentage: nothing below 10 units,
/// 10 percent from 10 units on, 15 percent from 50 on, 20 percent from 200 on.
pub proof fn lemma_line_discount_bands(line: CartLineView)
    ensures
        line.quantity <= 9 ==> line_discount(line) is None,
        10 <= line.quantity <= 49 ==> line_discount(line) is Some && line_discount(
            line,
        )->0.percentage == 10,
        50 <= line.quantity <= 199 ==> line_discount(line) is Some && line_discount(
            line,
        )->0.percentage == 15,
        200 <= line.quantity ==> line_discount(line) is Some && line_discount(line)->0.percentage
            == 20,
        line_discount(line) is Some ==> line_discount(line)->0.target.id == line.id,
{
}

/// Every discount granted belongs to a line of the cart: it is what that
/// line earns, so it names that line and carries 10, 15 or 20 percent.
/// Discounts come in the order of their lines, at most one for each.
pub proof fn lemma_discounts_belong_to_lines(lines: Seq<CartLineView>, k: int) -> (i: int)
    requires
        0 <= k < line_discounts(lines).len(),
    ensures
        0 <= i < lines.len(),
        k <= i,
        line_discount(lines[i]) == Some(line_discounts(lines)[k]),
        line_discounts(lines)[k].target.id == lines[i].id,
        line_discounts(lines)[k].percentage == 10 || line_discounts(lines)[k].percentage == 15
            || line_discounts(lines)[k].percentage == 20,
        line_discounts(lines).len() <= lines.len(),
    decreases lines.len(),
{
    lemma_line_discounts_length(lines);
    let earlier = line_discounts(lines.drop_last());
    lemma_line_discounts_length(lines.drop_last());
    if k < earlier.len() {
        lemma_discounts_belong_to_lines(lines.drop_last(), k)
    } else {
        lines.len() - 1
    }
}

/// There are never more discounts than lines.
pub proof fn lemma_line_discounts_length(lines: Seq<CartLineView>)
    ensures
        line_discounts(lines).len() <= lines.len(),
    decreases lines.len(),
{
    if lines.len() > 0 {
        lemma_line_discounts_length(lines.drop_last());
    }
}

/// Every line that earns a discount is granted it: none is left out, and
/// it stands no later among the discounts than its line among the lines.
pub proof fn lemma_earning_lines_are_granted(lines: Seq<CartLineView>, i: int) -> (k: int)
    requires
        0 <= i < lines.len(),
        line_discount(lines[i]) is Some,
    ensures
        0 <= k < line_discounts(lines).len(),
        k <= i,
        line_discount(lines[i]) == Some(line_discounts(lines)[k]),
    decreases lines.len(),
{
    lemma_line_discounts_length(lines.drop_last());
    if i == lines.len() - 1 {
        line_discounts(lines.drop_last()).len() as int
    } else {
        lemma_earning_lines_are_granted(lines.drop_last(), i)
    }
}

/// The discounts of a cart are those of its first lines followed by those
/// of the lines after them: lines are taken in order, each by itself.
pub proof fn lemma_line_discounts_concat(first: Seq<CartLineView>, rest: Seq<CartLineView>)
    ensures
        line_discounts(first + rest) == line_discounts(first) + line_discounts(rest),
    decreases rest.len(),
{
    if rest.len() == 0 {
        assert(first + rest == first);
        assert(line_discounts(first) + line_discounts(rest) == line_discounts(first));
    } else {
        lemma_line_discounts_concat(first, rest.drop_last());
        assert((first + rest).drop_last() == first + rest.drop_last());
        assert((first + rest).last() == rest.last());
        match line_discount(rest.last()) {
            Some(granted) => {
                let before = line_discounts(first);
                let after = line_discounts(rest.drop_last());
                assert((before + after).push(granted) == before + after.push(granted));
            },
            None => {},
        }
    }
}

/// A cart whose customer lacks the wholesale tag earns no discount, whatever
/// the quantities of its lines.
pub proof fn lemma_no_tag_no_discount(input: InputView)
    requires
        !has_wholesale_tag(input.cart),
    ensures
        evaluation(input).discounts == Seq::<DiscountView>::empty(),
{
}

/// Evaluating the same input twice gives the same result: the result
/// depends on nothing but the input.
pub proof fn lemma_evaluation_repeats(
    first_input: Input,
    second_input: Input,
    first: FunctionRunResult,
    second: FunctionRunResult,
)
    requires
        first_input@ == second_input@,
        first@ == evaluation(first_input@),
        second@ == evaluation(second_input@),
    ensures
        first@ == second@,
{
}

} // verus!
