//! Wholesale discounts as cart operations: where the host allows product
//! discounts, every cart line of a wholesale customer earns the percentage of
//! the reduced schedule, each as an operation of its own.

use crate::cart::{CartLine, CartLineView};
use crate::discount::{
    CartLineTarget, CartLineTargetView, Discount, DiscountView, SelectionStrategy,
};
use crate::tiers::{reduced_percent, reduced_tier};
use crate::views::{lemma_view_each_push, view_each};
use vstd::prelude::*;

verus! {

/// A kind of discount that the host may allow an evaluation to grant.
#[derive(Debug, Clone, Copy, PartialEq, Eq, Structural)]
pub enum DiscountClass {
    Order,
    Product,
    Shipping,
}

/// A customer, with the host's answer to whether they carry the wholesale
/// tag.
#[derive(Debug, Clone, Copy, PartialEq, Eq, Structural)]
pub struct Customer {
    pub has_any_tag: bool,
}

/// Who is buying; the customer is known only when they are signed in.
#[derive(Debug, Clone, Copy, PartialEq, Eq)]
pub struct BuyerIdentity {
    pub customer: Option<Customer>,
}

/// The cart: its lines in order, and the buyer if there is one.
#[derive(Debug, PartialEq, Eq)]
pub struct Cart {
    pub buyer_identity: Option<BuyerIdentity>,
    pub lines: Vec<CartLine>,
}

/// The discount on whose behalf the host asks, with the classes it allows.
#[derive(Debug, PartialEq, Eq)]
pub struct TriggeringDiscount {
    pub discount_classes: Vec<DiscountClass>,
}

/// What an evaluation is given.
#[derive(Debug, PartialEq, Eq)]
pub struct Input {
    pub cart: Cart,
    pub discount: TriggeringDiscount,
}

/// An instruction to add product discounts: the candidates, and which of
/// them applies where several match.
#[derive(Debug, PartialEq, Eq)]
pub struct ProductDiscountsAddOperation {
    pub candidates: Vec<Discount>,
    pub selection_strategy: SelectionStrategy,
}

/// What an evaluation hands back.
#[derive(Debug, PartialEq, Eq)]
pub struct CartLinesDiscountsGenerateRunResult {
    pub operations: Vec<ProductDiscountsAddOperation>,
}

/// The mathematical value of a [`Cart`].
pub struct CartView {
    pub buyer_identity: Option<BuyerIdentity>,
    pub lines: Seq<CartLineView>,
}

/// The mathematical value of an [`Input`].
pub struct InputView {
    pub cart: CartView,
    pub discount_classes: Seq<DiscountClass>,
}

/// The mathematical value of a [`ProductDiscountsAddOperation`].
pub struct ProductDiscountsAddOperationView {
    pub candidates: Seq<DiscountView>,
    pub selection_strategy: SelectionStrategy,
}

/// The mathematical value of a [`CartLinesDiscountsGenerateRunResult`].
pub struct CartLinesDiscountsGenerateRunResultView {
    pub operations: Seq<ProductDiscountsAddOperationView>,
}

impl View for Cart {
    type V = CartView;

    open spec fn view(&self) -> CartView {
        CartView { buyer_identity: self.buyer_identity, lines: view_each(self.lines@) }
    }
}

impl View for Input {
    type V = InputView;

    open spec fn view(&self) -> InputView {
        InputView { cart: self.cart@, discount_classes: self.discount.discount_classes@ }
    }
}

impl View for ProductDiscountsAddOperation {
    type V = ProductDiscountsAddOperationView;

    open spec fn view(&self) -> ProductDiscountsAddOperationView {
        ProductDiscountsAddOperationView {
            candidates: view_each(self.candidates@),
            selection_strategy: self.selection_strategy,
        }
    }
}

impl View for CartLinesDiscountsGenerateRunResult {
    type V = CartLinesDiscountsGenerateRunResultView;

    open spec fn view(&self) -> CartLinesDiscountsGenerateRunResultView {
        CartLinesDiscountsGenerateRunResultView { operations: view_each(self.operations@) }
    }
}

/// A cart is a wholesale cart when its buyer is a known customer of whom the
/// host says that they carry the wholesale tag.
pub open spec fn is_wholesale_customer(cart: CartView) -> bool {
    match cart.buyer_identity {
        Some(identity) => match identity.customer {
            Some(customer) => customer.has_any_tag,
            None => false,
        },
        None => false,
    }
}

/// Product discounts may be granted when the class `Product` is among the
/// classes that the host allows.
pub open spec fn allows_product_discounts(classes: Seq<DiscountClass>) -> bool {
    classes.contains(DiscountClass::Product)
}

/// The operation one line earns, if its quantity reaches a tier: a single
/// candidate, the tier's percentage off that line, without a message.
pub open spec fn line_operation(line: CartLineView) -> Option<ProductDiscountsAddOperationView> {
    let percent = reduced_percent(line.quantity);
    if percent > 0 {
        Some(
            ProductDiscountsAddOperationView {
                candidates: seq![
                    DiscountView {
                        message: None,
                        target: CartLineTargetView { id: line.id },
                        percentage: percent,
                    },
                ],
                selection_strategy: SelectionStrategy::First,
            },
        )
    } else {
        None
    }
}

/// The operations of the lines that earn one, in the order of the lines.
pub open spec fn line_operations(lines: Seq<CartLineView>) -> Seq<
    ProductDiscountsAddOperationView,
>
    decreases lines.len(),
{
    if lines.len() == 0 {
        Seq::empty()
    } else {
        let earlier = line_operations(lines.drop_last());
        match line_operation(lines.last()) {
            Some(operation) => earlier.push(operation),
            None => earlier,
        }
    }
}

/// The result of evaluating an input: the line operations of a wholesale
/// cart where product discounts are allowed, and none otherwise.
pub open spec fn evaluation(input: InputView) -> CartLinesDiscountsGenerateRunResultView {
    CartLinesDiscountsGenerateRunResultView {
        operations: if is_wholesale_customer(input.cart) && allows_product_discounts(
            input.discount_classes,
        ) {
            line_operations(input.cart.lines)
        } else {
            Seq::empty()
        },
    }
}

/// Decides whether the cart belongs to a wholesale customer. A cart without
/// a buyer, or with a buyer who is no known customer, does not.
pub fn is_wholesale(cart: &Cart) -> (eligible: bool)
    ensures
        eligible == is_wholesale_customer(cart@),
{
    match &cart.buyer_identity {
        Some(identity) => match &identity.customer {
            Some(customer) => customer.has_any_tag,
            None => false,
        },
        None => false,
    }
}

/// Decides whether the host allows product discounts.
pub fn has_product_class(classes: &Vec<DiscountClass>) -> (allowed: bool)
    ensures
        allowed == allows_product_discounts(classes@),
{
    let mut i: usize = 0;
    while i < classes.len()
        invariant
            i <= classes.len(),
            forall|j: int| 0 <= j < i ==> classes[j] != DiscountClass::Product,
        decreases classes.len() - i,
    {
        match classes[i] {
            DiscountClass::Product => {
                assert(classes@[i as int] == DiscountClass::Product);
                return true;
            },
            _ => {},
        }
        i = i + 1;
    }
    false
}

/// Works out the operation of one line of a wholesale cart.
pub fn operation_for_line(line: &CartLine) -> (operation: Option<ProductDiscountsAddOperation>)
    ensures
        match operation {
            Some(granted) => line_operation(line@) == Some(granted@),
            None => line_operation(line@) is None,
        },
{
    let percent: u32 = reduced_tier(line.quantity);
    if percent > 0 {
        let candidate = Discount {
            message: None,
            target: CartLineTarget { id: line.id.clone() },
            percentage: percent,
        };
        let mut candidates: Vec<Discount> = Vec::new();
        candidates.push(candidate);
        assert(view_each(candidates@) =~= seq![candidate@]);
        Some(
            ProductDiscountsAddOperation {
                candidates,
                selection_strategy: SelectionStrategy::First,
            },
        )
    } else {
        None
    }
}

/// Evaluates a cart: where product discounts are allowed, a wholesale
/// customer gets, for each line whose quantity reaches a tier, an operation
/// that takes that tier's percentage off the line; otherwise there is no
/// operation. The lines keep their order.
pub fn cart_lines_discounts_generate_run(input: Input) -> (result:
    CartLinesDiscountsGenerateRunResult)
    ensures
        result@ == evaluation(input@),
        !is_wholesale_customer(input@.cart) ==> result@.operations.len() == 0,
        !allows_product_discounts(input@.discount_classes) ==> result@.operations.len() == 0,
{
    let mut operations: Vec<ProductDiscountsAddOperation> = Vec::new();
    assert(view_each(operations@) =~= Seq::<ProductDiscountsAddOperationView>::empty());
    if is_wholesale(&input.cart) && has_product_class(&input.discount.discount_classes) {
        let ghost lines = input@.cart.lines;
        let mut i: usize = 0;
        while i < input.cart.lines.len()
            invariant
                i <= input.cart.lines.len(),
                lines == view_each(input.cart.lines@),
                view_each(operations@) == line_operations(lines.take(i as int)),
            decreases input.cart.lines.len() - i,
        {
            let ghost before = operations@;
            let granted: Option<ProductDiscountsAddOperation> = operation_for_line(
                &input.cart.lines[i],
            );
            proof {
                lemma_line_operations_step(lines, i as int);
                assert(lines[i as int] == input.cart.lines[i as int]@);
            }
            match granted {
                Some(operation) => {
                    proof {
                        lemma_view_each_push(before, operation);
                    }
                    operations.push(operation);
                },
                None => {},
            }
            i = i + 1;
        }
        assert(lines.take(i as int) == lines);
    }
    CartLinesDiscountsGenerateRunResult { operations }
}

/// Taking one more line into account adds that line's operation, if it earns
/// one, behind those of the lines before it.
pub proof fn lemma_line_operations_step(lines: Seq<CartLineView>, i: int)
    requires
        0 <= i < lines.len(),
    ensures
        line_operations(lines.take(i + 1)) == match line_operation(lines[i]) {
            Some(operation) => line_operations(lines.take(i)).push(operation),
            None => line_operations(lines.take(i)),
        },
{
    assert(lines.take(i + 1).drop_last() == lines.take(i));
    assert(lines.take(i + 1).last() == lines[i]);
}

/// A line's quantity alone decides its percentage: nothing below 20 units,
/// 5 percent from 20 units on, 10 percent from 50 on, 15 percent from 100 on.
pub proof fn lemma_line_operation_bands(line: CartLineView)
    ensures
        line.quantity <= 19 ==> line_operation(line) is None,
        20 <= line.quantity <= 49 ==> line_operation(line) is Some && line_operation(
            line,
        )->0.candidates[0].percentage == 5,
        50 <= line.quantity <= 99 ==> line_operation(line) is Some && line_operation(
            line,
        )->0.candidates[0].percentage == 10,
        100 <= line.quantity ==> line_operation(line) is Some && line_operation(
            line,
        )->0.candidates[0].percentage == 15,
        line_operation(line) is Some ==> {
            &&& line_operation(line)->0.candidates.len() == 1
            &&& line_operation(line)->0.candidates[0].target.id == line.id
            &&& line_operation(line)->0.selection_strategy == SelectionStrategy::First
        },
{
}

/// There are never more operations than lines.
pub proof fn lemma_line_operations_length(lines: Seq<CartLineView>)
    ensures
        line_operations(lines).len() <= lines.len(),
    decreases lines.len(),
{
    if lines.len() > 0 {
        lemma_line_operations_length(lines.drop_last());
    }
}

/// Every operation granted belongs to a line of the cart: it is what that
/// line earns, so its one candidate names that line and carries 5, 10 or 15
/// percent. Operations come in the order of their lines, at most one for
/// each.
pub proof fn lemma_operations_belong_to_lines(lines: Seq<CartLineView>, k: int) -> (i: int)
    requires
        0 <= k < line_operations(lines).len(),
    ensures
        0 <= i < lines.len(),
        k <= i,
        line_operation(lines[i]) == Some(line_operations(lines)[k]),
        line_operations(lines)[k].candidates.len() == 1,
        line_operations(lines)[k].candidates[0].target.id == lines[i].id,
        line_operations(lines)[k].candidates[0].percentage == 5 || line_operations(
            lines,
        )[k].candidates[0].percentage == 10 || line_operations(lines)[k].candidates[0].percentage
            == 15,
    decreases lines.len(),
{
    let earlier = line_operations(lines.drop_last());
    lemma_line_operations_length(lines.drop_last());
    if k < earlier.len() {
        lemma_operations_belong_to_lines(lines.drop_last(), k)
    } else {
        lines.len() - 1
    }
}

/// Every line that earns an operation is granted it: none is left out, and
/// it stands no later among the operations than its line among the lines.
pub proof fn lemma_earning_lines_are_granted(lines: Seq<CartLineView>, i: int) -> (k: int)
    requires
        0 <= i < lines.len(),
        line_operation(lines[i]) is Some,
    ensures
        0 <= k < line_operations(lines).len(),
        k <= i,
        line_operation(lines[i]) == Some(line_operations(lines)[k]),
    decreases lines.len(),
{
    lemma_line_operations_length(lines.drop_last());
    if i == lines.len() - 1 {
        line_operations(lines.drop_last()).len() as int
    } else {
        lemma_earning_lines_are_granted(lines.drop_last(), i)
    }
}

/// The operations of a cart are those of its first lines followed by those
/// of the lines after them: lines are taken in order, each by itself.
pub proof fn lemma_line_operations_concat(first: Seq<CartLineView>, rest: Seq<CartLineView>)
    ensures
        line_operations(first + rest) == line_operations(first) + line_operations(rest),
    decreases rest.len(),
{
    if rest.len() == 0 {
        assert(first + rest == first);
        assert(line_operations(first) + line_operations(rest) == line_operations(first));
    } else {
        lemma_line_operations_concat(first, rest.drop_last());
        assert((first + rest).drop_last() == first + rest.drop_last());
        assert((first + rest).last() == rest.last());
        match line_operation(rest.last()) {
            Some(granted) => {
                let before = line_operations(first);
                let after = line_operations(rest.drop_last());
                assert((before + after).push(granted) == before + after.push(granted));
            },
            None => {},
        }
    }
}

/// A cart whose customer lacks the wholesale marker earns no operation, and
/// neither does any cart while product discounts are not allowed, whatever
/// the quantities of its lines.
pub proof fn lemma_not_eligible_no_operation(input: InputView)
    requires
        !is_wholesale_customer(input.cart) || !allows_product_discounts(input.discount_classes),
    ensures
        evaluation(input).operations == Seq::<ProductDiscountsAddOperationView>::empty(),
{
}

/// Evaluating the same input twice gives the same result: the result
/// depends on nothing but the input.
pub proof fn lemma_evaluation_repeats(
    first_input: Input,
    second_input: Input,
    first: CartLinesDiscountsGenerateRunResult,
    second: CartLinesDiscountsGenerateRunResult,
)
    requires
        first_input@ == second_input@,
        first@ == evaluation(first_input@),
        second@ == evaluation(second_input@),
    ensures
        first@ == second@,
{
}

} // verus!
