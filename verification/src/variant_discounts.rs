//! Wholesale discounts on product variants, for a host that hands the cart
//! over as a generic tree and takes the discounts back as one: the cart is
//! decoded, every line of a wholesale customer that holds a product variant
//! earns the percentage of the standard schedule, and the result is encoded.

use crate::json::{lemma_key_before_at, JsonValue, JsonView, Member, MemberView};
use crate::text::{decimal_digits, decimal_text, discount_message, wholesale_message};
use crate::tiers::{standard_percent, standard_tier};
use crate::views::{lemma_view_each_push, view_each};
use vstd::prelude::*;

verus! {

/// What a line holds, as far as the host describes it: the kind of
/// merchandise and its identifier.
#[derive(Debug, PartialEq, Eq)]
pub struct Merchandise {
    pub typename: Option<String>,
    pub id: Option<String>,
}

/// One line of the cart, as far as it could be read.
#[derive(Debug, PartialEq, Eq)]
pub struct Line {
    pub quantity: Option<i64>,
    pub merchandise: Option<Merchandise>,
}

/// The cart, as far as it could be read: whether the host says that the
/// customer carries the wholesale tag, and the lines in order.
#[derive(Debug, PartialEq, Eq)]
pub struct Cart {
    pub has_any_tag: bool,
    pub lines: Vec<Line>,
}

/// A percentage off every line that holds one product variant, named by the
/// variant's identifier.
#[derive(Debug, PartialEq, Eq)]
pub struct VariantDiscount {
    pub variant_id: String,
    pub percentage: u32,
}

/// The mathematical value of a [`Merchandise`].
pub struct MerchandiseView {
    pub typename: Option<Seq<char>>,
    pub id: Option<Seq<char>>,
}

/// The mathematical value of a [`Line`].
pub struct LineView {
    pub quantity: Option<int>,
    pub merchandise: Option<MerchandiseView>,
}

/// The mathematical value of a [`Cart`].
pub struct CartView {
    pub has_any_tag: bool,
    pub lines: Seq<LineView>,
}

/// The mathematical value of a [`VariantDiscount`].
pub struct VariantDiscountView {
    pub variant_id: Seq<char>,
    pub percentage: int,
}

/// The text of an optional string.
pub open spec fn text_of(text: Option<String>) -> Option<Seq<char>> {
    match text {
        Some(text) => Some(text@),
        None => None,
    }
}

impl View for Merchandise {
    type V = MerchandiseView;

    open spec fn view(&self) -> MerchandiseView {
        MerchandiseView { typename: text_of(self.typename), id: text_of(self.id) }
    }
}

impl View for Line {
    type V = LineView;

    open spec fn view(&self) -> LineView {
        LineView {
            quantity: match self.quantity {
                Some(quantity) => Some(quantity as int),
                None => None,
            },
            merchandise: match self.merchandise {
                Some(merchandise) => Some(merchandise@),
                None => None,
            },
        }
    }
}

impl View for Cart {
    type V = CartView;

    open spec fn view(&self) -> CartView {
        CartView { has_any_tag: self.has_any_tag, lines: view_each(self.lines@) }
    }
}

impl View for VariantDiscount {
    type V = VariantDiscountView;

    open spec fn view(&self) -> VariantDiscountView {
        VariantDiscountView { variant_id: self.variant_id@, percentage: self.percentage as int }
    }
}

/// What a tree says of a line's merchandise. A kind or an identifier that is
/// missing, or no string, is absent.
pub open spec fn decoded_merchandise(tree: JsonView) -> MerchandiseView {
    MerchandiseView { typename: tree.string_member("__typename"@), id: tree.string_member("id"@) }
}

/// What a tree says of a line. A quantity that is missing or no number is
/// absent; so is merchandise that is missing or no object; a tree that is no
/// object says nothing.
pub open spec fn decoded_line(tree: JsonView) -> LineView {
    LineView {
        quantity: tree.number_member("quantity"@),
        merchandise: match tree.object_member("merchandise"@) {
            Some(merchandise) => Some(decoded_merchandise(merchandise)),
            None => None,
        },
    }
}

/// What the trees of an array say of the lines, one by one.
pub open spec fn decoded_lines(items: Seq<JsonView>) -> Seq<LineView> {
    items.map_values(|item: JsonView| decoded_line(item))
}

/// Whether a cart's tree says that the customer carries the wholesale tag:
/// the cart names a buyer, the buyer a customer, and the customer's flag
/// `hasAnyTag` is the boolean true. Anything missing or of another kind on
/// the way means no.
pub open spec fn decoded_flag(cart: JsonView) -> bool {
    match cart.object_member("buyerIdentity"@) {
        Some(identity) => match identity.object_member("customer"@) {
            Some(customer) => customer.bool_member("hasAnyTag"@) == Some(true),
            None => false,
        },
        None => false,
    }
}

/// What an input tree says of the cart, found under `cart`. A cart that is
/// missing has no wholesale customer and no lines; lines that are missing or
/// no array are none.
pub open spec fn decoded_cart(input: JsonView) -> CartView {
    match input.member("cart"@) {
        Some(cart) => CartView {
            has_any_tag: decoded_flag(cart),
            lines: match cart.array_member("lines"@) {
                Some(items) => decoded_lines(items),
                None => Seq::empty(),
            },
        },
        None => CartView { has_any_tag: false, lines: Seq::empty() },
    }
}

/// The product variant a line holds: the identifier of its merchandise,
/// where the merchandise is of the kind `ProductVariant`.
pub open spec fn variant_of(line: LineView) -> Option<Seq<char>> {
    match line.merchandise {
        Some(merchandise) => if merchandise.typename == Some("ProductVariant"@) {
            merchandise.id
        } else {
            None
        },
        None => None,
    }
}

/// The discount one line earns in a wholesale cart: the percentage of its
/// quantity's tier off its product variant. A line without a quantity,
/// below the lowest tier, or holding no product variant earns none.
pub open spec fn line_discount(line: LineView) -> Option<VariantDiscountView> {
    match (line.quantity, variant_of(line)) {
        (Some(quantity), Some(variant_id)) => if standard_percent(quantity) > 0 {
            Some(VariantDiscountView { variant_id, percentage: standard_percent(quantity) })
        } else {
            None
        },
        _ => None,
    }
}

/// The discounts of the lines that earn one, in the order of the lines.
pub open spec fn line_discounts(lines: Seq<LineView>) -> Seq<VariantDiscountView>
    decreases lines.len(),
{
    if lines.len() == 0 {
        Seq::empty()
    } else {
        let earlier = line_discounts(lines.drop_last());
        match line_discount(lines.last()) {
            Some(discount) => earlier.push(discount),
            None => earlier,
        }
    }
}

/// The discounts of a cart: those of its lines for a wholesale customer,
/// none for anyone else.
pub open spec fn cart_discounts(cart: CartView) -> Seq<VariantDiscountView> {
    if cart.has_any_tag {
        line_discounts(cart.lines)
    } else {
        Seq::empty()
    }
}

/// The tree of one discount. Its members stand in the order of their keys:
/// the buyer's message, the product variant as the only target, and the
/// percentage, written as decimal text.
pub open spec fn discount_tree(discount: VariantDiscountView) -> JsonView {
    JsonView::Object(
        seq![
            MemberView {
                key: "message"@,
                value: JsonView::String(discount_message(discount.percentage as nat)),
            },
            MemberView {
                key: "targets"@,
                value: JsonView::Array(
                    seq![
                        JsonView::Object(
                            seq![
                                MemberView {
                                    key: "productVariant"@,
                                    value: JsonView::Object(
                                        seq![
                                            MemberView {
                                                key: "id"@,
                                                value: JsonView::String(discount.variant_id),
                                            },
                                        ],
                                    ),
                                },
                            ],
                        ),
                    ],
                ),
            },
            MemberView {
                key: "value"@,
                value: JsonView::Object(
                    seq![
                        MemberView {
                            key: "percentage"@,
                            value: JsonView::Object(
                                seq![
                                    MemberView {
                                        key: "value"@,
                                        value: JsonView::String(
                                            decimal_digits(discount.percentage as nat),
                                        ),
                                    },
                                ],
                            ),
                        },
                    ],
                ),
            },
        ],
    )
}

/// The trees of a sequence of discounts, one by one.
pub open spec fn discount_trees(discounts: Seq<VariantDiscountView>) -> Seq<JsonView> {
    discounts.map_values(|discount: VariantDiscountView| discount_tree(discount))
}

/// The tree of a result. Its members stand in the order of their keys: the
/// strategy, always `FIRST`, and the discounts in their order.
pub open spec fn result_tree(discounts: Seq<VariantDiscountView>) -> JsonView {
    JsonView::Object(
        seq![
            MemberView {
                key: "discountApplicationStrategy"@,
                value: JsonView::String("FIRST"@),
            },
            MemberView { key: "discounts"@, value: JsonView::Array(discount_trees(discounts)) },
        ],
    )
}

/// The output for an input tree: the cart is decoded, its discounts are
/// worked out, and the result is encoded.
pub open spec fn evaluation(input: JsonView) -> JsonView {
    result_tree(cart_discounts(decoded_cart(input)))
}

fn cloned(text: Option<&String>) -> (copy: Option<String>)
    ensures
        match (text, copy) {
            (Some(text), Some(copy)) => copy@ == text@,
            (None, None) => true,
            _ => false,
        },
{
    match text {
        Some(text) => Some(text.clone()),
        None => None,
    }
}

/// Reads a line's merchandise from its tree.
pub fn decode_merchandise(tree: &JsonValue) -> (merchandise: Merchandise)
    ensures
        merchandise@ == decoded_merchandise(tree@),
{
    Merchandise {
        typename: cloned(tree.string_member("__typename")),
        id: cloned(tree.string_member("id")),
    }
}

/// Reads a line from its tree. What is missing or of another kind than
/// expected is left absent.
pub fn decode_line(tree: &JsonValue) -> (line: Line)
    ensures
        line@ == decoded_line(tree@),
{
    Line {
        quantity: tree.number_member("quantity"),
        merchandise: match tree.object_member("merchandise") {
            Some(merchandise) => Some(decode_merchandise(merchandise)),
            None => None,
        },
    }
}

/// Reads from a cart's tree whether the customer carries the wholesale tag.
pub fn decode_flag(cart: &JsonValue) -> (flag: bool)
    ensures
        flag == decoded_flag(cart@),
{
    match cart.object_member("buyerIdentity") {
        Some(identity) => match identity.object_member("customer") {
            Some(customer) => match customer.bool_member("hasAnyTag") {
                Some(flag) => flag,
                None => false,
            },
            None => false,
        },
        None => false,
    }
}

/// Reads the cart from an input tree. Nothing makes this fail: what is
/// missing or of another kind than expected is left absent.
pub fn decode_cart(input: &JsonValue) -> (cart: Cart)
    ensures
        cart@ == decoded_cart(input@),
{
    let mut lines: Vec<Line> = Vec::new();
    assert(view_each(lines@) =~= Seq::<LineView>::empty());
    match input.get("cart") {
        Some(cart) => {
            let has_any_tag: bool = decode_flag(cart);
            match cart.array_member("lines") {
                Some(items) => {
                    let mut i: usize = 0;
                    while i < items.len()
                        invariant
                            i <= items.len(),
                            lines.len() == i,
                            forall|j: int| 0 <= j < i ==> lines[j]@ == decoded_line(items[j]@),
                        decreases items.len() - i,
                    {
                        lines.push(decode_line(&items[i]));
                        i = i + 1;
                    }
                    assert(view_each(lines@) =~= decoded_lines(view_each(items@)));
                },
                None => {},
            }
            Cart { has_any_tag, lines }
        },
        None => Cart { has_any_tag: false, lines },
    }
}

/// Finds the product variant a line holds.
pub fn variant_id(line: &Line) -> (id: Option<&String>)
    ensures
        match id {
            Some(id) => variant_of(line@) == Some(id@),
            None => variant_of(line@) is None,
        },
{
    match &line.merchandise {
        Some(merchandise) => match &merchandise.typename {
            Some(typename) => {
                let wanted: String = "ProductVariant".to_owned();
                if *typename == wanted {
                    match &merchandise.id {
                        Some(id) => Some(id),
                        None => None,
                    }
                } else {
                    None
                }
            },
            None => None,
        },
        None => None,
    }
}

/// Works out the discount of one line of a wholesale cart.
pub fn discount_for_line(line: &Line) -> (discount: Option<VariantDiscount>)
    ensures
        match discount {
            Some(granted) => line_discount(line@) == Some(granted@),
            None => line_discount(line@) is None,
        },
{
    match line.quantity {
        Some(quantity) => {
            let percent: u32 = standard_tier(quantity);
            if percent > 0 {
                match variant_id(line) {
                    Some(id) => Some(
                        VariantDiscount { variant_id: id.clone(), percentage: percent },
                    ),
                    None => None,
                }
            } else {
                None
            }
        },
        None => None,
    }
}

/// Works out the discounts of a cart: for a wholesale customer, one for
/// each line that earns it, in the order of the lines; for anyone else, none.
pub fn evaluate(cart: &Cart) -> (discounts: Vec<VariantDiscount>)
    ensures
        view_each(discounts@) == cart_discounts(cart@),
        !cart@.has_any_tag ==> discounts@.len() == 0,
{
    let mut discounts: Vec<VariantDiscount> = Vec::new();
    assert(view_each(discounts@) =~= Seq::<VariantDiscountView>::empty());
    if cart.has_any_tag {
        let ghost lines = cart@.lines;
        let mut i: usize = 0;
        while i < cart.lines.len()
            invariant
                i <= cart.lines.len(),
                lines == view_each(cart.lines@),
                view_each(discounts@) == line_discounts(lines.take(i as int)),
            decreases cart.lines.len() - i,
        {
            let ghost before = discounts@;
            let granted: Option<VariantDiscount> = discount_for_line(&cart.lines[i]);
            proof {
                lemma_line_discounts_step(lines, i as int);
                assert(lines[i as int] == cart.lines[i as int]@);
            }
            match granted {
                Some(discount) => {
                    proof {
                        lemma_view_each_push(before, discount);
                    }
                    discounts.push(discount);
                },
                None => {},
            }
            i = i + 1;
        }
        assert(lines.take(i as int) == lines);
    }
    discounts
}

/// Writes one discount as a tree.
pub fn encode_discount(discount: &VariantDiscount) -> (tree: JsonValue)
    ensures
        tree@ == discount_tree(discount@),
        tree@.well_formed(),
{
    proof {
        lemma_discount_tree_well_formed(discount@);
    }
    let id: Vec<Member> = vec![
        Member::new("id", JsonValue::String(discount.variant_id.clone())),
    ];
    assert(view_each(id@) =~= seq![id[0]@]);
    let variant: Vec<Member> = vec![Member::new("productVariant", JsonValue::object(id))];
    assert(view_each(variant@) =~= seq![variant[0]@]);
    let targets: Vec<JsonValue> = vec![JsonValue::object(variant)];
    assert(view_each(targets@) =~= seq![targets[0]@]);
    let digits: Vec<Member> = vec![
        Member::new("value", JsonValue::String(decimal_text(discount.percentage))),
    ];
    assert(view_each(digits@) =~= seq![digits[0]@]);
    let percentage: Vec<Member> = vec![Member::new("percentage", JsonValue::object(digits))];
    assert(view_each(percentage@) =~= seq![percentage[0]@]);
    let members: Vec<Member> = vec![
        Member::new("message", JsonValue::String(wholesale_message(discount.percentage))),
        Member::new("targets", JsonValue::array(targets)),
        Member::new("value", JsonValue::object(percentage)),
    ];
    assert(view_each(members@) =~= seq![members[0]@, members[1]@, members[2]@]);
    JsonValue::object(members)
}

/// Writes a result as a tree.
pub fn encode_result(discounts: &Vec<VariantDiscount>) -> (tree: JsonValue)
    ensures
        tree@ == result_tree(view_each(discounts@)),
        tree@.well_formed(),
{
    proof {
        lemma_result_tree_well_formed(view_each(discounts@));
    }
    let mut items: Vec<JsonValue> = Vec::new();
    let mut i: usize = 0;
    while i < discounts.len()
        invariant
            i <= discounts.len(),
            items.len() == i,
            forall|j: int| 0 <= j < i ==> items[j]@ == discount_tree(discounts[j]@),
        decreases discounts.len() - i,
    {
        items.push(encode_discount(&discounts[i]));
        i = i + 1;
    }
    assert(view_each(items@) =~= discount_trees(view_each(discounts@)));
    let members: Vec<Member> = vec![
        Member::new("discountApplicationStrategy", JsonValue::string("FIRST")),
        Member::new("discounts", JsonValue::array(items)),
    ];
    assert(view_each(members@) =~= seq![members[0]@, members[1]@]);
    JsonValue::object(members)
}

/// The result without any discount.
pub fn no_discount() -> (tree: JsonValue)
    ensures
        tree@ == result_tree(Seq::empty()),
        tree@.well_formed(),
{
    let discounts: Vec<VariantDiscount> = Vec::new();
    assert(view_each(discounts@) =~= Seq::<VariantDiscountView>::empty());
    encode_result(&discounts)
}

/// Evaluates an input tree: a customer whom the host flags as wholesale
/// gets, for each line whose quantity reaches a tier and which holds a
/// product variant, that tier's percentage off the variant; anyone else gets
/// the result without any discount. Input that is malformed in any way
/// counts as saying nothing, and never makes the evaluation fail.
pub fn run(input: JsonValue) -> (output: JsonValue)
    ensures
        output@ == evaluation(input@),
        !decoded_cart(input@).has_any_tag ==> output@ == result_tree(Seq::empty()),
        output@.well_formed(),
{
    let cart: Cart = decode_cart(&input);
    if !cart.has_any_tag {
        return no_discount();
    }
    let discounts: Vec<VariantDiscount> = evaluate(&cart);
    encode_result(&discounts)
}

/// Taking one more line into account adds that line's discount, if it earns
/// one, behind those of the lines before it.
pub proof fn lemma_line_discounts_step(lines: Seq<LineView>, i: int)
    requires
        0 <= i < lines.len(),
    ensures
        line_discounts(lines.take(i + 1)) == match line_discount(lines[i]) {
            Some(discount) => line_discounts(lines.take(i)).push(discount),
            None => line_discounts(lines.take(i)),
        },
{
    assert(lines.take(i + 1).drop_last() == lines.take(i));
    assert(lines.take(i + 1).last() == lines[i]);
}

/// A line's quantity alone decides the percentage of a line that holds a
/// product variant: nothing below 10 units, 10 percent from 10 units on, 15
/// percent from 50 on, 20 percent from 200 on. A line without a quantity or
/// without a product variant earns nothing.
pub proof fn lemma_line_discount_bands(line: LineView)
    ensures
        line.quantity is None || variant_of(line) is None ==> line_discount(line) is None,
        line.quantity is Some && variant_of(line) is Some ==> {
            let quantity = line.quantity->0;
            &&& quantity <= 9 ==> line_discount(line) is None
            &&& 10 <= quantity <= 49 ==> line_discount(line) is Some && line_discount(
                line,
            )->0.percentage == 10
            &&& 50 <= quantity <= 199 ==> line_discount(line) is Some && line_discount(
                line,
            )->0.percentage == 15
            &&& 200 <= quantity ==> line_discount(line) is Some && line_discount(
                line,
            )->0.percentage == 20
        },
        line_discount(line) is Some ==> variant_of(line) == Some(
            line_discount(line)->0.variant_id,
        ),
{
}

/// There are never more discounts than lines.
pub proof fn lemma_line_discounts_length(lines: Seq<LineView>)
    ensures
        line_discounts(lines).len() <= lines.len(),
    decreases lines.len(),
{
    if lines.len() > 0 {
        lemma_line_discounts_length(lines.drop_last());
    }
}

/// Every discount granted belongs to a line of the cart: it is what that
/// line earns, so it names the product variant that the line holds and
/// carries 10, 15 or 20 percent. Discounts come in the order of their lines,
/// at most one for each.
pub proof fn lemma_discounts_belong_to_lines(lines: Seq<LineView>, k: int) -> (i: int)
    requires
        0 <= k < line_discounts(lines).len(),
    ensures
        0 <= i < lines.len(),
        k <= i,
        line_discount(lines[i]) == Some(line_discounts(lines)[k]),
        variant_of(lines[i]) == Some(line_discounts(lines)[k].variant_id),
        line_discounts(lines)[k].percentage == 10 || line_discounts(lines)[k].percentage == 15
            || line_discounts(lines)[k].percentage == 20,
    decreases lines.len(),
{
    let earlier = line_discounts(lines.drop_last());
    lemma_line_discounts_length(lines.drop_last());
    if k < earlier.len() {
        lemma_discounts_belong_to_lines(lines.drop_last(), k)
    } else {
        lines.len() - 1
    }
}

/// Every line that earns a discount is granted it: none is left out, and
/// it stands no later among the discounts than its line among the lines.
pub proof fn lemma_earning_lines_are_granted(lines: Seq<LineView>, i: int) -> (k: int)
    requires
        0 <= i < lines.len(),
        line_discount(lines[i]) is Some,
    ensures
        0 <= k < line_discounts(lines).len(),
        k <= i,
        line_discount(lines[i]) == Some(line_discounts(lines)[k]),
    decreases lines.len(),
{
    lemma_line_discounts_length(lines.drop_last());
    if i == lines.len() - 1 {
        line_discounts(lines.drop_last()).len() as int
    } else {
        lemma_earning_lines_are_granted(lines.drop_last(), i)
    }
}

/// The discounts of a cart are those of its first lines followed by those
/// of the lines after them: lines are taken in order, each by itself.
pub proof fn lemma_line_discounts_concat(first: Seq<LineView>, rest: Seq<LineView>)
    ensures
        line_discounts(first + rest) == line_discounts(first) + line_discounts(rest),
    decreases rest.len(),
{
    if rest.len() == 0 {
        assert(first + rest == first);
        assert(line_discounts(first) + line_discounts(rest) == line_discounts(first));
    } else {
        lemma_line_discounts_concat(first, rest.drop_last());
        assert((first + rest).drop_last() == first + rest.drop_last());
        assert((first + rest).last() == rest.last());
        match line_discount(rest.last()) {
            Some(granted) => {
                let before = line_discounts(first);
                let after = line_discounts(rest.drop_last());
                assert((before + after).push(granted) == before + after.push(granted));
            },
            None => {},
        }
    }
}

/// An input that does not flag the customer as wholesale yields the result
/// without any discount, whatever the quantities of its lines. So does an
/// input without a cart, and one whose cart has no array of lines.
pub proof fn lemma_not_eligible_no_discount(input: JsonView)
    requires
        !decoded_cart(input).has_any_tag || input.member("cart"@) is None || input.member(
            "cart"@,
        )->0.array_member("lines"@) is None,
    ensures
        evaluation(input) == result_tree(Seq::empty()),
{
    if decoded_cart(input).has_any_tag {
        assert(decoded_cart(input).lines =~= Seq::<LineView>::empty());
    }
}

/// Evaluating the same input twice gives the same output: the output
/// depends on nothing but the input.
pub proof fn lemma_evaluation_repeats(
    first_input: JsonValue,
    second_input: JsonValue,
    first: JsonValue,
    second: JsonValue,
)
    requires
        first_input@ == second_input@,
        first@ == evaluation(first_input@),
        second@ == evaluation(second_input@),
    ensures
        first@ == second@,
{
}

/// The tree of a discount is well formed: each of its objects lists its
/// members by ascending key.
pub proof fn lemma_discount_tree_well_formed(discount: VariantDiscountView)
    ensures
        discount_tree(discount).well_formed(),
{
    reveal_strlit("message");
    reveal_strlit("targets");
    reveal_strlit("value");
    lemma_key_before_at("message"@, "targets"@, 0);
    lemma_key_before_at("message"@, "value"@, 0);
    lemma_key_before_at("targets"@, "value"@, 0);
    assert(JsonView::String(discount.variant_id).well_formed());
    assert(JsonView::String(decimal_digits(discount.percentage as nat)).well_formed());
    assert(JsonView::String(discount_message(discount.percentage as nat)).well_formed());
    let id = JsonView::Object(
        seq![MemberView { key: "id"@, value: JsonView::String(discount.variant_id) }],
    );
    assert(id.well_formed());
    let variant = JsonView::Object(seq![MemberView { key: "productVariant"@, value: id }]);
    assert(variant.well_formed());
    let targets = JsonView::Array(seq![variant]);
    assert(targets.well_formed());
    let digits = JsonView::Object(
        seq![
            MemberView {
                key: "value"@,
                value: JsonView::String(decimal_digits(discount.percentage as nat)),
            },
        ],
    );
    assert(digits.well_formed());
    let value = JsonView::Object(seq![MemberView { key: "percentage"@, value: digits }]);
    assert(value.well_formed());
}

/// The tree of a result is well formed: each of its objects lists its
/// members by ascending key.
pub proof fn lemma_result_tree_well_formed(discounts: Seq<VariantDiscountView>)
    ensures
        result_tree(discounts).well_formed(),
{
    reveal_strlit("discountApplicationStrategy");
    reveal_strlit("discounts");
    lemma_key_before_at("discountApplicationStrategy"@, "discounts"@, 8);
    assert(JsonView::String("FIRST"@).well_formed());
    let list = JsonView::Array(discount_trees(discounts));
    assert(list.well_formed()) by {
        assert forall|i: int| 0 <= i < discount_trees(discounts).len() implies (
        #[trigger] discount_trees(discounts)[i]).well_formed() by {
            lemma_discount_tree_well_formed(discounts[i]);
        }
    }
}

} // verus!
