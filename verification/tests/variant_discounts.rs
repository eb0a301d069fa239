use wholesale_pricing::json::{JsonValue, Member};
use wholesale_pricing::variant_discounts::{
    decode_cart, decode_flag, decode_line, decode_merchandise, discount_for_line,
    encode_discount, encode_result, evaluate, no_discount, run, variant_id, Cart, Line,
    Merchandise, VariantDiscount,
};

fn object(members: Vec<(&str, JsonValue)>) -> JsonValue {
    JsonValue::Object(
        members
            .into_iter()
            .map(|(key, value)| Member { key: key.to_string(), value })
            .collect(),
    )
}

fn text(value: &str) -> JsonValue {
    JsonValue::String(value.to_string())
}

fn line_tree(quantity: i64, typename: &str, id: &str) -> JsonValue {
    object(vec![
        ("id", text("gid://shopify/CartLine/1")),
        ("merchandise", object(vec![("__typename", text(typename)), ("id", text(id))])),
        ("quantity", JsonValue::Number(quantity)),
    ])
}

fn input_tree(has_any_tag: JsonValue, lines: JsonValue) -> JsonValue {
    object(vec![(
        "cart",
        object(vec![
            ("buyerIdentity", object(vec![("customer", object(vec![("hasAnyTag", has_any_tag)]))])),
            ("lines", lines),
        ]),
    )])
}

fn discount_tree(variant: &str, percent: &str) -> JsonValue {
    object(vec![
        ("message", text(&format!("Wholesale discount: {}% off", percent))),
        (
            "targets",
            JsonValue::Array(vec![object(vec![(
                "productVariant",
                object(vec![("id", text(variant))]),
            )])]),
        ),
        ("value", object(vec![("percentage", object(vec![("value", text(percent))]))])),
    ])
}

fn result_tree(discounts: Vec<JsonValue>) -> JsonValue {
    object(vec![
        ("discountApplicationStrategy", text("FIRST")),
        ("discounts", JsonValue::Array(discounts)),
    ])
}

#[test]
fn flagged_customer_gets_the_tier_off_the_variant() {
    let input = input_tree(
        JsonValue::Boolean(true),
        JsonValue::Array(vec![line_tree(150, "ProductVariant", "gid://shopify/ProductVariant/9")]),
    );
    let output = run(input);
    assert_eq!(
        output,
        result_tree(vec![discount_tree("gid://shopify/ProductVariant/9", "15")])
    );
}

#[test]
fn decoded_cart_yields_one_discount_of_fifteen_percent() {
    let input = input_tree(
        JsonValue::Boolean(true),
        JsonValue::Array(vec![line_tree(150, "ProductVariant", "gid://shopify/ProductVariant/9")]),
    );
    let discounts = evaluate(&decode_cart(&input));
    assert_eq!(
        discounts,
        vec![VariantDiscount {
            variant_id: "gid://shopify/ProductVariant/9".to_string(),
            percentage: 15
        }]
    );
}

#[test]
fn customer_without_the_flag_gets_the_empty_result() {
    let lines = || JsonValue::Array(vec![line_tree(500, "ProductVariant", "v")]);
    assert_eq!(run(input_tree(JsonValue::Boolean(false), lines())), result_tree(vec![]));
    assert_eq!(run(input_tree(JsonValue::Null, lines())), result_tree(vec![]));
    assert_eq!(run(input_tree(text("true"), lines())), result_tree(vec![]));
    assert_eq!(run(input_tree(JsonValue::Number(1), lines())), result_tree(vec![]));
}

#[test]
fn malformed_input_gets_the_empty_result() {
    let line = || line_tree(500, "ProductVariant", "v");
    let inputs = vec![
        JsonValue::Null,
        JsonValue::Number(3),
        text("cart"),
        JsonValue::Array(vec![]),
        object(vec![]),
        object(vec![("cart", JsonValue::Null)]),
        object(vec![("cart", JsonValue::Array(vec![line()]))]),
        object(vec![("Cart", object(vec![]))]),
        object(vec![("cart", object(vec![("lines", JsonValue::Array(vec![line()]))]))]),
        object(vec![(
            "cart",
            object(vec![
                ("buyerIdentity", JsonValue::Null),
                ("lines", JsonValue::Array(vec![line()])),
            ]),
        )]),
        object(vec![(
            "cart",
            object(vec![
                ("buyerIdentity", object(vec![("customer", JsonValue::Boolean(true))])),
                ("lines", JsonValue::Array(vec![line()])),
            ]),
        )]),
        object(vec![(
            "cart",
            object(vec![
                ("buyerIdentity", object(vec![("customer", object(vec![]))])),
                ("lines", JsonValue::Array(vec![line()])),
            ]),
        )]),
    ];
    for input in inputs {
        assert_eq!(run(input), result_tree(vec![]));
    }
}

#[test]
fn lines_that_are_missing_or_no_array_mean_no_discount() {
    let eligible = |lines: Option<JsonValue>| {
        let mut members = vec![(
            "buyerIdentity",
            object(vec![("customer", object(vec![("hasAnyTag", JsonValue::Boolean(true))]))]),
        )];
        if let Some(lines) = lines {
            members.push(("lines", lines));
        }
        object(vec![("cart", object(members))])
    };
    assert_eq!(run(eligible(None)), result_tree(vec![]));
    assert_eq!(run(eligible(Some(JsonValue::Null))), result_tree(vec![]));
    assert_eq!(run(eligible(Some(line_tree(500, "ProductVariant", "v")))), result_tree(vec![]));
    assert_eq!(run(eligible(Some(JsonValue::Array(vec![])))), result_tree(vec![]));
}

#[test]
fn lines_that_cannot_be_read_are_skipped() {
    let variant = |id: &str| object(vec![("__typename", text("ProductVariant")), ("id", text(id))]);
    let many = || JsonValue::Number(500);
    let lines = JsonValue::Array(vec![
        JsonValue::Null,
        JsonValue::Number(500),
        object(vec![]),
        object(vec![("quantity", many())]),
        object(vec![("quantity", text("500")), ("merchandise", variant("a"))]),
        object(vec![("merchandise", variant("b"))]),
        object(vec![("quantity", many()), ("merchandise", text("c"))]),
        object(vec![("quantity", many()), ("merchandise", object(vec![("id", text("d"))]))]),
        object(vec![
            ("quantity", many()),
            ("merchandise", object(vec![("__typename", text("ProductVariant"))])),
        ]),
        object(vec![
            ("quantity", many()),
            (
                "merchandise",
                object(vec![("__typename", text("ProductVariant")), ("id", JsonValue::Number(7))]),
            ),
        ]),
        line_tree(500, "CustomProduct", "e"),
        line_tree(500, "productvariant", "f"),
        line_tree(9, "ProductVariant", "g"),
        line_tree(500, "ProductVariant", "kept"),
    ]);
    assert_eq!(
        run(input_tree(JsonValue::Boolean(true), lines)),
        result_tree(vec![discount_tree("kept", "20")])
    );
}

#[test]
fn every_band_earns_its_percentage_off_the_variant() {
    let lines = JsonValue::Array(vec![
        line_tree(9, "ProductVariant", "v9"),
        line_tree(10, "ProductVariant", "v10"),
        line_tree(49, "ProductVariant", "v49"),
        line_tree(50, "ProductVariant", "v50"),
        line_tree(199, "ProductVariant", "v199"),
        line_tree(200, "ProductVariant", "v200"),
        line_tree(-10, "ProductVariant", "negative"),
    ]);
    assert_eq!(
        run(input_tree(JsonValue::Boolean(true), lines)),
        result_tree(vec![
            discount_tree("v10", "10"),
            discount_tree("v49", "10"),
            discount_tree("v50", "15"),
            discount_tree("v199", "15"),
            discount_tree("v200", "20"),
        ])
    );
}

#[test]
fn output_keys_stand_in_ascending_order() {
    let output = run(input_tree(
        JsonValue::Boolean(true),
        JsonValue::Array(vec![line_tree(10, "ProductVariant", "v")]),
    ));
    let keys = |tree: &JsonValue| match tree {
        JsonValue::Object(members) => {
            members.iter().map(|member| member.key.clone()).collect::<Vec<String>>()
        }
        _ => panic!("no object"),
    };
    assert_eq!(keys(&output), vec!["discountApplicationStrategy", "discounts"]);
    let discount = &output.array_member("discounts").unwrap()[0];
    assert_eq!(keys(discount), vec!["message", "targets", "value"]);
    let mut sorted = keys(discount);
    sorted.sort();
    assert_eq!(keys(discount), sorted);
}

#[test]
fn percentage_is_written_as_text() {
    let tree = encode_discount(&VariantDiscount { variant_id: "v".to_string(), percentage: 20 });
    let value = tree.object_member("value").unwrap().object_member("percentage").unwrap();
    assert_eq!(value.string_member("value"), Some(&"20".to_string()));
    assert_eq!(value.number_member("value"), None);
    assert_eq!(tree, discount_tree("v", "20"));
}

#[test]
fn empty_result_has_strategy_and_no_discounts() {
    assert_eq!(no_discount(), result_tree(vec![]));
    assert_eq!(encode_result(&vec![]), result_tree(vec![]));
}

#[test]
fn encode_result_keeps_the_order_of_the_discounts() {
    let discounts = vec![
        VariantDiscount { variant_id: "b".to_string(), percentage: 20 },
        VariantDiscount { variant_id: "a".to_string(), percentage: 10 },
    ];
    assert_eq!(
        encode_result(&discounts),
        result_tree(vec![discount_tree("b", "20"), discount_tree("a", "10")])
    );
}

#[test]
fn decode_cart_reads_flag_and_lines() {
    let input = input_tree(
        JsonValue::Boolean(true),
        JsonValue::Array(vec![line_tree(12, "ProductVariant", "v"), JsonValue::Null]),
    );
    assert_eq!(
        decode_cart(&input),
        Cart {
            has_any_tag: true,
            lines: vec![
                Line {
                    quantity: Some(12),
                    merchandise: Some(Merchandise {
                        typename: Some("ProductVariant".to_string()),
                        id: Some("v".to_string()),
                    }),
                },
                Line { quantity: None, merchandise: None },
            ],
        }
    );
}

#[test]
fn decode_cart_of_nothing_is_an_empty_cart() {
    assert_eq!(decode_cart(&JsonValue::Null), Cart { has_any_tag: false, lines: vec![] });
    assert_eq!(decode_cart(&object(vec![])), Cart { has_any_tag: false, lines: vec![] });
}

#[test]
fn decode_flag_follows_buyer_and_customer() {
    let cart = |flag: JsonValue| {
        object(vec![(
            "buyerIdentity",
            object(vec![("customer", object(vec![("hasAnyTag", flag)]))]),
        )])
    };
    assert!(decode_flag(&cart(JsonValue::Boolean(true))));
    assert!(!decode_flag(&cart(JsonValue::Boolean(false))));
    assert!(!decode_flag(&cart(text("yes"))));
    assert!(!decode_flag(&object(vec![])));
    assert!(!decode_flag(&JsonValue::Boolean(true)));
}

#[test]
fn decode_line_leaves_unreadable_fields_absent() {
    assert_eq!(decode_line(&JsonValue::Null), Line { quantity: None, merchandise: None });
    assert_eq!(
        decode_line(&object(vec![
            ("quantity", text("3")),
            ("merchandise", JsonValue::Array(vec![]))
        ])),
        Line { quantity: None, merchandise: None }
    );
    assert_eq!(
        decode_line(&object(vec![
            ("quantity", JsonValue::Number(3)),
            ("merchandise", object(vec![]))
        ])),
        Line { quantity: Some(3), merchandise: Some(Merchandise { typename: None, id: None }) }
    );
    assert_eq!(
        decode_merchandise(&object(vec![("__typename", JsonValue::Number(1)), ("id", text("v"))])),
        Merchandise { typename: None, id: Some("v".to_string()) }
    );
}

#[test]
fn variant_id_needs_the_product_variant_kind() {
    let line = |typename: Option<&str>, id: Option<&str>| Line {
        quantity: Some(100),
        merchandise: Some(Merchandise {
            typename: typename.map(|t| t.to_string()),
            id: id.map(|i| i.to_string()),
        }),
    };
    assert_eq!(variant_id(&line(Some("ProductVariant"), Some("v"))), Some(&"v".to_string()));
    assert_eq!(variant_id(&line(Some("CustomProduct"), Some("v"))), None);
    assert_eq!(variant_id(&line(None, Some("v"))), None);
    assert_eq!(variant_id(&line(Some("ProductVariant"), None)), None);
    assert_eq!(variant_id(&Line { quantity: Some(100), merchandise: None }), None);
}

#[test]
fn discount_for_line_follows_the_standard_schedule_for_variants() {
    let line = |quantity: Option<i64>| Line {
        quantity,
        merchandise: Some(Merchandise {
            typename: Some("ProductVariant".to_string()),
            id: Some("v".to_string()),
        }),
    };
    let granted =
        |percentage: u32| Some(VariantDiscount { variant_id: "v".to_string(), percentage });
    assert_eq!(discount_for_line(&line(None)), None);
    assert_eq!(discount_for_line(&line(Some(9))), None);
    assert_eq!(discount_for_line(&line(Some(10))), granted(10));
    assert_eq!(discount_for_line(&line(Some(50))), granted(15));
    assert_eq!(discount_for_line(&line(Some(200))), granted(20));
}

#[test]
fn evaluate_ignores_the_lines_of_other_customers() {
    let lines = || {
        vec![Line {
            quantity: Some(300),
            merchandise: Some(Merchandise {
                typename: Some("ProductVariant".to_string()),
                id: Some("v".to_string()),
            }),
        }]
    };
    assert_eq!(evaluate(&Cart { has_any_tag: false, lines: lines() }), vec![]);
    assert_eq!(
        evaluate(&Cart { has_any_tag: true, lines: lines() }),
        vec![VariantDiscount { variant_id: "v".to_string(), percentage: 20 }]
    );
}

#[test]
fn running_twice_gives_the_same_output() {
    let make = || {
        input_tree(
            JsonValue::Boolean(true),
            JsonValue::Array(vec![
                line_tree(10, "ProductVariant", "a"),
                line_tree(1, "ProductVariant", "b"),
                line_tree(250, "ProductVariant", "c"),
            ]),
        )
    };
    assert_eq!(run(make()), run(make()));
    assert_eq!(format!("{:?}", run(make())), format!("{:?}", run(make())));
}
