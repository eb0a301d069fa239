use wholesale_pricing::json::{JsonValue, Member};

fn sample() -> JsonValue {
    JsonValue::object(vec![
        Member::new("flag", JsonValue::Boolean(true)),
        Member::new("count", JsonValue::Number(42)),
        Member::new("name", JsonValue::string("widget")),
        Member::new("items", JsonValue::array(vec![JsonValue::Number(1), JsonValue::Null])),
        Member::new("inner", JsonValue::object(vec![Member::new("deep", JsonValue::Null)])),
        Member::new("nothing", JsonValue::Null),
    ])
}

#[test]
fn get_finds_a_member_by_its_key() {
    let tree = sample();
    assert_eq!(tree.get("count"), Some(&JsonValue::Number(42)));
    assert_eq!(tree.get("nothing"), Some(&JsonValue::Null));
}

#[test]
fn get_finds_nothing_under_an_unknown_key() {
    let tree = sample();
    assert_eq!(tree.get("missing"), None);
    assert_eq!(tree.get("Count"), None);
    assert_eq!(tree.get(""), None);
}

#[test]
fn get_finds_nothing_in_a_value_that_is_no_object() {
    assert_eq!(JsonValue::Null.get("key"), None);
    assert_eq!(JsonValue::Number(1).get("key"), None);
    assert_eq!(JsonValue::string("key").get("key"), None);
    assert_eq!(JsonValue::array(vec![sample()]).get("count"), None);
}

#[test]
fn get_takes_the_first_of_two_members_with_one_key() {
    let tree = JsonValue::object(vec![
        Member::new("key", JsonValue::Number(1)),
        Member::new("key", JsonValue::Number(2)),
    ]);
    assert_eq!(tree.get("key"), Some(&JsonValue::Number(1)));
}

#[test]
fn typed_members_are_read_by_their_kind() {
    let tree = sample();
    assert_eq!(tree.bool_member("flag"), Some(true));
    assert_eq!(tree.number_member("count"), Some(42));
    assert_eq!(tree.string_member("name"), Some(&"widget".to_string()));
    assert_eq!(
        tree.array_member("items"),
        Some(&vec![JsonValue::Number(1), JsonValue::Null])
    );
    assert_eq!(
        tree.object_member("inner"),
        Some(&JsonValue::Object(vec![Member {
            key: "deep".to_string(),
            value: JsonValue::Null
        }]))
    );
}

#[test]
fn a_member_of_another_kind_counts_as_missing() {
    let tree = sample();
    assert_eq!(tree.bool_member("count"), None);
    assert_eq!(tree.number_member("name"), None);
    assert_eq!(tree.string_member("flag"), None);
    assert_eq!(tree.array_member("inner"), None);
    assert_eq!(tree.object_member("items"), None);
    assert_eq!(tree.bool_member("nothing"), None);
    assert_eq!(tree.object_member("missing"), None);
}

#[test]
fn constructors_keep_the_order_given() {
    let tree = JsonValue::object(vec![
        Member::new("b", JsonValue::Number(2)),
        Member::new("a", JsonValue::Number(1)),
    ]);
    assert_eq!(
        tree,
        JsonValue::Object(vec![
            Member { key: "b".to_string(), value: JsonValue::Number(2) },
            Member { key: "a".to_string(), value: JsonValue::Number(1) },
        ])
    );
    assert_eq!(JsonValue::string("text"), JsonValue::String("text".to_string()));
    assert_eq!(
        JsonValue::array(vec![JsonValue::Boolean(false)]),
        JsonValue::Array(vec![JsonValue::Boolean(false)])
    );
}
