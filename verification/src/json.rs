//! A generic tree of values, as a host hands structured data over when it
//! gives no schema: objects, arrays, strings, numbers, booleans and null.

use crate::views::view_each;
use vstd::prelude::*;

verus! {

/// One node of the tree. An object keeps its members in a fixed order, each
/// under its key. Numbers are whole.
#[derive(Debug, PartialEq)]
pub enum JsonValue {
    Null,
    String(String),
    Number(i64),
    Boolean(bool),
    Object(Vec<Member>),
    Array(Vec<JsonValue>),
}

/// One member of an object: a value under its key.
#[derive(Debug, PartialEq)]
pub struct Member {
    pub key: String,
    pub value: JsonValue,
}

/// The mathematical value of a [`JsonValue`].
pub enum JsonView {
    Null,
    String(Seq<char>),
    Number(int),
    Boolean(bool),
    Object(Seq<MemberView>),
    Array(Seq<JsonView>),
}

/// The mathematical value of a [`Member`].
pub struct MemberView {
    pub key: Seq<char>,
    pub value: JsonView,
}

impl View for Member {
    type V = MemberView;

    open spec fn view(&self) -> MemberView {
        MemberView { key: self.key@, value: self.value@ }
    }
}

impl View for JsonValue {
    type V = JsonView;

    open spec fn view(&self) -> JsonView
        decreases self,
    {
        match self {
            JsonValue::Null => JsonView::Null,
            JsonValue::String(s) => JsonView::String(s@),
            JsonValue::Number(n) => JsonView::Number(*n as int),
            JsonValue::Boolean(b) => JsonView::Boolean(*b),
            JsonValue::Object(members) => JsonView::Object(
                Seq::new(
                    members.len() as nat,
                    |i: int|
                        if 0 <= i < members.len() {
                            MemberView { key: members[i].key@, value: members[i].value@ }
                        } else {
                            MemberView { key: Seq::empty(), value: JsonView::Null }
                        },
                ),
            ),
            JsonValue::Array(items) => JsonView::Array(
                Seq::new(
                    items.len() as nat,
                    |i: int|
                        if 0 <= i < items.len() {
                            items[i]@
                        } else {
                            JsonView::Null
                        },
                ),
            ),
        }
    }
}

/// The value stored under `key` among `members`: that of the first member
/// with that key, if there is one.
pub open spec fn find_member(members: Seq<MemberView>, key: Seq<char>) -> Option<JsonView>
    decreases members.len(),
{
    if members.len() == 0 {
        None
    } else if members[0].key == key {
        Some(members[0].value)
    } else {
        find_member(members.skip(1), key)
    }
}

/// Whether the key `first` sorts before the key `second`: by their first
/// character that differs, or, where one is the beginning of the other, the
/// shorter first. No key sorts before itself.
pub open spec fn key_before(first: Seq<char>, second: Seq<char>) -> bool
    decreases first.len(),
{
    if second.len() == 0 {
        false
    } else if first.len() == 0 {
        true
    } else if first[0] == second[0] {
        key_before(first.skip(1), second.skip(1))
    } else {
        first[0] < second[0]
    }
}

impl JsonView {
    /// Whether every object, at any depth, lists its members by ascending
    /// key, so that no key occurs twice in it: the form in which an ordered
    /// map hands its entries out.
    pub open spec fn well_formed(self) -> bool
        decreases self,
    {
        match self {
            JsonView::Object(members) => {
                &&& forall|i: int, j: int|
                    0 <= i < j < members.len() ==> key_before(
                        #[trigger] members[i].key,
                        #[trigger] members[j].key,
                    )
                &&& forall|i: int|
                    0 <= i < members.len() ==> (#[trigger] members[i]).value.well_formed()
            },
            JsonView::Array(items) => forall|i: int|
                0 <= i < items.len() ==> (#[trigger] items[i]).well_formed(),
            _ => true,
        }
    }

    /// The member of an object under `key`; nothing if this is no object or
    /// the object has no such member.
    pub open spec fn member(self, key: Seq<char>) -> Option<JsonView> {
        match self {
            JsonView::Object(members) => find_member(members, key),
            _ => None,
        }
    }

    /// The member under `key`, if it is a boolean.
    pub open spec fn bool_member(self, key: Seq<char>) -> Option<bool> {
        match self.member(key) {
            Some(JsonView::Boolean(flag)) => Some(flag),
            _ => None,
        }
    }

    /// The member under `key`, if it is a number.
    pub open spec fn number_member(self, key: Seq<char>) -> Option<int> {
        match self.member(key) {
            Some(JsonView::Number(number)) => Some(number),
            _ => None,
        }
    }

    /// The member under `key`, if it is a string.
    pub open spec fn string_member(self, key: Seq<char>) -> Option<Seq<char>> {
        match self.member(key) {
            Some(JsonView::String(text)) => Some(text),
            _ => None,
        }
    }

    /// The items of the member under `key`, if it is an array.
    pub open spec fn array_member(self, key: Seq<char>) -> Option<Seq<JsonView>> {
        match self.member(key) {
            Some(JsonView::Array(items)) => Some(items),
            _ => None,
        }
    }

    /// The member under `key`, if it is an object.
    pub open spec fn object_member(self, key: Seq<char>) -> Option<JsonView> {
        match self.member(key) {
            Some(JsonView::Object(members)) => Some(JsonView::Object(members)),
            _ => None,
        }
    }
}

impl JsonValue {
    /// Looks up the member of an object under `key`. A value that is no
    /// object has no members.
    pub fn get(&self, key: &str) -> (found: Option<&JsonValue>)
        ensures
            match found {
                Some(value) => self@.member(key@) == Some(value@),
                None => self@.member(key@) is None,
            },
    {
        match self {
            JsonValue::Object(members) => {
                let wanted: String = key.to_owned();
                let ghost all = self@->Object_0;
                proof {
                    assert(all.skip(0) =~= all);
                }
                let mut i: usize = 0;
                while i < members.len()
                    invariant
                        i <= members.len(),
                        wanted@ == key@,
                        self@ == JsonView::Object(all),
                        all.len() == members.len(),
                        forall|j: int|
                            0 <= j < members.len() ==> #[trigger] all[j] == (MemberView {
                                key: members[j].key@,
                                value: members[j].value@,
                            }),
                        find_member(all, key@) == find_member(all.skip(i as int), key@),
                    decreases members.len() - i,
                {
                    proof {
                        assert(all.skip(i as int).skip(1) =~= all.skip(i as int + 1));
                        assert(all.skip(i as int)[0] == all[i as int]);
                    }
                    if members[i].key == wanted {
                        return Some(&members[i].value);
                    }
                    i = i + 1;
                }
                proof {
                    assert(all.skip(i as int).len() == 0);
                }
                None
            },
            _ => None,
        }
    }

    /// Reads the member under `key` as a boolean. A member of another kind
    /// counts as missing.
    pub fn bool_member(&self, key: &str) -> (found: Option<bool>)
        ensures
            found == self@.bool_member(key@),
    {
        match self.get(key) {
            Some(JsonValue::Boolean(flag)) => Some(*flag),
            _ => None,
        }
    }

    /// Reads the member under `key` as a number. A member of another kind
    /// counts as missing.
    pub fn number_member(&self, key: &str) -> (found: Option<i64>)
        ensures
            match found {
                Some(number) => self@.number_member(key@) == Some(number as int),
                None => self@.number_member(key@) is None,
            },
    {
        match self.get(key) {
            Some(JsonValue::Number(number)) => Some(*number),
            _ => None,
        }
    }

    /// Reads the member under `key` as a string. A member of another kind
    /// counts as missing.
    pub fn string_member(&self, key: &str) -> (found: Option<&String>)
        ensures
            match found {
                Some(text) => self@.string_member(key@) == Some(text@),
                None => self@.string_member(key@) is None,
            },
    {
        match self.get(key) {
            Some(JsonValue::String(text)) => Some(text),
            _ => None,
        }
    }

    /// Reads the member under `key` as an array. A member of another kind
    /// counts as missing.
    pub fn array_member(&self, key: &str) -> (found: Option<&Vec<JsonValue>>)
        ensures
            match found {
                Some(items) => self@.array_member(key@) == Some(view_each(items@)),
                None => self@.array_member(key@) is None,
            },
    {
        match self.get(key) {
            Some(JsonValue::Array(items)) => {
                assert(JsonValue::Array(*items)@->Array_0 =~= view_each(items@));
                Some(items)
            },
            _ => None,
        }
    }

    /// Reads the member under `key` as an object. A member of another kind
    /// counts as missing.
    pub fn object_member(&self, key: &str) -> (found: Option<&JsonValue>)
        ensures
            match found {
                Some(object) => self@.object_member(key@) == Some(object@),
                None => self@.object_member(key@) is None,
            },
    {
        match self.get(key) {
            Some(value) => match value {
                JsonValue::Object(_) => Some(value),
                _ => None,
            },
            None => None,
        }
    }

    /// Makes an object of the given members, in their order.
    pub fn object(members: Vec<Member>) -> (tree: JsonValue)
        ensures
            tree@ == JsonView::Object(view_each(members@)),
    {
        let tree = JsonValue::Object(members);
        assert(tree@->Object_0 =~= view_each(members@));
        tree
    }

    /// Makes an array of the given items, in their order.
    pub fn array(items: Vec<JsonValue>) -> (tree: JsonValue)
        ensures
            tree@ == JsonView::Array(view_each(items@)),
    {
        let tree = JsonValue::Array(items);
        assert(tree@->Array_0 =~= view_each(items@));
        tree
    }

    /// Makes a string.
    pub fn string(text: &str) -> (tree: JsonValue)
        ensures
            tree@ == JsonView::String(text@),
    {
        JsonValue::String(text.to_owned())
    }
}

impl Member {
    /// Makes a member: `value` under `key`.
    pub fn new(key: &str, value: JsonValue) -> (member: Member)
        ensures
            member@ == (MemberView { key: key@, value: value@ }),
    {
        Member { key: key.to_owned(), value }
    }
}

/// What a lookup finds is the first member under that key: one member has
/// the key and the value found, and none before it has the key. A lookup
/// finds nothing only where no member has the key.
pub proof fn lemma_find_member(members: Seq<MemberView>, key: Seq<char>) -> (at: int)
    ensures
        match find_member(members, key) {
            Some(value) => {
                &&& 0 <= at < members.len()
                &&& members[at].key == key
                &&& members[at].value == value
                &&& forall|j: int| 0 <= j < at ==> (#[trigger] members[j]).key != key
            },
            None => forall|j: int| 0 <= j < members.len() ==> (#[trigger] members[j]).key != key,
        },
    decreases members.len(),
{
    if members.len() == 0 {
        0
    } else if members[0].key == key {
        0
    } else {
        let rest = members.skip(1);
        let at_rest = lemma_find_member(rest, key);
        assert forall|j: int| 0 < j < members.len() implies members[j] == rest[j - 1] by {}
        match find_member(rest, key) {
            Some(_) => {
                assert forall|j: int| 0 <= j < at_rest + 1 implies (#[trigger] members[j]).key
                    != key by {
                    if j > 0 {
                        assert(members[j] == rest[j - 1]);
                    }
                }
            },
            None => {
                assert forall|j: int| 0 <= j < members.len() implies (#[trigger] members[j]).key
                    != key by {
                    if j > 0 {
                        assert(members[j] == rest[j - 1]);
                    }
                }
            },
        }
        at_rest + 1
    }
}

/// No key sorts before itself, and of two keys at most one sorts before the
/// other.
pub proof fn lemma_key_before_is_strict(first: Seq<char>, second: Seq<char>)
    ensures
        !key_before(first, first),
        !(key_before(first, second) && key_before(second, first)),
    decreases first.len(),
{
    if first.len() > 0 {
        lemma_key_before_is_strict(first.skip(1), first.skip(1));
        if second.len() > 0 {
            lemma_key_before_is_strict(first.skip(1), second.skip(1));
        }
    }
}

/// Two keys that agree up to a place where the first has the smaller
/// character, or where the first ends and the second goes on, are in order.
pub proof fn lemma_key_before_at(first: Seq<char>, second: Seq<char>, place: int)
    requires
        0 <= place <= first.len(),
        place < second.len(),
        forall|i: int| 0 <= i < place ==> first[i] == second[i],
        place == first.len() || first[place] < second[place],
    ensures
        key_before(first, second),
    decreases place,
{
    if place > 0 {
        lemma_key_before_at(first.skip(1), second.skip(1), place - 1);
    }
}

/// In a well-formed object no key occurs twice.
pub proof fn lemma_well_formed_keys_differ(members: Seq<MemberView>, i: int, j: int)
    requires
        JsonView::Object(members).well_formed(),
        0 <= i < members.len(),
        0 <= j < members.len(),
        i != j,
    ensures
        members[i].key != members[j].key,
{
    lemma_key_before_is_strict(members[i].key, members[j].key);
    if i < j {
        assert(key_before(members[i].key, members[j].key));
    } else {
        assert(key_before(members[j].key, members[i].key));
    }
}

/// In a well-formed object a key names at most one member, so a lookup
/// finds the value of the member under that key wherever it stands.
pub proof fn lemma_find_member_in_well_formed(members: Seq<MemberView>, key: Seq<char>, i: int)
    requires
        JsonView::Object(members).well_formed(),
        0 <= i < members.len(),
        members[i].key == key,
    ensures
        find_member(members, key) == Some(members[i].value),
{
    let at = lemma_find_member(members, key);
    if find_member(members, key) is Some && at != i {
        lemma_well_formed_keys_differ(members, at, i);
    }
}

} // verus!
