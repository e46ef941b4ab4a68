//! JSON texts as they are stored with a cipher: reading them, and giving their keys a
//! lower-case first letter.

use crate::json::{
    all_objects, items_view, lemma_members_push, members_view, option_view, Json, JsonView,
};
use vstd::prelude::*;
use vstd::string::{StrSliceExecFns, StringExecFns};

verus! {

/// A JSON value as a reader hands it out: the members of an object in the reader's order.
pub enum RawView {
    Null,
    Bool(bool),
    Number(Seq<char>),
    Text(Seq<char>),
    Array(Seq<RawView>),
    Object(Seq<(Seq<char>, RawView)>),
}

/// A value of `serde_json`.
#[verifier::external_type_specification]
#[verifier::external_body]
pub struct ExValue(serde_json::Value);

/// What a value of `serde_json` holds.
pub uninterp spec fn value_contents(value: serde_json::Value) -> RawView;

/// What `serde_json` reads from a text; nothing where the text is not JSON.
pub uninterp spec fn json_of_text(text: Seq<char>) -> Option<RawView>;

/// The top of a JSON value, with what lies below it still in the reader's form.
pub enum Node {
    Null,
    Bool(bool),
    Number(String),
    Text(String),
    Array(Vec<serde_json::Value>),
    Object(Vec<(String, serde_json::Value)>),
}

impl Node {
    /// What the value holds.
    pub open spec fn contents(self) -> RawView {
        match self {
            Node::Null => RawView::Null,
            Node::Bool(b) => RawView::Bool(b),
            Node::Number(text) => RawView::Number(text@),
            Node::Text(text) => RawView::Text(text@),
            Node::Array(items) => RawView::Array(
                items@.map_values(|item: serde_json::Value| value_contents(item)),
            ),
            Node::Object(members) => RawView::Object(
                members@.map_values(
                    |member: (String, serde_json::Value)| (member.0@, value_contents(member.1)),
                ),
            ),
        }
    }
}

/// Reads a JSON text with `serde_json::from_str`. Claimed: whether there is a value, and what
/// it holds, depends on the text alone.
#[verifier::external_body]
fn read_value(text: &str) -> (value: Option<serde_json::Value>)
    ensures
        (match value {
            Some(value) => Some(value_contents(value)),
            None => None,
        }) == json_of_text(text@),
{
    serde_json::from_str::<serde_json::Value>(text).ok()
}

/// Tells the variants of `serde_json::Value` apart. Claimed: the node holds what the value
/// holds, a number by its `Display` text and an object by its members in the order in which
/// `serde_json::Map` hands them out.
#[verifier::external_body]
fn open_value(value: serde_json::Value) -> (node: Node)
    ensures
        node.contents() == value_contents(value),
{
    match value {
        serde_json::Value::Null => Node::Null,
        serde_json::Value::Bool(b) => Node::Bool(b),
        serde_json::Value::Number(number) => Node::Number(number.to_string()),
        serde_json::Value::String(text) => Node::Text(text),
        serde_json::Value::Array(items) => Node::Array(items),
        serde_json::Value::Object(members) => Node::Object(members.into_iter().collect()),
    }
}

/// The members of an object of the library, in their order.
pub open spec fn raw_members(members: Seq<(String, Json)>) -> Seq<(Seq<char>, RawView)>
    decreases members,
{
    Seq::new(
        members.len(),
        |i: int|
            if 0 <= i < members.len() {
                (members[i].0@, raw(members[i].1))
            } else {
                (Seq::empty(), RawView::Null)
            },
    )
}

/// The items of an array of the library.
pub open spec fn raw_items(items: Seq<Json>) -> Seq<RawView>
    decreases items,
{
    Seq::new(
        items.len(),
        |i: int|
            if 0 <= i < items.len() {
                raw(items[i])
            } else {
                RawView::Null
            },
    )
}

/// A value of the library with the order of its members.
pub open spec fn raw(json: Json) -> RawView
    decreases json,
{
    match json {
        Json::Null => RawView::Null,
        Json::Bool(b) => RawView::Bool(b),
        Json::Number(text) => RawView::Number(text@),
        Json::Text(text) => RawView::Text(text@),
        Json::Array(items) => RawView::Array(raw_items(items@)),
        Json::Object(members) => RawView::Object(raw_members(members@)),
    }
}

/// Brings a value of `serde_json` into the library's form.
fn json_of_value(value: serde_json::Value) -> (json: Json)
    ensures
        raw(json) == value_contents(value),
    decreases value_contents(value),
{
    let ghost contents = value_contents(value);
    match open_value(value) {
        Node::Null => Json::Null,
        Node::Bool(b) => Json::Bool(b),
        Node::Number(text) => Json::Number(text),
        Node::Text(text) => Json::Text(text),
        Node::Array(items) => {
            let ghost all = items@;
            let mut items = items;
            let mut converted: Vec<Json> = Vec::new();
            while items.len() > 0
                invariant
                    converted@.len() + items@.len() == all.len(),
                    items@ == all.skip(converted@.len() as int),
                    contents == value_contents(value),
                    contents == (RawView::Array(
                        all.map_values(|item: serde_json::Value| value_contents(item)),
                    )),
                    forall|j: int|
                        0 <= j < converted@.len() ==> raw(#[trigger] converted@[j])
                            == value_contents(all[j]),
                decreases items@.len(),
            {
                let ghost i = converted@.len() as int;
                let item = items.remove(0);
                assert(item == all[i]);
                assert(decreases_to!(contents => contents->Array_0));
                assert(decreases_to!(contents->Array_0 => contents->Array_0[i]));
                converted.push(json_of_value(item));
                assert(items@ =~= all.skip(i + 1));
            }
            assert(raw_items(converted@) =~= all.map_values(
                |item: serde_json::Value| value_contents(item),
            ));
            Json::Array(converted)
        },
        Node::Object(members) => {
            let ghost all = members@;
            let mut members = members;
            let mut converted: Vec<(String, Json)> = Vec::new();
            while members.len() > 0
                invariant
                    converted@.len() + members@.len() == all.len(),
                    members@ == all.skip(converted@.len() as int),
                    contents == value_contents(value),
                    contents == (RawView::Object(
                        all.map_values(
                            |member: (String, serde_json::Value)|
                                (member.0@, value_contents(member.1)),
                        ),
                    )),
                    forall|j: int|
                        #![trigger converted@[j]]
                        0 <= j < converted@.len() ==> converted@[j].0@ == all[j].0@ && raw(
                            converted@[j].1,
                        ) == value_contents(all[j].1),
                decreases members@.len(),
            {
                let ghost i = converted@.len() as int;
                let member = members.remove(0);
                assert(member == all[i]);
                assert(decreases_to!(contents => contents->Object_0));
                assert(decreases_to!(contents->Object_0 => contents->Object_0[i]));
                assert(decreases_to!(contents->Object_0[i] => contents->Object_0[i].1));
                let json = json_of_value(member.1);
                converted.push((member.0, json));
                assert(members@ =~= all.skip(i + 1));
            }
            assert(raw_members(converted@) =~= all.map_values(
                |member: (String, serde_json::Value)| (member.0@, value_contents(member.1)),
            ));
            Json::Object(converted)
        },
    }
}

/// The lower-case form of a character outside of ASCII.
pub uninterp spec fn unicode_lower_case(c: char) -> Seq<char>;

/// The lower-case form of a character.
pub open spec fn lower_case(c: char) -> Seq<char> {
    if 'A' <= c <= 'Z' {
        seq![(c as u32 + 32) as char]
    } else if (c as u32) < 128 {
        seq![c]
    } else {
        unicode_lower_case(c)
    }
}

/// Whether `c` is the letter whose lower-case form is `lower`.
pub open spec fn is_letter(c: char, lower: char) -> bool {
    c == lower || c as u32 + 32 == lower as u32
}

/// Whether the key is the social security number of an identity, in whatever case.
pub open spec fn is_ssn_key(key: Seq<char>) -> bool {
    &&& key.len() == 3
    &&& is_letter(key[0], 's')
    &&& is_letter(key[1], 's')
    &&& is_letter(key[2], 'n')
}

/// The key with a lower-case first letter. The social security number, which is also spelled
/// in capitals throughout, is lower-cased throughout.
pub open spec fn lower_key(key: Seq<char>) -> Seq<char> {
    if is_ssn_key(key) {
        "ssn"@
    } else if key.len() == 0 {
        key
    } else {
        lower_case(key[0]) + key.skip(1)
    }
}

/// The map of the members with their keys in lower case. Where two keys become one, the later
/// member counts.
pub open spec fn lowered_members(members: Seq<(Seq<char>, RawView)>) -> Map<Seq<char>, JsonView>
    decreases members,
{
    if members.len() == 0 {
        Map::empty()
    } else {
        lowered_members(members.drop_last()).insert(
            lower_key(members.last().0),
            lowered(members.last().1),
        )
    }
}

/// The value with all keys, at every depth, in lower case.
pub open spec fn lowered(raw: RawView) -> JsonView
    decreases raw,
{
    match raw {
        RawView::Null => JsonView::Null,
        RawView::Bool(b) => JsonView::Bool(b),
        RawView::Number(text) => JsonView::Number(text),
        RawView::Text(text) => JsonView::Text(text),
        RawView::Array(items) => JsonView::Array(
            Seq::new(
                items.len(),
                |i: int|
                    if 0 <= i < items.len() {
                        lowered(items[i])
                    } else {
                        JsonView::Null
                    },
            ),
        ),
        RawView::Object(members) => JsonView::Object(lowered_members(members)),
    }
}

/// Lower-cases a character with `char::to_lowercase`. Claimed: within ASCII the letters `A` to
/// `Z` become `a` to `z` and the rest stays; elsewhere the result depends on the character
/// alone.
#[verifier::external_body]
fn lower_case_text(c: char) -> (text: String)
    ensures
        'A' <= c <= 'Z' ==> text@ == seq![(c as u32 + 32) as char],
        (c as u32) < 128 && !('A' <= c <= 'Z') ==> text@ == seq![c],
        (c as u32) >= 128 ==> text@ == unicode_lower_case(c),
{
    c.to_lowercase().to_string()
}

/// Whether `c` is the letter whose lower-case form is `lower`.
fn letter(c: char, lower: char) -> (yes: bool)
    requires
        lower as u32 >= 32,
    ensures
        yes == is_letter(c, lower),
{
    c == lower || c as u32 == lower as u32 - 32
}

/// Gives a key a lower-case first letter.
pub fn lower_case_key(key: &str) -> (lower: String)
    ensures
        lower@ == lower_key(key@),
{
    let len = key.unicode_len();
    if len == 3 && letter(key.get_char(0), 's') && letter(key.get_char(1), 's') && letter(
        key.get_char(2),
        'n',
    ) {
        return "ssn".to_owned();
    }
    if len == 0 {
        return key.to_owned();
    }
    let mut lower = lower_case_text(key.get_char(0));
    lower.append(key.substring_char(1, len));
    assert(key@.subrange(1, len as int) =~= key@.skip(1));
    lower
}

proof fn lemma_lowered_members_push(
    members: Seq<(Seq<char>, RawView)>,
    member: (Seq<char>, RawView),
)
    ensures
        lowered_members(members.push(member)) == lowered_members(members).insert(
            lower_key(member.0),
            lowered(member.1),
        ),
{
    assert(members.push(member).drop_last() =~= members);
}

/// Gives all keys of a value, at every depth, a lower-case first letter.
pub fn lower_case_keys(json: &Json) -> (lower: Json)
    ensures
        lower@ == lowered(raw(*json)),
    decreases json,
{
    match json {
        Json::Null => Json::Null,
        Json::Bool(b) => Json::Bool(*b),
        Json::Number(text) => Json::Number(text.clone()),
        Json::Text(text) => Json::Text(text.clone()),
        Json::Array(items) => {
            let mut lower: Vec<Json> = Vec::new();
            let mut i: usize = 0;
            while i < items.len()
                invariant
                    i <= items@.len(),
                    lower@.len() == i,
                    *json == Json::Array(*items),
                    forall|j: int|
                        0 <= j < i ==> (#[trigger] lower@[j])@ == lowered(raw(items@[j])),
                decreases items@.len() - i,
            {
                assert(decreases_to!(*json => json->Array_0));
                assert(decreases_to!(json->Array_0 => json->Array_0@));
                assert(decreases_to!(json->Array_0@ => json->Array_0@[i as int]));
                lower.push(lower_case_keys(&items[i]));
                i = i + 1;
            }
            assert(lowered(raw(*json)) == JsonView::Array(items_view(lower@))) by {
                assert(lowered(raw(*json))->Array_0 =~= items_view(lower@));
            }
            Json::Array(lower)
        },
        Json::Object(members) => {
            let mut lower: Vec<(String, Json)> = Vec::new();
            let mut i: usize = 0;
            let ghost all = raw_members(members@);
            assert(all.take(0) =~= Seq::empty());
            while i < members.len()
                invariant
                    i <= members@.len(),
                    *json == Json::Object(*members),
                    all == raw_members(members@),
                    members_view(lower@) == lowered_members(all.take(i as int)),
                decreases members@.len() - i,
            {
                assert(decreases_to!(*json => json->Object_0));
                assert(decreases_to!(json->Object_0 => json->Object_0@));
                assert(decreases_to!(json->Object_0@ => json->Object_0@[i as int]));
                assert(decreases_to!(json->Object_0@[i as int] => json->Object_0@[i as int].1));
                let key = lower_case_key(members[i].0.as_str());
                let value = lower_case_keys(&members[i].1);
                proof {
                    lemma_members_push(lower@, (key, value));
                    lemma_lowered_members_push(all.take(i as int), all[i as int]);
                    assert(all.take(i + 1) =~= all.take(i as int).push(all[i as int]));
                }
                lower.push((key, value));
                i = i + 1;
            }
            assert(all.take(members@.len() as int) =~= all);
            Json::Object(lower)
        },
    }
}

/// What a text that should hold one object holds, with its keys in lower case.
pub open spec fn object_of(contents: Option<RawView>) -> Option<JsonView> {
    match contents {
        Some(RawView::Object(members)) => Some(lowered(RawView::Object(members))),
        _ => None,
    }
}

/// Whether the value is an object.
pub open spec fn is_object(raw: RawView) -> bool {
    raw is Object
}

/// What a text that should hold a list of objects holds, with their keys in lower case.
pub open spec fn list_of(contents: Option<RawView>) -> Option<Seq<JsonView>> {
    match contents {
        Some(RawView::Array(items)) => if forall|i: int|
            0 <= i < items.len() ==> is_object(#[trigger] items[i]) {
            Some(items.map_values(|item: RawView| lowered(item)))
        } else {
            None
        },
        _ => None,
    }
}

/// The contents of an optional value of the library.
pub open spec fn option_raw(json: Option<Json>) -> Option<RawView> {
    match json {
        Some(json) => Some(raw(json)),
        None => None,
    }
}

/// Reads a JSON text.
pub fn read_json(text: &str) -> (json: Option<Json>)
    ensures
        option_raw(json) == json_of_text(text@),
{
    match read_value(text) {
        Some(value) => Some(json_of_value(value)),
        None => None,
    }
}

/// Takes the one object that a text holds.
pub fn take_object(json: Option<Json>) -> (object: Option<Json>)
    ensures
        option_view(object) == object_of(option_raw(json)),
        object matches Some(object) ==> object@ is Object,
{
    match json {
        Some(json) => match json {
            Json::Object(_) => Some(lower_case_keys(&json)),
            _ => None,
        },
        None => None,
    }
}

/// The models of an optional list of values.
pub open spec fn option_items_view(items: Option<Vec<Json>>) -> Option<Seq<JsonView>> {
    match items {
        Some(items) => Some(items_view(items@)),
        None => None,
    }
}

/// Takes the list of objects that a text holds; one item of another kind spoils the list.
pub fn take_list(json: Option<Json>) -> (list: Option<Vec<Json>>)
    ensures
        option_items_view(list) == list_of(option_raw(json)),
        list matches Some(list) ==> all_objects(items_view(list@)),
{
    match json {
        Some(Json::Array(items)) => {
            let ghost all = raw_items(items@);
            let mut list: Vec<Json> = Vec::new();
            let mut i: usize = 0;
            while i < items.len()
                invariant
                    i <= items@.len(),
                    list@.len() == i,
                    all == raw_items(items@),
                    option_raw(json) == Some(RawView::Array(all)),
                    forall|j: int| 0 <= j < i ==> is_object(#[trigger] all[j]),
                    forall|j: int| 0 <= j < i ==> (#[trigger] list@[j])@ == lowered(all[j]),
                decreases items@.len() - i,
            {
                match &items[i] {
                    Json::Object(_) => {},
                    _ => {
                        assert(!is_object(all[i as int]));
                        return None;
                    },
                }
                list.push(lower_case_keys(&items[i]));
                i = i + 1;
            }
            assert(items_view(list@) =~= all.map_values(|item: RawView| lowered(item)));
            assert forall|j: int| 0 <= j < list@.len() implies (#[trigger] items_view(
                list@,
            )[j]) is Object by {
                assert(is_object(all[j]));
                assert(list@[j]@ == lowered(all[j]));
            }
            Some(list)
        },
        _ => None,
    }
}

/// Reads a text that should hold one object.
pub fn read_object(text: &str) -> (object: Option<Json>)
    ensures
        option_view(object) == object_of(json_of_text(text@)),
        object matches Some(object) ==> object@ is Object,
{
    take_object(read_json(text))
}

/// Reads a text that should hold a list of objects.
pub fn read_list(text: &str) -> (list: Option<Vec<Json>>)
    ensures
        option_items_view(list) == list_of(json_of_text(text@)),
        list matches Some(list) ==> all_objects(items_view(list@)),
{
    take_list(read_json(text))
}

} // verus!
