//! JSON values: the library's own representation, its mathematical model, and the operations
//! on it.

use crate::text::{decimal, decimal_text, text_view};
use vstd::prelude::*;

verus! {

/// A JSON value. A number is held by its decimal text, an object by its members in the order
/// in which they were added; where a key occurs twice, the later member counts.
#[derive(Debug)]
pub enum Json {
    Null,
    Bool(bool),
    Number(String),
    Text(String),
    Array(Vec<Json>),
    Object(Vec<(String, Json)>),
}

/// The mathematical model of a JSON value: an object is a map from keys to values.
#[verifier::ext_equal]
pub enum JsonView {
    Null,
    Bool(bool),
    Number(Seq<char>),
    Text(Seq<char>),
    Array(Seq<JsonView>),
    Object(Map<Seq<char>, JsonView>),
}

/// The models of a run of values.
pub open spec fn items_view(items: Seq<Json>) -> Seq<JsonView>
    decreases items,
{
    Seq::new(
        items.len(),
        |i: int|
            if 0 <= i < items.len() {
                items[i].view()
            } else {
                JsonView::Null
            },
    )
}

/// The map that a run of members stands for.
pub open spec fn members_view(members: Seq<(String, Json)>) -> Map<Seq<char>, JsonView>
    decreases members,
{
    if members.len() == 0 {
        Map::empty()
    } else {
        members_view(members.drop_last()).insert(members.last().0@, members.last().1.view())
    }
}

/// Whether all values are objects.
pub open spec fn all_objects(items: Seq<JsonView>) -> bool {
    forall|i: int| 0 <= i < items.len() ==> (#[trigger] items[i]) is Object
}

/// The model of an optional value.
pub open spec fn option_view(value: Option<Json>) -> Option<JsonView> {
    match value {
        Some(value) => Some(value.view()),
        None => None,
    }
}

/// The model of an optional reference to a value.
pub open spec fn option_ref_view(value: Option<&Json>) -> Option<JsonView> {
    match value {
        Some(value) => Some(value.view()),
        None => None,
    }
}

impl JsonView {
    /// The member of an object under `key`; nothing in any other value.
    pub open spec fn get(self, key: Seq<char>) -> Option<JsonView> {
        match self {
            JsonView::Object(members) => if members.contains_key(key) {
                Some(members[key])
            } else {
                None
            },
            _ => None,
        }
    }

    /// The member under `key`, or null where there is none.
    pub open spec fn at(self, key: Seq<char>) -> JsonView {
        match self.get(key) {
            Some(value) => value,
            None => JsonView::Null,
        }
    }

    /// The text of a text value.
    pub open spec fn text(self) -> Option<Seq<char>> {
        match self {
            JsonView::Text(chars) => Some(chars),
            _ => None,
        }
    }

    /// The members of an object; none in any other value.
    pub open spec fn members(self) -> Map<Seq<char>, JsonView> {
        match self {
            JsonView::Object(members) => members,
            _ => Map::empty(),
        }
    }

    /// The object with `value` under `key`; null counts as an empty object.
    pub open spec fn with(self, key: Seq<char>, value: JsonView) -> JsonView {
        JsonView::Object(self.members().insert(key, value))
    }

    /// Null for an absent text, else the text.
    pub open spec fn of_text(text: Option<Seq<char>>) -> JsonView {
        match text {
            Some(chars) => JsonView::Text(chars),
            None => JsonView::Null,
        }
    }

    /// The number `n`.
    pub open spec fn of_nat(n: nat) -> JsonView {
        JsonView::Number(decimal(n))
    }
}

impl Json {
    /// The model of the value.
    pub open spec fn view(&self) -> JsonView
        decreases self,
    {
        match self {
            Json::Null => JsonView::Null,
            Json::Bool(b) => JsonView::Bool(*b),
            Json::Number(text) => JsonView::Number(text@),
            Json::Text(text) => JsonView::Text(text@),
            Json::Array(items) => JsonView::Array(items_view(items@)),
            Json::Object(members) => JsonView::Object(members_view(members@)),
        }
    }
}

/// Adding one member adds one entry to the map.
pub proof fn lemma_members_push(members: Seq<(String, Json)>, member: (String, Json))
    ensures
        members_view(members.push(member)) == members_view(members).insert(
            member.0@,
            member.1.view(),
        ),
{
    assert(members.push(member).drop_last() =~= members);
}

/// The member that counts for a key is the last one that has it.
pub proof fn lemma_members_last(members: Seq<(String, Json)>, key: Seq<char>, index: int)
    requires
        -1 <= index < members.len(),
        forall|i: int| index < i < members.len() ==> #[trigger] members[i].0@ != key,
        index >= 0 ==> members[index].0@ == key,
    ensures
        members_view(members).contains_key(key) == (index >= 0),
        index >= 0 ==> members_view(members)[key] == members[index].1.view(),
    decreases members.len(),
{
    if members.len() > 0 && index < members.len() - 1 {
        let front = members.drop_last();
        assert(members[members.len() - 1].0@ != key);
        assert forall|i: int| index < i < front.len() implies #[trigger] front[i].0@ != key by {
            assert(front[i] == members[i]);
        }
        lemma_members_last(front, key, index);
    }
}

/// Replacing the value of the member that counts for a key replaces the key's value.
proof fn lemma_members_update(
    members: Seq<(String, Json)>,
    index: int,
    member: (String, Json),
)
    requires
        0 <= index < members.len(),
        members[index].0@ == member.0@,
        forall|i: int| index < i < members.len() ==> #[trigger] members[i].0@ != member.0@,
    ensures
        members_view(members.update(index, member)) == members_view(members).insert(
            member.0@,
            member.1.view(),
        ),
    decreases members.len(),
{
    let updated = members.update(index, member);
    let front = members.drop_last();
    if index == members.len() - 1 {
        assert(updated.drop_last() =~= front);
        assert(members_view(updated) =~= members_view(members).insert(
            member.0@,
            member.1.view(),
        ));
    } else {
        assert(members[members.len() - 1].0@ != member.0@);
        assert(updated.drop_last() =~= front.update(index, member));
        assert forall|i: int| index < i < front.len() implies #[trigger] front[i].0@
            != member.0@ by {
            assert(front[i] == members[i]);
        }
        lemma_members_update(front, index, member);
        assert(members_view(updated) =~= members_view(members).insert(
            member.0@,
            member.1.view(),
        ));
    }
}

/// Finds the member that counts for `key`.
fn find_member(members: &Vec<(String, Json)>, key: &String) -> (index: Option<usize>)
    ensures
        match index {
            Some(i) => {
                &&& i < members@.len()
                &&& members@[i as int].0@ == key@
                &&& forall|j: int|
                    i < j < members@.len() ==> #[trigger] members@[j].0@ != key@
                &&& members_view(members@).contains_key(key@)
                &&& members_view(members@)[key@] == members@[i as int].1.view()
            },
            None => {
                &&& forall|j: int| 0 <= j < members@.len() ==> #[trigger] members@[j].0@ != key@
                &&& !members_view(members@).contains_key(key@)
            },
        },
{
    let mut i: usize = members.len();
    while i > 0
        invariant
            i <= members@.len(),
            forall|j: int| i <= j < members@.len() ==> #[trigger] members@[j].0@ != key@,
        decreases i,
    {
        i = i - 1;
        if members[i].0 == *key {
            proof {
                lemma_members_last(members@, key@, i as int);
            }
            return Some(i);
        }
    }
    proof {
        lemma_members_last(members@, key@, -1);
    }
    None
}

/// Copies a run of values.
pub fn copy_items(items: &Vec<Json>) -> (copies: Vec<Json>)
    ensures
        items_view(copies@) == items_view(items@),
{
    let mut copies: Vec<Json> = Vec::new();
    let mut i: usize = 0;
    while i < items.len()
        invariant
            i <= items@.len(),
            copies@.len() == i,
            forall|j: int| 0 <= j < i ==> (#[trigger] copies@[j])@ == items@[j]@,
        decreases items@.len() - i,
    {
        copies.push(items[i].copy());
        i = i + 1;
    }
    assert(items_view(copies@) =~= items_view(items@));
    copies
}

impl Json {
    /// The member of an object under `key`.
    pub fn get(&self, key: &str) -> (value: Option<&Json>)
        ensures
            option_ref_view(value) == self@.get(key@),
    {
        match self {
            Json::Object(members) => {
                let key = key.to_owned();
                match find_member(members, &key) {
                    Some(i) => Some(&members[i].1),
                    None => None,
                }
            },
            _ => None,
        }
    }

    /// Puts `value` under `key` of an object; null counts as an empty object.
    pub fn set(&mut self, key: &str, value: Json)
        requires
            old(self)@ is Object || old(self)@ is Null,
        ensures
            final(self)@ == old(self)@.with(key@, value@),
    {
        let key = key.to_owned();
        match self {
            Json::Object(members) => {
                let ghost before = members@;
                match find_member(members, &key) {
                    Some(i) => {
                        members[i] = (key, value);
                        proof {
                            lemma_members_update(before, i as int, (key, value));
                        }
                    },
                    None => {
                        members.push((key, value));
                        proof {
                            lemma_members_push(before, (key, value));
                        }
                    },
                }
            },
            _ => {
                let mut members: Vec<(String, Json)> = Vec::new();
                members.push((key, value));
                proof {
                    lemma_members_push(Seq::empty(), (key, value));
                    assert(members@ =~= Seq::<(String, Json)>::empty().push((key, value)));
                }
                *self = Json::Object(members);
            },
        }
    }

    /// The text under `key` of an object.
    pub fn text_at(&self, key: &str) -> (text: Option<&str>)
        ensures
            match text {
                Some(text) => self@.at(key@).text() == Some(text@),
                None => self@.at(key@).text() is None,
            },
    {
        match self.get(key) {
            Some(Json::Text(text)) => Some(text.as_str()),
            _ => None,
        }
    }

    /// The text value.
    pub fn text(text: &str) -> (json: Json)
        ensures
            json@ == JsonView::Text(text@),
    {
        Json::Text(text.to_owned())
    }

    /// Null for an absent text, else the text value.
    pub fn optional_text(text: &Option<String>) -> (json: Json)
        ensures
            json@ == JsonView::of_text(text_view(*text)),
    {
        match text {
            Some(text) => Json::Text(text.clone()),
            None => Json::Null,
        }
    }

    /// The number `n`.
    pub fn number(n: u64) -> (json: Json)
        ensures
            json@ == JsonView::of_nat(n as nat),
    {
        Json::Number(decimal_text(n))
    }

    /// The empty object.
    pub fn object() -> (json: Json)
        ensures
            json@ == JsonView::Object(Map::empty()),
    {
        Json::Object(Vec::new())
    }

    /// An equal value.
    pub fn copy(&self) -> (value: Json)
        ensures
            value@ == self@,
        decreases self,
    {
        match self {
            Json::Null => Json::Null,
            Json::Bool(b) => Json::Bool(*b),
            Json::Number(text) => Json::Number(text.clone()),
            Json::Text(text) => Json::Text(text.clone()),
            Json::Array(items) => {
                let mut copies: Vec<Json> = Vec::new();
                let mut i: usize = 0;
                while i < items.len()
                    invariant
                        i <= items@.len(),
                        copies@.len() == i,
                        *self == Json::Array(*items),
                        forall|j: int| 0 <= j < i ==> (#[trigger] copies@[j])@ == items@[j]@,
                    decreases items@.len() - i,
                {
                    assert(decreases_to!(*self => self->Array_0));
                    assert(decreases_to!(self->Array_0 => self->Array_0@));
                    assert(decreases_to!(self->Array_0@ => self->Array_0@[i as int]));
                    let copy = items[i].copy();
                    copies.push(copy);
                    i = i + 1;
                }
                assert(items_view(copies@) =~= items_view(items@));
                Json::Array(copies)
            },
            Json::Object(members) => {
                let mut copies: Vec<(String, Json)> = Vec::new();
                let mut i: usize = 0;
                while i < members.len()
                    invariant
                        i <= members@.len(),
                        *self == Json::Object(*members),
                        members_view(copies@) == members_view(members@.take(i as int)),
                    decreases members@.len() - i,
                {
                    assert(decreases_to!(*self => self->Object_0));
                    assert(decreases_to!(self->Object_0 => self->Object_0@));
                    assert(decreases_to!(self->Object_0@ => self->Object_0@[i as int]));
                    assert(decreases_to!(
                        self->Object_0@[i as int] => self->Object_0@[i as int].1));
                    let copy = members[i].1.copy();
                    let key = members[i].0.clone();
                    proof {
                        lemma_members_push(copies@, (key, copy));
                        lemma_members_push(members@.take(i as int), members@[i as int]);
                        assert(members@.take(i + 1) =~= members@.take(i as int).push(
                            members@[i as int],
                        ));
                    }
                    copies.push((key, copy));
                    i = i + 1;
                }
                assert(members@.take(members@.len() as int) =~= members@);
                Json::Object(copies)
            },
        }
    }
}

} // verus!
