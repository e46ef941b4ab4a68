//! Laws on how stored JSON is repaired.

use crate::content::{
    dated_entry, fixed_field, fixed_history, fixed_uri, has_password, is_filled, login_data,
    login_uris, note_data, ssh_data, type_data,
};
use crate::dates::{rfc3339_micros, rfc3339_parsed};
use crate::json::{all_objects, Json, JsonView};
use crate::seqs::lemma_filter_holds;
use crate::stored::{
    is_letter, is_object, is_ssn_key, list_of, lower_case, lower_key, lowered, lowered_members,
    object_of, raw, raw_items, raw_members, unicode_lower_case, RawView,
};
use crate::text::{
    all_digits, byte_of_text, decimal, digit_char, digits_value, is_digit, unsigned_digits,
};
use vstd::prelude::*;

verus! {

/// The decimal form of a number has at least one character, only digits, and the number as its
/// value.
pub proof fn law_decimal_value(n: nat)
    ensures
        decimal(n).len() > 0,
        all_digits(decimal(n)),
        digits_value(decimal(n)) == n,
    decreases n,
{
    if n < 10 {
        let digits = decimal(n);
        assert(digits.drop_last() =~= Seq::empty());
        assert(digits_value(digits.drop_last()) == 0);
    } else {
        let front = decimal(n / 10);
        law_decimal_value(n / 10);
        let digits = decimal(n);
        assert(digits.drop_last() =~= front);
        assert(digits.last() == digit_char(n % 10));
        assert forall|i: int| 0 <= i < digits.len() implies is_digit(#[trigger] digits[i]) by {
            if i < front.len() {
                assert(digits[i] == front[i]);
            }
        }
    }
}

/// Different numbers have different decimal forms.
pub proof fn law_decimal_is_injective(m: nat, n: nat)
    requires
        decimal(m) == decimal(n),
    ensures
        m == n,
{
    law_decimal_value(m);
    law_decimal_value(n);
}

/// A byte that was written in decimal is read back.
pub proof fn law_byte_is_read_back(byte: u8)
    ensures
        byte_of_text(decimal(byte as nat)) == Some(byte),
{
    law_decimal_value(byte as nat);
    let chars = decimal(byte as nat);
    assert(is_digit(chars[0]));
    assert(unsigned_digits(chars) == chars);
}

/// The type of a custom field that is shown is a number.
pub proof fn law_field_type_is_number(field: JsonView)
    ensures
        fixed_field(field).at("type"@) is Number,
{
}

/// A custom field keeps everything besides its type.
pub proof fn law_field_keeps_the_rest(field: JsonView, key: Seq<char>)
    requires
        field is Object,
        key != "type"@,
    ensures
        fixed_field(field).get(key) == field.get(key),
{
}

/// A type that is a number, or the text of one that a byte holds, is not lost.
pub proof fn law_field_type_survives(field: JsonView, byte: u8)
    requires
        field.at("type"@) == JsonView::of_nat(byte as nat) || field.at("type"@)
            == JsonView::Text(decimal(byte as nat)),
    ensures
        fixed_field(field).at("type"@) == JsonView::of_nat(byte as nat),
{
    law_byte_is_read_back(byte);
}

/// A repaired custom field needs no repair.
pub proof fn law_field_repair_is_final(field: JsonView)
    ensures
        fixed_field(fixed_field(field)) == fixed_field(field),
{
}

/// Every entry of a password history that is shown has a password and a date of last use.
pub proof fn law_history_entries(history: Seq<JsonView>, i: int)
    requires
        0 <= i < fixed_history(history).len(),
    ensures
        fixed_history(history)[i].at("password"@) is Text,
        fixed_history(history)[i].at("lastUsedDate"@) is Text,
{
    let pred = |entry: JsonView| has_password(entry);
    let chosen = history.filter(pred);
    assert(chosen.contains(chosen[i]));
    lemma_filter_holds(history, pred, chosen[i]);
    reveal_strlit("password");
    reveal_strlit("lastUsedDate");
    assert("password"@.len() != "lastUsedDate"@.len());
    assert(fixed_history(history)[i] == dated_entry(chosen[i]));
}

/// Every entry of a password history that has a password is shown.
pub proof fn law_history_is_complete(history: Seq<JsonView>, entry: JsonView)
    requires
        history.contains(entry),
        has_password(entry),
    ensures
        fixed_history(history).contains(dated_entry(entry)),
{
    let pred = |entry: JsonView| has_password(entry);
    let chosen = history.filter(pred);
    lemma_filter_holds(history, pred, entry);
    let i = choose|i: int| 0 <= i < chosen.len() && chosen[i] == entry;
    assert(fixed_history(history)[i] == dated_entry(entry));
}

/// The match value of a URI that is shown is no text.
pub proof fn law_uri_match_is_no_text(uri: JsonView)
    ensures
        fixed_uri(uri).at("match"@) !is Text,
{
}

/// The data of a login that are shown have a `uri` and a `uris` member. No URI has a text as
/// its match value, and `uri` is that of the first, or null where there is none.
pub proof fn law_login_data(data: JsonView)
    requires
        data is Object,
    ensures
        login_data(data).get("uri"@) is Some,
        login_data(data).get("uris"@) is Some,
        match login_data(data).at("uris"@) {
            JsonView::Array(uris) => {
                &&& forall|i: int|
                    0 <= i < uris.len() ==> (#[trigger] uris[i]).at("match"@) !is Text
                &&& login_data(data).at("uri"@) == if uris.len() > 0 {
                    uris[0].at("uri"@)
                } else {
                    JsonView::Null
                }
            },
            _ => login_data(data).at("uri"@) == JsonView::Null,
        },
{
    reveal_strlit("uri");
    reveal_strlit("uris");
    reveal_strlit("passwordRevisionDate");
    assert("uri"@.len() != "uris"@.len());
    assert("uri"@.len() != "passwordRevisionDate"@.len());
    assert("uris"@.len() != "passwordRevisionDate"@.len());
    let listed = login_uris(data);
    assert(login_data(data).at("uris"@) == listed.at("uris"@));
    assert(login_data(data).at("uri"@) == listed.at("uri"@));
    assert(login_data(data).get("uri"@) is Some);
    assert(login_data(data).get("uris"@) is Some);
    match data.at("uris"@) {
        JsonView::Array(uris) => {
            if uris.len() > 0 {
                let fixed = uris.map_values(|uri: JsonView| fixed_uri(uri));
                assert(listed.at("uris"@) == JsonView::Array(fixed));
                assert forall|i: int| 0 <= i < fixed.len() implies (#[trigger] fixed[i]).at(
                    "match"@,
                ) !is Text by {
                    law_uri_match_is_no_text(uris[i]);
                }
            } else {
                assert(listed.at("uris"@) == JsonView::Array(uris));
            }
        },
        _ => {},
    }
}

/// The data of a secure note that are shown have a number as their type.
pub proof fn law_note_type_is_number(data: JsonView)
    ensures
        note_data(data).at("type"@) is Number,
        note_data(note_data(data)) == note_data(data),
{
}

/// The data of an SSH key that are shown are null or have fingerprint, private key and public
/// key.
pub proof fn law_ssh_data_is_complete(data: JsonView)
    ensures
        ssh_data(data) is Null || {
            &&& is_filled(ssh_data(data).at("keyFingerprint"@))
            &&& is_filled(ssh_data(data).at("privateKey"@))
            &&& is_filled(ssh_data(data).at("publicKey"@))
        },
        ssh_data(ssh_data(data)) == ssh_data(data),
{
}

/// The keys of what is read are those of the text with a lower-case first letter.
pub proof fn law_keys_are_lowered(members: Seq<(Seq<char>, RawView)>, key: Seq<char>)
    ensures
        lowered_members(members).contains_key(key) <==> exists|i: int|
            0 <= i < members.len() && lower_key((#[trigger] members[i]).0) == key,
    decreases members.len(),
{
    if members.len() > 0 {
        let front = members.drop_last();
        law_keys_are_lowered(front, key);
        if lower_key(members.last().0) == key {
            assert(lower_key(members[members.len() - 1].0) == key);
        } else if exists|i: int|
            0 <= i < members.len() && lower_key((#[trigger] members[i]).0) == key {
            let i = choose|i: int|
                0 <= i < members.len() && lower_key((#[trigger] members[i]).0) == key;
            assert(front[i] == members[i]);
        } else if lowered_members(front).contains_key(key) {
            let i = choose|i: int|
                0 <= i < front.len() && lower_key((#[trigger] front[i]).0) == key;
            assert(members[i] == front[i]);
        }
    }
}

/// A key that starts with a capital letter starts with the small one afterwards; a key that
/// starts with a small letter stays, unless it is the social security number.
pub proof fn law_first_letter_is_lowered(key: Seq<char>)
    requires
        key.len() > 0,
        !is_ssn_key(key),
    ensures
        'A' <= key[0] <= 'Z' ==> lower_key(key) == key.update(0, (key[0] as u32 + 32) as char),
        'a' <= key[0] <= 'z' ==> lower_key(key) == key,
{
    if 'A' <= key[0] <= 'Z' {
        assert(lower_key(key) =~= key.update(0, (key[0] as u32 + 32) as char));
    }
    if 'a' <= key[0] <= 'z' {
        assert(lower_key(key) =~= key);
    }
}

/// One item that is no object spoils a list.
pub proof fn law_list_holds_objects(contents: Option<RawView>)
    ensures
        match list_of(contents) {
            Some(items) => all_objects(items),
            None => contents matches Some(RawView::Array(items)) ==> exists|i: int|
                0 <= i < items.len() && !is_object(#[trigger] items[i]),
        },
{
    match contents {
        Some(RawView::Array(items)) => {
            if list_of(contents) is Some {
                let list = items.map_values(|item: RawView| lowered(item));
                assert forall|i: int| 0 <= i < list.len() implies (#[trigger]
                list[i]) is Object by {
                    assert(is_object(items[i]));
                }
            }
        },
        _ => {},
    }
}

/// The data of a login are shown with every member as it is stored, or not at all where it is not
/// stored, besides `uri`, `uris` and the date of the last password change.
pub proof fn law_login_keeps_the_rest(stored: Map<Seq<char>, JsonView>, key: Seq<char>)
    requires
        key != "uri"@,
        key != "uris"@,
        key != "passwordRevisionDate"@,
    ensures
        match type_data(1, Some(JsonView::Object(stored))) {
            JsonView::Object(shown) => {
                &&& shown.contains_key(key) == stored.contains_key(key)
                &&& stored.contains_key(key) ==> shown[key] == stored[key]
            },
            _ => false,
        },
{
    assert(type_data(1, Some(JsonView::Object(stored))) == login_data(JsonView::Object(stored)));
}

/// The date of the last password change of a login is shown in uniform form where it is a text;
/// anything else, and its absence, is shown as it is stored.
pub proof fn law_login_revision_date(stored: Map<Seq<char>, JsonView>, text: Seq<char>)
    ensures
        match type_data(1, Some(JsonView::Object(stored))) {
            JsonView::Object(shown) => {
                let key = "passwordRevisionDate"@;
                &&& shown.contains_key(key) == stored.contains_key(key)
                &&& stored.contains_key(key) && stored[key] == JsonView::Text(text) ==> shown[key]
                    == JsonView::Text(
                    match rfc3339_parsed(text) {
                        Some(at) => rfc3339_micros(at.time.secs, at.time.nanos, at.offset),
                        None => "1970-01-01T00:00:00.000000Z"@,
                    },
                )
                &&& stored.contains_key(key) && stored[key] !is Text ==> shown[key] == stored[key]
            },
            _ => false,
        },
{
    reveal_strlit("uri");
    reveal_strlit("uris");
    reveal_strlit("passwordRevisionDate");
    assert("uri"@.len() == 3 && "uris"@.len() == 4 && "passwordRevisionDate"@.len() == 20);
    let data = JsonView::Object(stored);
    assert(type_data(1, Some(data)) == login_data(data));
    assert(login_uris(data).get("passwordRevisionDate"@) == data.get("passwordRevisionDate"@));
}

/// A URI of a login keeps every member besides its match value. A match value that is a text
/// becomes the number that the text spells, or null; any other stays.
pub proof fn law_uri_keeps_the_rest(
    stored: Map<Seq<char>, JsonView>,
    key: Seq<char>,
    text: Seq<char>,
)
    ensures
        match fixed_uri(JsonView::Object(stored)) {
            JsonView::Object(shown) => {
                &&& shown.contains_key(key) == stored.contains_key(key)
                &&& stored.contains_key(key) && (key != "match"@ || stored[key] !is Text)
                    ==> shown[key] == stored[key]
                &&& stored.contains_key("match"@) && stored["match"@] == JsonView::Text(text)
                    ==> shown["match"@] == match byte_of_text(text) {
                    Some(byte) => JsonView::Number(decimal(byte as nat)),
                    None => JsonView::Null,
                }
            },
            _ => false,
        },
        fixed_uri(JsonView::Text(text)) == JsonView::Text(text),
{
}

/// The URIs of a login are shown in their number and order, each repaired; what is no list is
/// shown as it is stored, and as null where it is not stored.
pub proof fn law_login_uris(stored: Map<Seq<char>, JsonView>, i: int)
    ensures
        match type_data(1, Some(JsonView::Object(stored))) {
            JsonView::Object(shown) => {
                &&& shown.contains_key("uris"@)
                &&& !stored.contains_key("uris"@) ==> shown["uris"@] == JsonView::Null
                &&& stored.contains_key("uris"@) ==> match stored["uris"@] {
                    JsonView::Array(uris) => {
                        &&& shown["uris"@] matches JsonView::Array(listed)
                        &&& listed.len() == uris.len()
                        &&& 0 <= i < uris.len() ==> listed[i] == fixed_uri(uris[i])
                    },
                    other => shown["uris"@] == other,
                }
            },
            _ => false,
        },
{
    reveal_strlit("uri");
    reveal_strlit("uris");
    reveal_strlit("passwordRevisionDate");
    assert("uri"@.len() == 3 && "uris"@.len() == 4 && "passwordRevisionDate"@.len() == 20);
    let data = JsonView::Object(stored);
    assert(type_data(1, Some(data)) == login_data(data));
    assert(login_data(data).get("uris"@) == login_uris(data).get("uris"@));
}

/// The `uri` that is shown of a login is that of the first stored URI, whatever else is stored
/// under `uri`; it is null where there is none.
pub proof fn law_login_uri(stored: Map<Seq<char>, JsonView>, uri: Map<Seq<char>, JsonView>)
    ensures
        match type_data(1, Some(JsonView::Object(stored))) {
            JsonView::Object(shown) => {
                &&& shown.contains_key("uri"@)
                &&& stored.contains_key("uris"@) && (stored["uris"@] matches JsonView::Array(uris)
                    && uris.len() > 0 && uris[0] == JsonView::Object(uri)) ==> shown["uri"@]
                    == if uri.contains_key("uri"@) {
                    uri["uri"@]
                } else {
                    JsonView::Null
                }
                &&& !stored.contains_key("uris"@) || (stored["uris"@] matches JsonView::Array(uris)
                    ==> uris.len() == 0) ==> shown["uri"@] == JsonView::Null
            },
            _ => false,
        },
{
    reveal_strlit("uri");
    reveal_strlit("uris");
    reveal_strlit("match");
    reveal_strlit("passwordRevisionDate");
    assert("uri"@.len() == 3 && "uris"@.len() == 4 && "passwordRevisionDate"@.len() == 20);
    assert("match"@.len() == 5);
    let data = JsonView::Object(stored);
    assert(type_data(1, Some(data)) == login_data(data));
    assert(login_data(data).get("uri"@) == login_uris(data).get("uri"@));
    if stored.contains_key("uris"@) && stored["uris"@] is Array {
        let uris = stored["uris"@]->Array_0;
        if uris.len() > 0 && uris[0] == JsonView::Object(uri) {
            assert(fixed_uri(uris[0]).get("uri"@) == uris[0].get("uri"@));
        }
    }
}

/// What stands in the list of URIs and is no object is shown as it is stored; where it comes
/// first, the `uri` that is shown is null.
pub proof fn law_strange_uris(stored: Map<Seq<char>, JsonView>, uri: JsonView)
    requires
        uri !is Object,
    ensures
        fixed_uri(uri) == uri,
        stored.contains_key("uris"@) && (stored["uris"@] matches JsonView::Array(uris)
            && uris.len() > 0 && uris[0] == uri) ==> match type_data(
            1,
            Some(JsonView::Object(stored)),
        ) {
            JsonView::Object(shown) => shown.contains_key("uri"@) && shown["uri"@]
                == JsonView::Null,
            _ => false,
        },
{
    reveal_strlit("uri");
    reveal_strlit("uris");
    reveal_strlit("passwordRevisionDate");
    assert("uri"@.len() == 3 && "uris"@.len() == 4 && "passwordRevisionDate"@.len() == 20);
    let data = JsonView::Object(stored);
    assert(type_data(1, Some(data)) == login_data(data));
    assert(login_data(data).get("uri"@) == login_uris(data).get("uri"@));
}

/// The data of a card or an identity are shown as they are stored, every member unchanged.
pub proof fn law_card_and_identity_are_unchanged(atype: i32, stored: JsonView)
    requires
        atype == 3 || atype == 4,
    ensures
        type_data(atype, Some(stored)) == stored,
{
}

/// Where no data can be read, what is shown is what an empty object gives.
pub proof fn law_unreadable_data_are_empty(atype: i32)
    ensures
        type_data(atype, None) == type_data(atype, Some(JsonView::Object(Map::empty()))),
        atype == 3 || atype == 4 ==> type_data(atype, None) == JsonView::Object(Map::empty()),
{
}

/// The data of a secure note are shown as they are stored where their type is a number; else all
/// that is shown is the type 0.
pub proof fn law_note_data(stored: Map<Seq<char>, JsonView>, key: Seq<char>)
    ensures
        stored.contains_key("type"@) && stored["type"@] is Number ==> type_data(
            2,
            Some(JsonView::Object(stored)),
        ) == JsonView::Object(stored),
        !(stored.contains_key("type"@) && stored["type"@] is Number) ==> match type_data(
            2,
            Some(JsonView::Object(stored)),
        ) {
            JsonView::Object(shown) => {
                &&& shown.contains_key(key) == (key == "type"@)
                &&& shown["type"@] == JsonView::Number(seq!['0'])
            },
            _ => false,
        },
{
    assert(decimal(0) =~= seq!['0']);
}

/// The data of an SSH key are shown as they are stored where fingerprint, private key and public
/// key are texts that are not empty; else nothing of them is shown.
pub proof fn law_ssh_data(stored: Map<Seq<char>, JsonView>)
    ensures
        ({
            let has = |key: Seq<char>|
                stored.contains_key(key) && (stored[key] matches JsonView::Text(text)
                    && text.len() > 0);
            type_data(5, Some(JsonView::Object(stored))) == if has("keyFingerprint"@) && has(
                "privateKey"@,
            ) && has("publicKey"@) {
                JsonView::Object(stored)
            } else {
                JsonView::Null
            }
        }),
{
}

/// A custom field keeps every member besides its type, and has a type in any case: the stored
/// one where that is a number, the number that a text spells, else the hidden type 1.
pub proof fn law_field_is_repaired(
    stored: Map<Seq<char>, JsonView>,
    key: Seq<char>,
    text: Seq<char>,
)
    ensures
        match fixed_field(JsonView::Object(stored)) {
            JsonView::Object(shown) => {
                &&& shown.contains_key("type"@)
                &&& key != "type"@ ==> shown.contains_key(key) == stored.contains_key(key)
                &&& key != "type"@ && stored.contains_key(key) ==> shown[key] == stored[key]
                &&& stored.contains_key("type"@) && stored["type"@] is Number ==> shown["type"@]
                    == stored["type"@]
                &&& stored.contains_key("type"@) && stored["type"@] == JsonView::Text(text)
                    ==> shown["type"@] == match byte_of_text(text) {
                    Some(byte) => JsonView::Number(decimal(byte as nat)),
                    None => JsonView::Number(seq!['1']),
                }
                &&& !stored.contains_key("type"@) || (stored["type"@] !is Number
                    && stored["type"@] !is Text) ==> shown["type"@] == JsonView::Number(seq!['1'])
            },
            _ => false,
        },
{
    assert(decimal(1) =~= seq!['1']);
}

/// An entry behind a password history is shown behind what is shown of the history where its
/// password is a text, and else left out; nothing is shown of an empty history.
pub proof fn law_history_entry_by_entry(
    history: Seq<JsonView>,
    entry: Map<Seq<char>, JsonView>,
)
    ensures
        fixed_history(Seq::empty()) == Seq::<JsonView>::empty(),
        fixed_history(history.push(JsonView::Object(entry))) == if entry.contains_key(
            "password"@,
        ) && entry["password"@] is Text {
            fixed_history(history).push(dated_entry(JsonView::Object(entry)))
        } else {
            fixed_history(history)
        },
{
    let pred = |entry: JsonView| has_password(entry);
    let date = |entry: JsonView| dated_entry(entry);
    reveal(Seq::filter);
    assert(Seq::<JsonView>::empty().filter(pred) =~= Seq::empty());
    assert(fixed_history(Seq::empty()) =~= Seq::<JsonView>::empty());
    let last = JsonView::Object(entry);
    history.lemma_filter_push(last, pred);
    assert(fixed_history(history.push(last)) =~= if pred(last) {
        fixed_history(history).push(dated_entry(last))
    } else {
        fixed_history(history)
    });
}

/// An entry of a password history keeps every member besides its date of last use, which is
/// shown in uniform form where it is a text that can be read, and else as the start of 1970.
pub proof fn law_history_entry_is_dated(
    stored: Map<Seq<char>, JsonView>,
    key: Seq<char>,
    text: Seq<char>,
)
    ensures
        match dated_entry(JsonView::Object(stored)) {
            JsonView::Object(shown) => {
                let date = "lastUsedDate"@;
                &&& key != date ==> shown.contains_key(key) == stored.contains_key(key)
                &&& key != date && stored.contains_key(key) ==> shown[key] == stored[key]
                &&& shown.contains_key(date)
                &&& stored.contains_key(date) && stored[date] == JsonView::Text(text)
                    ==> shown[date] == JsonView::Text(
                    match rfc3339_parsed(text) {
                        Some(at) => rfc3339_micros(at.time.secs, at.time.nanos, at.offset),
                        None => "1970-01-01T00:00:00.000000Z"@,
                    },
                )
                &&& !stored.contains_key(date) || stored[date] !is Text ==> shown[date]
                    == JsonView::Text("1970-01-01T00:00:00.000000Z"@)
            },
            _ => false,
        },
{
}

/// Scalars are read as they stand in the text, and lists item by item.
pub proof fn law_values_are_read_unchanged(
    text: Seq<char>,
    b: bool,
    items: Seq<RawView>,
    i: int,
)
    ensures
        lowered(RawView::Null) == JsonView::Null,
        lowered(RawView::Bool(b)) == JsonView::Bool(b),
        lowered(RawView::Number(text)) == JsonView::Number(text),
        lowered(RawView::Text(text)) == JsonView::Text(text),
        lowered(RawView::Array(items)) matches JsonView::Array(read) && read.len() == items.len()
            && (0 <= i < items.len() ==> read[i] == lowered(items[i])),
{
}

/// An object is read as one that has a member under a key exactly where a member of the text has
/// that key once it is lowered.
pub proof fn law_no_other_members_are_read(
    members: Seq<(Seq<char>, RawView)>,
    key: Seq<char>,
)
    ensures
        match lowered(RawView::Object(members)) {
            JsonView::Object(read) => read.contains_key(key) <==> exists|i: int|
                0 <= i < members.len() && lower_key((#[trigger] members[i]).0) == key,
            _ => false,
        },
{
    law_keys_are_lowered(members, key);
    assert(lowered(RawView::Object(members)) == JsonView::Object(lowered_members(members)));
}

/// A member of an object is read under its lowered key, unless a later member has the same.
pub proof fn law_members_are_read(members: Seq<(Seq<char>, RawView)>, i: int)
    requires
        0 <= i < members.len(),
        forall|j: int|
            i < j < members.len() ==> lower_key((#[trigger] members[j]).0) != lower_key(
                members[i].0,
            ),
    ensures
        match lowered(RawView::Object(members)) {
            JsonView::Object(read) => {
                &&& read.contains_key(lower_key(members[i].0))
                &&& read[lower_key(members[i].0)] == lowered(members[i].1)
            },
            _ => false,
        },
    decreases members.len(),
{
    let front = members.drop_last();
    let read = lowered_members(members);
    assert(lowered(RawView::Object(members)) == JsonView::Object(read));
    if i < members.len() - 1 {
        assert(lower_key(members[members.len() - 1].0) != lower_key(members[i].0));
        assert forall|j: int| i < j < front.len() implies lower_key((#[trigger] front[j]).0)
            != lower_key(front[i].0) by {
            assert(front[j] == members[j]);
        }
        law_members_are_read(front, i);
        assert(lowered(RawView::Object(front)) == JsonView::Object(lowered_members(front)));
    }
}

/// A letter is recognised as the small one and as the capital.
proof fn lemma_letter(c: char, small: char, capital: char)
    requires
        small == 's' && capital == 'S' || small == 'n' && capital == 'N',
    ensures
        is_letter(c, small) <==> c == small || c == capital,
{
    if c as u32 + 32 == small as u32 {
        assert(c as u32 == capital as u32);
        assert(c as int == capital as int);
    }
}

/// Of a key only the first character changes: an ASCII capital becomes small, any other
/// character its lower-case form. The one exception is the social security number, which is
/// small throughout.
pub proof fn law_lowered_key(first: char, rest: Seq<char>)
    ensures
        ({
            let key = seq![first] + rest;
            let ssn = rest.len() == 2 && (first == 's' || first == 'S') && (rest[0] == 's'
                || rest[0] == 'S') && (rest[1] == 'n' || rest[1] == 'N');
            &&& ssn ==> lower_key(key) == seq!['s', 's', 'n']
            &&& !ssn && 'A' <= first <= 'Z' ==> lower_key(key) == seq![
                (first as u32 + 32) as char,
            ] + rest
            &&& !ssn && (first as u32) < 128 && !('A' <= first <= 'Z') ==> lower_key(key) == key
            &&& !ssn && (first as u32) >= 128 ==> lower_key(key) == unicode_lower_case(first)
                + rest
        }),
        lower_key(Seq::empty()) == Seq::<char>::empty(),
{
    let key = seq![first] + rest;
    reveal_strlit("ssn");
    assert("ssn"@ =~= seq!['s', 's', 'n']);
    assert(key.skip(1) =~= rest);
    assert(key[0] == first);
    if rest.len() == 2 {
        assert(key[1] == rest[0] && key[2] == rest[1]);
    }
    lemma_letter(first, 's', 'S');
    if rest.len() == 2 {
        lemma_letter(rest[0], 's', 'S');
        lemma_letter(rest[1], 'n', 'N');
    }
    assert(is_ssn_key(key) == (rest.len() == 2 && (first == 's' || first == 'S') && (rest[0]
        == 's' || rest[0] == 'S') && (rest[1] == 'n' || rest[1] == 'N')));
    if !is_ssn_key(key) {
        assert(lower_key(key) =~= lower_case(first) + rest);
    }
}

/// A text that should hold one object, or a list of objects, is read as what it holds, and not
/// at all where it holds anything else.
pub proof fn law_contents_are_taken(contents: RawView, items: Seq<RawView>, i: int)
    ensures
        contents is Object ==> object_of(Some(contents)) == Some(lowered(contents)),
        contents !is Object ==> object_of(Some(contents)) is None,
        object_of(None) is None,
        contents !is Array ==> list_of(Some(contents)) is None,
        list_of(None) is None,
        0 <= i < items.len() && items[i] !is Object ==> list_of(
            Some(RawView::Array(items)),
        ) is None,
        (forall|j: int| 0 <= j < items.len() ==> (#[trigger] items[j]) is Object) ==> (list_of(
            Some(RawView::Array(items)),
        ) matches Some(list) && list.len() == items.len() && (0 <= i < items.len() ==> list[i]
            == lowered(items[i]))),
{
    if 0 <= i < items.len() && items[i] !is Object {
        assert(!is_object(items[i]));
    }
    if forall|j: int| 0 <= j < items.len() ==> (#[trigger] items[j]) is Object {
        assert forall|j: int| 0 <= j < items.len() implies is_object(#[trigger] items[j]) by {}
    }
}

/// A value of the library is taken for what it holds, member by member in their order.
pub proof fn law_contents_of_values(
    text: String,
    b: bool,
    items: Vec<Json>,
    members: Vec<(String, Json)>,
    i: int,
    j: int,
)
    ensures
        raw(Json::Null) == RawView::Null,
        raw(Json::Bool(b)) == RawView::Bool(b),
        raw(Json::Number(text)) == RawView::Number(text@),
        raw(Json::Text(text)) == RawView::Text(text@),
        raw(Json::Array(items)) matches RawView::Array(taken) && taken.len() == items@.len()
            && (0 <= i < items@.len() ==> taken[i] == raw(items@[i])),
        raw(Json::Object(members)) matches RawView::Object(taken) && taken.len()
            == members@.len() && (0 <= j < members@.len() ==> taken[j] == (
            members@[j].0@,
            raw(members@[j].1),
        )),
{
    if 0 <= i < items@.len() {
        assert(raw_items(items@)[i] == raw(items@[i]));
    }
    if 0 <= j < members@.len() {
        assert(raw_members(members@)[j] == (members@[j].0@, raw(members@[j].1)));
    }
}

} // verus!
