//! The JSON that clients stored in a cipher, repaired where it would break other clients.

use crate::dates::{rfc3339_reformatted, valid_date, validate_and_format_date, EPOCH_TEXT};
use crate::json::{all_objects, items_view, option_view, Json, JsonView};
use crate::text::{byte_of_text, parse_byte};
use vstd::prelude::*;

verus! {

/// The number that replaces the type of a custom field. A number stays; a text is read as a
/// number; everything else, and a text that is no number, becomes the hidden type 1.
pub open spec fn replaced_type(field_type: Option<JsonView>) -> Option<nat> {
    match field_type {
        Some(JsonView::Number(_)) => None,
        Some(JsonView::Text(text)) => match byte_of_text(text) {
            Some(byte) => Some(byte as nat),
            None => Some(1),
        },
        _ => Some(1),
    }
}

/// The custom field with a number as its type.
pub open spec fn fixed_field(field: JsonView) -> JsonView {
    match replaced_type(field.get("type"@)) {
        Some(number) => field.with("type"@, JsonView::of_nat(number)),
        None => field,
    }
}

/// Gives a custom field a number as its type.
///
/// A type that is a text breaks some clients. The fallback is the hidden type 1, which prevents
/// an accidental disclosure.
pub fn fix_field(field: &Json) -> (fixed: Json)
    requires
        field@ is Object,
    ensures
        fixed@ == fixed_field(field@),
{
    let mut fixed = field.copy();
    let replacement: Option<u8> = match field.get("type") {
        Some(Json::Number(_)) => None,
        Some(Json::Text(text)) => match parse_byte(text.as_str()) {
            Some(byte) => Some(byte),
            None => Some(1),
        },
        _ => Some(1),
    };
    match replacement {
        Some(number) => {
            fixed.set("type", Json::number(number as u64));
        },
        None => {},
    }
    fixed
}

/// Gives all custom fields a number as their type.
pub fn fix_fields(fields: &Vec<Json>) -> (fixed: Vec<Json>)
    requires
        all_objects(items_view(fields@)),
    ensures
        items_view(fixed@) == items_view(fields@).map_values(
            |field: JsonView| fixed_field(field),
        ),
{
    let mut fixed: Vec<Json> = Vec::new();
    let mut i: usize = 0;
    while i < fields.len()
        invariant
            i <= fields@.len(),
            fixed@.len() == i,
            all_objects(items_view(fields@)),
            forall|j: int| 0 <= j < i ==> (#[trigger] fixed@[j])@ == fixed_field(fields@[j]@),
        decreases fields@.len() - i,
    {
        assert(items_view(fields@)[i as int] is Object);
        fixed.push(fix_field(&fields[i]));
        i = i + 1;
    }
    assert(items_view(fixed@) =~= items_view(fields@).map_values(
        |field: JsonView| fixed_field(field),
    ));
    fixed
}

/// Whether an entry of a password history has a password.
pub open spec fn has_password(entry: JsonView) -> bool {
    entry.at("password"@) is Text
}

/// The entry with its date of last use in uniform form; the start of 1970 stands in for a date
/// that is missing or cannot be read.
pub open spec fn dated_entry(entry: JsonView) -> JsonView {
    entry.with(
        "lastUsedDate"@,
        JsonView::Text(
            match entry.at("lastUsedDate"@).text() {
                Some(text) => valid_date(rfc3339_reformatted(text)),
                None => EPOCH_TEXT@,
            },
        ),
    )
}

/// The entries that have a password, with their dates of last use in uniform form.
pub open spec fn fixed_history(history: Seq<JsonView>) -> Seq<JsonView> {
    history.filter(|entry: JsonView| has_password(entry)).map_values(
        |entry: JsonView| dated_entry(entry),
    )
}

/// Gives an entry of a password history a date of last use: the one that was read from it, or
/// the start of 1970.
pub fn date_entry(entry: &Json, date: Option<String>) -> (dated: Json)
    requires
        entry@ is Object,
    ensures
        dated@ == entry@.with(
            "lastUsedDate"@,
            JsonView::Text(
                match date {
                    Some(date) => date@,
                    None => EPOCH_TEXT@,
                },
            ),
        ),
{
    let mut dated = entry.copy();
    let date = match date {
        Some(date) => Json::Text(date),
        None => Json::text(EPOCH_TEXT),
    };
    dated.set("lastUsedDate", date);
    dated
}

/// Checks every entry of a password history and returns those that are valid.
///
/// An entry without a password breaks newer clients and is left out. A date of last use that is
/// missing or invalid becomes the start of 1970.
pub fn fix_history(history: &Vec<Json>) -> (fixed: Vec<Json>)
    requires
        all_objects(items_view(history@)),
    ensures
        items_view(fixed@) == fixed_history(items_view(history@)),
{
    let ghost all = items_view(history@);
    let ghost pred = |entry: JsonView| has_password(entry);
    let ghost date = |entry: JsonView| dated_entry(entry);
    let mut fixed: Vec<Json> = Vec::new();
    let mut i: usize = 0;
    proof {
        assert(all.take(0) =~= Seq::empty());
        reveal(Seq::filter);
        assert(items_view(fixed@) =~= all.take(0).filter(pred).map_values(date));
    }
    while i < history.len()
        invariant
            i <= history@.len(),
            all == items_view(history@),
            all_objects(all),
            pred == (|entry: JsonView| has_password(entry)),
            date == (|entry: JsonView| dated_entry(entry)),
            items_view(fixed@) == all.take(i as int).filter(pred).map_values(date),
        decreases history@.len() - i,
    {
        let entry = &history[i];
        let ghost before = fixed@;
        assert(all[i as int] == entry@);
        if entry.text_at("password").is_some() {
            let used = match entry.text_at("lastUsedDate") {
                Some(text) => Some(validate_and_format_date(text)),
                None => None,
            };
            let dated = date_entry(entry, used);
            fixed.push(dated);
            assert(items_view(fixed@) =~= items_view(before).push(dated@));
        }
        proof {
            all.take(i as int).lemma_filter_push(entry@, pred);
            assert(all.take(i + 1) =~= all.take(i as int).push(entry@));
            assert(items_view(fixed@) =~= all.take(i + 1).filter(pred).map_values(date));
        }
        i = i + 1;
    }
    assert(all.take(all.len() as int) =~= all);
    fixed
}

/// The URI of a login with a match value that is no text: a text is read as a number, and
/// becomes null where it is none.
pub open spec fn fixed_uri(uri: JsonView) -> JsonView {
    match uri.at("match"@).text() {
        Some(text) => uri.with(
            "match"@,
            match byte_of_text(text) {
                Some(byte) => JsonView::of_nat(byte as nat),
                None => JsonView::Null,
            },
        ),
        None => uri,
    }
}

/// Gives the URI of a login a match value that is no text.
pub fn fix_uri(uri: &Json) -> (fixed: Json)
    ensures
        fixed@ == fixed_uri(uri@),
{
    let mut fixed = uri.copy();
    match uri.text_at("match") {
        Some(text) => {
            let value = match parse_byte(text) {
                Some(byte) => Json::number(byte as u64),
                None => Json::Null,
            };
            fixed.set("match", value);
        },
        None => {},
    }
    fixed
}

/// The data of a login with its first URI under `uri`, and with a `uris` member in any case.
pub open spec fn login_uris(data: JsonView) -> JsonView {
    let blank = data.with("uri"@, JsonView::Null);
    let listed = blank.with("uris"@, blank.at("uris"@));
    match blank.at("uris"@) {
        JsonView::Array(uris) => if uris.len() > 0 {
            let fixed = uris.map_values(|uri: JsonView| fixed_uri(uri));
            listed.with("uris"@, JsonView::Array(fixed)).with("uri"@, fixed[0].at("uri"@))
        } else {
            listed
        },
        _ => listed,
    }
}

/// The data of a login, with the date of the last password change in uniform form.
pub open spec fn login_data(data: JsonView) -> JsonView {
    let listed = login_uris(data);
    match listed.at("passwordRevisionDate"@).text() {
        Some(text) => listed.with(
            "passwordRevisionDate"@,
            JsonView::Text(valid_date(rfc3339_reformatted(text))),
        ),
        None => listed,
    }
}

/// The data of a secure note: what is stored, if its type is a number, else the type 0.
pub open spec fn note_data(data: JsonView) -> JsonView {
    if data.at("type"@) is Number {
        data
    } else {
        JsonView::Object(Map::empty()).with("type"@, JsonView::of_nat(0))
    }
}

/// Whether the value is a text that is not empty.
pub open spec fn is_filled(value: JsonView) -> bool {
    value.text() matches Some(text) && text.len() > 0
}

/// The data of an SSH key: what is stored, if fingerprint, private key and public key are all
/// there, else null.
pub open spec fn ssh_data(data: JsonView) -> JsonView {
    if is_filled(data.at("keyFingerprint"@)) && is_filled(data.at("privateKey"@)) && is_filled(
        data.at("publicKey"@),
    ) {
        data
    } else {
        JsonView::Null
    }
}

/// The data of a cipher, which depends on its type; an empty object where none can be read.
pub open spec fn type_data(atype: i32, data: Option<JsonView>) -> JsonView {
    let data = match data {
        Some(data) => data,
        None => JsonView::Object(Map::empty()),
    };
    if atype == 1 {
        login_data(data)
    } else if atype == 2 {
        note_data(data)
    } else if atype == 5 {
        ssh_data(data)
    } else {
        data
    }
}

/// Puts the first URI of a login under `uri`, which several clients need, after giving all URIs
/// match values that are no texts.
pub fn fix_login_uris(data: Json) -> (fixed: Json)
    requires
        data@ is Object,
    ensures
        fixed@ == login_uris(data@),
        fixed@ is Object,
{
    let ghost blank = data@.with("uri"@, JsonView::Null);
    let mut data = data;
    data.set("uri", Json::Null);
    let mut fixed_uris: Option<Vec<Json>> = None;
    let mut listed = Json::Null;
    match data.get("uris") {
        Some(Json::Array(uris)) => {
            if uris.len() > 0 {
                let mut fixed: Vec<Json> = Vec::new();
                let mut i: usize = 0;
                while i < uris.len()
                    invariant
                        i <= uris@.len(),
                        fixed@.len() == i,
                        forall|j: int|
                            0 <= j < i ==> (#[trigger] fixed@[j])@ == fixed_uri(uris@[j]@),
                    decreases uris@.len() - i,
                {
                    fixed.push(fix_uri(&uris[i]));
                    i = i + 1;
                }
                assert(items_view(fixed@) =~= items_view(uris@).map_values(
                    |uri: JsonView| fixed_uri(uri),
                ));
                fixed_uris = Some(fixed);
            } else {
                listed = Json::Array(Vec::new());
                assert(listed@->Array_0 =~= items_view(uris@));
            }
        },
        Some(other) => {
            listed = other.copy();
        },
        None => {},
    }
    match fixed_uris {
        Some(fixed) => {
            let first = match fixed[0].get("uri") {
                Some(uri) => uri.copy(),
                None => Json::Null,
            };
            assert(items_view(fixed@)[0] == fixed@[0]@);
            data.set("uris", Json::Array(fixed));
            data.set("uri", first);
            proof {
                let all = JsonView::Array(items_view(fixed@));
                assert(blank.with("uris"@, blank.at("uris"@)).with("uris"@, all).members()
                    =~= blank.with("uris"@, all).members());
            }
        },
        None => {
            data.set("uris", listed);
        },
    }
    data
}

/// Repairs the data of a login.
pub fn fix_login(data: Json) -> (fixed: Json)
    requires
        data@ is Object,
    ensures
        fixed@ == login_data(data@),
        fixed@ is Object,
{
    let mut fixed = fix_login_uris(data);
    let revision = match fixed.text_at("passwordRevisionDate") {
        Some(text) => Some(validate_and_format_date(text)),
        None => None,
    };
    match revision {
        Some(date) => {
            fixed.set("passwordRevisionDate", Json::Text(date));
        },
        None => {},
    }
    fixed
}

/// Repairs the data of a secure note; data without a number as its type break clients.
pub fn fix_note(data: Json) -> (fixed: Json)
    requires
        data@ is Object,
    ensures
        fixed@ == note_data(data@),
        fixed@ is Object,
{
    let valid = match data.get("type") {
        Some(Json::Number(_)) => true,
        _ => false,
    };
    if valid {
        data
    } else {
        let mut fixed = Json::object();
        fixed.set("type", Json::number(0));
        fixed
    }
}

/// Whether the member under `key` is a text that is not empty.
fn has_text(data: &Json, key: &str) -> (yes: bool)
    ensures
        yes == is_filled(data@.at(key@)),
{
    match data.text_at(key) {
        Some(text) => !text.is_empty(),
        None => false,
    }
}

/// Repairs the data of an SSH key; incomplete data break clients and become null.
pub fn fix_ssh_key(data: Json) -> (fixed: Json)
    requires
        data@ is Object,
    ensures
        fixed@ == ssh_data(data@),
        fixed@ is Object || fixed@ is Null,
{
    if has_text(&data, "keyFingerprint") && has_text(&data, "privateKey") && has_text(
        &data,
        "publicKey",
    ) {
        data
    } else {
        Json::Null
    }
}

/// Repairs the data of a cipher.
pub fn fix_data(atype: i32, data: Option<Json>) -> (fixed: Json)
    requires
        data matches Some(data) ==> data@ is Object,
    ensures
        fixed@ == type_data(atype, option_view(data)),
        fixed@ is Object || fixed@ is Null,
{
    let data = match data {
        Some(data) => data,
        None => Json::object(),
    };
    if atype == 1 {
        fix_login(data)
    } else if atype == 2 {
        fix_note(data)
    } else if atype == 5 {
        fix_ssh_key(data)
    } else {
        data
    }
}

} // verus!
