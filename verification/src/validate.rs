//! The checks on ciphers that a client sends.

use crate::cipher::Cipher;
use crate::error::{Detail, Error};
use crate::json::{items_view, Json, JsonView};
use crate::text::{decimal, decimal_text};
use vstd::prelude::*;
use vstd::string::StringExecFns;
use vstd::utf8::encode_utf8;

verus! {

/// What a client sends of a cipher, as far as it is checked.
#[derive(Debug)]
pub struct CipherData {
    pub notes: Option<String>,
    pub password_history: Option<Json>,
}

/// The complaint about a password history with an entry whose password is no text.
pub const HISTORY_MESSAGE: &'static str =
    "The password history contains a `null` value. Only strings are allowed.";

/// The complaint about a note that is too long.
pub open spec fn note_message(max_note_size: nat) -> Seq<char> {
    "The field Notes exceeds the maximum encrypted value length of "@ + decimal(max_note_size)
        + " characters."@
}

/// The key under which the complaint about the cipher at a position stands.
pub open spec fn notes_key(index: nat) -> Seq<char> {
    "Ciphers["@ + decimal(index) + "].Notes"@
}

/// Whether the note takes more bytes than it may.
pub open spec fn note_too_long(data: CipherData, max_note_size: nat) -> bool {
    data.notes matches Some(note) && encode_utf8(note@).len() > max_note_size
}

/// Whether the entry of a password history has a password that is no text.
pub open spec fn has_bad_password(entry: JsonView) -> bool {
    entry.get("password"@) matches Some(password) && password !is Text
}

/// Whether one of the entries has a password that is no text.
pub open spec fn has_bad_entry(entries: Seq<JsonView>) -> bool {
    exists|i: int| 0 <= i < entries.len() && has_bad_password(#[trigger] entries[i])
}

/// Whether the password history is a list with an entry whose password is no text.
pub open spec fn has_bad_history(data: CipherData) -> bool {
    &&& data.password_history matches Some(history)
    &&& history@ matches JsonView::Array(entries)
    &&& has_bad_entry(entries)
}

/// The complaint about one cipher. One about the password history takes the place of one about
/// the note.
pub open spec fn complaint(data: CipherData, max_note_size: nat) -> Option<Seq<char>> {
    if has_bad_history(data) {
        Some(HISTORY_MESSAGE@)
    } else if note_too_long(data, max_note_size) {
        Some(note_message(max_note_size))
    } else {
        None
    }
}

/// The complaints about the first `n` ciphers, each under its key.
pub open spec fn complaints(data: Seq<CipherData>, max_note_size: nat, n: nat) -> Map<
    Seq<char>,
    JsonView,
>
    decreases n,
{
    if n == 0 {
        Map::empty()
    } else {
        let before = complaints(data, max_note_size, (n - 1) as nat);
        match complaint(data[n - 1], max_note_size) {
            Some(message) => before.insert(
                notes_key((n - 1) as nat),
                JsonView::Array(seq![JsonView::Text(message)]),
            ),
            None => before,
        }
    }
}

/// The answer to a client whose ciphers gave rise to complaints.
pub open spec fn invalid_answer(complaints: Map<Seq<char>, JsonView>) -> JsonView {
    JsonView::Object(
        map![
            "message"@ => JsonView::Text("The model state is invalid."@),
            "validationErrors"@ => JsonView::Object(complaints),
            "object"@ => JsonView::Text("error"@),
        ],
    )
}

/// Whether no cipher gives rise to a complaint.
pub open spec fn all_acceptable(data: Seq<CipherData>, max_note_size: nat) -> bool {
    forall|i: int| 0 <= i < data.len() ==> complaint(#[trigger] data[i], max_note_size) is None
}

/// The complaint about a note that is too long.
fn note_complaint(max_note_size: usize) -> (message: String)
    ensures
        message@ == note_message(max_note_size as nat),
{
    let mut message =
        "The field Notes exceeds the maximum encrypted value length of ".to_owned();
    message.append(decimal_text(max_note_size as u64).as_str());
    message.append(" characters.");
    message
}

/// Whether a password history is a list with an entry whose password is no text.
fn is_bad_history(data: &CipherData) -> (bad: bool)
    ensures
        bad == has_bad_history(*data),
{
    match &data.password_history {
        Some(Json::Array(entries)) => {
            let ghost all = items_view(entries@);
            let mut i: usize = 0;
            while i < entries.len()
                invariant
                    i <= entries@.len(),
                    all == items_view(entries@),
                    data.password_history == Some(Json::Array(*entries)),
                    forall|j: int| 0 <= j < i ==> !has_bad_password(#[trigger] all[j]),
                decreases entries@.len() - i,
            {
                assert(all[i as int] == entries@[i as int]@);
                match entries[i].get("password") {
                    Some(Json::Text(_)) => {},
                    Some(_) => {
                        assert(has_bad_password(all[i as int]));
                        assert(has_bad_entry(all));
                        assert(data.password_history->0@ == JsonView::Array(all));
                        return true;
                    },
                    None => {},
                }
                i = i + 1;
            }
            false
        },
        _ => false,
    }
}

/// The complaint about one cipher.
fn complain(data: &CipherData, max_note_size: usize) -> (message: Option<String>)
    ensures
        match message {
            Some(message) => complaint(*data, max_note_size as nat) == Some(message@),
            None => complaint(*data, max_note_size as nat) is None,
        },
{
    if is_bad_history(data) {
        return Some(HISTORY_MESSAGE.to_owned());
    }
    match &data.notes {
        Some(note) => if note.as_str().as_bytes().len() > max_note_size {
            Some(note_complaint(max_note_size))
        } else {
            None
        },
        None => None,
    }
}

impl Cipher {
    /// Checks what a client sends of its ciphers: no note may take more than `max_note_size`
    /// bytes, and no entry of a password history may have a password that is no text.
    pub fn validate_cipher_data(cipher_data: &[CipherData], max_note_size: usize) -> (result:
        Result<(), Error>)
        ensures
            result is Ok <==> all_acceptable(cipher_data@, max_note_size as nat),
            result matches Err(error) ==> {
                &&& error.message@ == "Import validation errors"@
                &&& error.detail matches Detail::Body(body)
                &&& body@ == invalid_answer(
                    complaints(cipher_data@, max_note_size as nat, cipher_data@.len()),
                )
            },
    {
        let mut errors = Json::object();
        let mut valid = true;
        let mut i: usize = 0;
        while i < cipher_data.len()
            invariant
                i <= cipher_data@.len(),
                errors@ == JsonView::Object(
                    complaints(cipher_data@, max_note_size as nat, i as nat),
                ),
                valid == (forall|j: int|
                    0 <= j < i ==> complaint(
                        #[trigger] cipher_data@[j],
                        max_note_size as nat,
                    ) is None),
            decreases cipher_data@.len() - i,
        {
            match complain(&cipher_data[i], max_note_size) {
                Some(message) => {
                    let mut key = "Ciphers[".to_owned();
                    key.append(decimal_text(i as u64).as_str());
                    key.append("].Notes");
                    let mut messages: Vec<Json> = Vec::new();
                    messages.push(Json::Text(message));
                    assert(items_view(messages@) =~= seq![JsonView::Text(message@)]);
                    assert(complaint(cipher_data@[i as int], max_note_size as nat) is Some);
                    errors.set(key.as_str(), Json::Array(messages));
                    valid = false;
                },
                None => {},
            }
            i = i + 1;
        }
        if valid {
            return Ok(());
        }
        let mut body = Json::object();
        body.set("message", Json::text("The model state is invalid."));
        body.set("validationErrors", errors);
        body.set("object", Json::text("error"));
        Err(Error { message: "Import validation errors".to_owned(), detail: Detail::Body(body) })
    }
}

} // verus!
