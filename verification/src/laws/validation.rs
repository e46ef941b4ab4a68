//! Laws on the checks of ciphers that a client sends.

use crate::json::JsonView;
use crate::laws::content::law_decimal_is_injective;
use crate::text::decimal;
use crate::validate::{
    all_acceptable, complaint, complaints, has_bad_history, has_bad_password, invalid_answer,
    notes_key, CipherData,
};
use vstd::prelude::*;
use vstd::utf8::encode_utf8;

verus! {

/// Complaints about different ciphers stand under different keys.
pub proof fn law_keys_are_distinct(i: nat, j: nat)
    requires
        notes_key(i) == notes_key(j),
    ensures
        i == j,
{
    let head = "Ciphers["@;
    let tail = "].Notes"@;
    let one = notes_key(i);
    let other = notes_key(j);
    assert(one.len() == other.len());
    assert(decimal(i).len() == decimal(j).len());
    assert(decimal(i) =~= one.subrange(head.len() as int, one.len() - tail.len()));
    assert(decimal(j) =~= other.subrange(head.len() as int, other.len() - tail.len()));
    law_decimal_is_injective(i, j);
}

/// No complaint stands under the key of a later cipher.
proof fn lemma_no_later_key(data: Seq<CipherData>, max_note_size: nat, n: nat, i: nat)
    requires
        n <= i,
    ensures
        !complaints(data, max_note_size, n).contains_key(notes_key(i)),
    decreases n,
{
    if n > 0 {
        lemma_no_later_key(data, max_note_size, (n - 1) as nat, i);
        if notes_key((n - 1) as nat) == notes_key(i) {
            law_keys_are_distinct((n - 1) as nat, i);
        }
    }
}

/// Every cipher that gives rise to a complaint has it under its key, and no other has one.
pub proof fn law_every_complaint_is_listed(
    data: Seq<CipherData>,
    max_note_size: nat,
    n: nat,
    i: nat,
)
    requires
        i < n <= data.len(),
    ensures
        match complaint(data[i as int], max_note_size) {
            Some(message) => {
                &&& complaints(data, max_note_size, n).contains_key(notes_key(i))
                &&& complaints(data, max_note_size, n)[notes_key(i)] == JsonView::Array(
                    seq![JsonView::Text(message)],
                )
            },
            None => !complaints(data, max_note_size, n).contains_key(notes_key(i)),
        },
    decreases n,
{
    if i < n - 1 {
        law_every_complaint_is_listed(data, max_note_size, (n - 1) as nat, i);
        if notes_key((n - 1) as nat) == notes_key(i) {
            law_keys_are_distinct((n - 1) as nat, i);
        }
    } else {
        lemma_no_later_key(data, max_note_size, (n - 1) as nat, i);
    }
}

/// Nothing but complaints about ciphers is listed.
pub proof fn law_nothing_else_is_listed(
    data: Seq<CipherData>,
    max_note_size: nat,
    n: nat,
    key: Seq<char>,
) -> (i: nat)
    requires
        n <= data.len(),
        complaints(data, max_note_size, n).contains_key(key),
    ensures
        i < n,
        key == notes_key(i),
        complaint(data[i as int], max_note_size) is Some,
    decreases n,
{
    let before = (n - 1) as nat;
    if complaint(data[n - 1], max_note_size) is Some && key == notes_key(before) {
        before
    } else {
        law_nothing_else_is_listed(data, max_note_size, before, key)
    }
}

/// Whether the note of the cipher takes more bytes than the limit.
pub open spec fn is_long(data: CipherData, limit: nat) -> bool {
    data.notes is Some && encode_utf8(data.notes->0@).len() > limit
}

/// Whether the password history of the cipher is a list whose entry at the position is an object
/// with a password that is no text.
pub open spec fn is_bad_entry(data: CipherData, at: int) -> bool {
    &&& data.password_history is Some
    &&& data.password_history->0@ is Array
    &&& 0 <= at < data.password_history->0@->Array_0.len()
    &&& data.password_history->0@->Array_0[at] is Object
    &&& data.password_history->0@->Array_0[at]->Object_0.contains_key("password"@)
    &&& data.password_history->0@->Array_0[at]->Object_0["password"@] !is Text
}

/// Ciphers are accepted exactly where no note takes more bytes than the limit and no entry of a
/// password history has a password that is no text.
pub proof fn law_what_is_accepted(data: Seq<CipherData>, limit: nat)
    ensures
        all_acceptable(data, limit) <==> forall|i: int|
            #![trigger data[i]]
            0 <= i < data.len() ==> !is_long(data[i], limit) && forall|at: int|
                !#[trigger] is_bad_entry(data[i], at),
{
    if all_acceptable(data, limit) {
        assert forall|i: int| #![trigger data[i]] 0 <= i < data.len() implies !is_long(
            data[i],
            limit,
        ) && forall|at: int| !#[trigger] is_bad_entry(data[i], at) by {
            assert(complaint(data[i], limit) is None);
            law_complaint_about_a_cipher(data[i], limit);
        }
    }
    if forall|i: int|
        #![trigger data[i]]
        0 <= i < data.len() ==> !is_long(data[i], limit) && forall|at: int|
            !#[trigger] is_bad_entry(data[i], at) {
        assert forall|i: int| 0 <= i < data.len() implies complaint(
            #[trigger] data[i],
            limit,
        ) is None by {
            law_complaint_about_a_cipher(data[i], limit);
        }
    }
}

/// A cipher with an entry whose password is no text is refused whatever its note and whatever
/// the limit, and so is one with a note that takes more bytes than the limit, whatever its
/// password history.
pub proof fn law_what_is_refused(data: Seq<CipherData>, limit: nat, i: int, at: int)
    requires
        0 <= i < data.len(),
        is_bad_entry(data[i], at) || is_long(data[i], limit),
    ensures
        !all_acceptable(data, limit),
        complaints(data, limit, data.len()).contains_key(
            "Ciphers["@ + decimal(i as nat) + "].Notes"@,
        ),
{
    law_what_is_accepted(data, limit);
    law_complaint_about_a_cipher(data[i], limit);
    law_every_complaint_is_listed(data, limit, data.len(), i as nat);
    if is_bad_entry(data[i], at) {
        assert(complaint(data[i], limit) is Some);
    }
}

/// What is said about one cipher: a bad entry of its password history comes first, then a note
/// that is too long, with the limit in it, and otherwise there is nothing to say.
pub proof fn law_complaint_about_a_cipher(data: CipherData, limit: nat)
    ensures
        (exists|at: int| #[trigger] is_bad_entry(data, at)) ==> complaint(data, limit) == Some(
            "The password history contains a `null` value. Only strings are allowed."@,
        ),
        (forall|at: int| !#[trigger] is_bad_entry(data, at)) && is_long(data, limit) ==> complaint(
            data,
            limit,
        ) == Some(
            "The field Notes exceeds the maximum encrypted value length of "@ + decimal(limit)
                + " characters."@,
        ),
        (forall|at: int| !#[trigger] is_bad_entry(data, at)) && !is_long(data, limit)
            ==> complaint(data, limit) is None,
{
    if data.password_history is Some && data.password_history->0@ is Array {
        let entries = data.password_history->0@->Array_0;
        assert forall|at: int| 0 <= at < entries.len() implies is_bad_entry(data, at)
            == has_bad_password(#[trigger] entries[at]) by {}
        if exists|at: int| #[trigger] is_bad_entry(data, at) {
            let at = choose|at: int| #[trigger] is_bad_entry(data, at);
            assert(has_bad_password(entries[at]));
        }
        if has_bad_history(data) {
            let at = choose|at: int|
                0 <= at < entries.len() && has_bad_password(#[trigger] entries[at]);
            assert(is_bad_entry(data, at));
        }
    }
}

/// The complaints about ciphers: under the key that names the position of a cipher stands a list
/// of one message, that about the cipher, and nothing stands under any other key.
pub proof fn law_complaints(data: Seq<CipherData>, limit: nat, key: Seq<char>)
    ensures
        complaints(data, limit, data.len()).contains_key(key) <==> exists|i: int|
            #![trigger data[i]]
            0 <= i < data.len() && key == "Ciphers["@ + decimal(i as nat) + "].Notes"@ && (is_long(
                data[i],
                limit,
            ) || exists|at: int| #[trigger] is_bad_entry(data[i], at)),
{
    if complaints(data, limit, data.len()).contains_key(key) {
        let i = law_nothing_else_is_listed(data, limit, data.len(), key);
        law_complaint_about_a_cipher(data[i as int], limit);
    }
    if exists|i: int|
        #![trigger data[i]]
        0 <= i < data.len() && key == "Ciphers["@ + decimal(i as nat) + "].Notes"@ && (is_long(
            data[i],
            limit,
        ) || exists|at: int| #[trigger] is_bad_entry(data[i], at)) {
        let i = choose|i: int|
            #![trigger data[i]]
            0 <= i < data.len() && key == "Ciphers["@ + decimal(i as nat) + "].Notes"@ && (is_long(
                data[i],
                limit,
            ) || exists|at: int| #[trigger] is_bad_entry(data[i], at));
        law_complaint_about_a_cipher(data[i], limit);
        law_every_complaint_is_listed(data, limit, data.len(), i as nat);
    }
}

/// The message under the key of a cipher.
pub proof fn law_message_about_a_cipher(data: Seq<CipherData>, limit: nat, i: int)
    requires
        0 <= i < data.len(),
    ensures
        ({
            let key = "Ciphers["@ + decimal(i as nat) + "].Notes"@;
            let listed = complaints(data, limit, data.len());
            &&& (exists|at: int| #[trigger] is_bad_entry(data[i], at)) ==> listed[key]
                == JsonView::Array(
                seq![
                    JsonView::Text(
                        "The password history contains a `null` value. Only strings are allowed."@,
                    ),
                ],
            )
            &&& (forall|at: int| !#[trigger] is_bad_entry(data[i], at)) && is_long(data[i], limit)
                ==> listed[key] == JsonView::Array(
                seq![
                    JsonView::Text(
                        "The field Notes exceeds the maximum encrypted value length of "@
                            + decimal(limit) + " characters."@,
                    ),
                ],
            )
        }),
{
    law_complaint_about_a_cipher(data[i], limit);
    law_every_complaint_is_listed(data, limit, data.len(), i as nat);
}

/// The answer to a client whose ciphers are refused has three members: what went wrong, the
/// complaints and that this is an error.
pub proof fn law_answer_to_the_client(listed: Map<Seq<char>, JsonView>, key: Seq<char>)
    ensures
        invalid_answer(listed) is Object,
        ({
            let members = invalid_answer(listed)->Object_0;
            &&& members.contains_key(key) <==> key == "message"@ || key == "validationErrors"@
                || key == "object"@
            &&& members["message"@] == JsonView::Text("The model state is invalid."@)
            &&& members["validationErrors"@] == JsonView::Object(listed)
            &&& members["object"@] == JsonView::Text("error"@)
        }),
{
    reveal_strlit("message");
    reveal_strlit("validationErrors");
    reveal_strlit("object");
    assert("message"@.len() == 7);
    assert("validationErrors"@.len() == 16);
    assert("object"@.len() == 6);
}

/// What is acceptable with some limit on notes is acceptable with a higher one.
pub proof fn law_higher_limit_accepts_more(data: Seq<CipherData>, limit: nat, higher: nat)
    requires
        limit <= higher,
        all_acceptable(data, limit),
    ensures
        all_acceptable(data, higher),
{
    assert forall|i: int| 0 <= i < data.len() implies complaint(
        #[trigger] data[i],
        higher,
    ) is None by {
        assert(complaint(data[i], limit) is None);
    }
}

} // verus!
