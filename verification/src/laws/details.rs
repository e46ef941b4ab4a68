//! Laws on a cipher as JSON.

use crate::access::{restrictions, OrgStanding};
use crate::cipher::Cipher;
use crate::content::{fixed_field, fixed_history, type_data};
use crate::dates::{rfc3339_micros, Timestamp};
use crate::details::{
    all_shown, attachments_json, first_failure, folder_json, full_data, id_list, permissions,
    rendered, shared_details, shown_attachments, shown_collections, shown_personal, stored_texts,
    type_key, with_personal, Personal, Texts, TextsView,
};
use crate::error::Error;
use crate::finders::{folder_of, marked_favorite};
use crate::ids::{CollectionId, UserId};
use crate::json::{items_view, Json, JsonView};
use crate::queries::assignable;
use crate::stored::{json_of_text, list_of, object_of};
use crate::sync::{lists_cipher, CipherSyncData, CipherSyncType};
use crate::tables::{Attachment, Tables};
use crate::text::{decimal, text_view};
use vstd::prelude::*;

verus! {

/// The keys of the five types differ from each other.
proof fn lemma_type_keys(one: i32, other: i32)
    requires
        1 <= one <= 5,
        1 <= other <= 5,
        one != other,
    ensures
        type_key(one) != type_key(other),
{
    reveal_strlit("login");
    reveal_strlit("secureNote");
    reveal_strlit("card");
    reveal_strlit("identity");
    reveal_strlit("sshKey");
    assert("login"@.len() == 5 && "secureNote"@.len() == 10 && "card"@.len() == 4);
    assert("identity"@.len() == 8 && "sshKey"@.len() == 6);
}

/// Whether the key is one of those that only the user whose vault it is gets to see.
pub open spec fn is_personal_key(key: Seq<char>) -> bool {
    key == "folderId"@ || key == "favorite"@ || key == "edit"@ || key == "viewPassword"@ || key
        == "permissions"@
}

/// Whether the key is one of those under which the data of some type stand.
pub open spec fn is_type_key(key: Seq<char>) -> bool {
    key == "login"@ || key == "secureNote"@ || key == "card"@ || key == "identity"@ || key
        == "sshKey"@
}

/// No key of a type is one that only the user gets to see.
proof fn lemma_type_key_is_not_personal(key: Seq<char>)
    requires
        is_type_key(key),
    ensures
        !is_personal_key(key),
{
    reveal_strlit("login");
    reveal_strlit("secureNote");
    reveal_strlit("card");
    reveal_strlit("identity");
    reveal_strlit("sshKey");
    reveal_strlit("folderId");
    reveal_strlit("favorite");
    reveal_strlit("edit");
    reveal_strlit("viewPassword");
    reveal_strlit("permissions");
    assert("login"@.len() == 5 && "secureNote"@.len() == 10 && "sshKey"@.len() == 6);
    assert("viewPassword"@.len() == 12 && "permissions"@.len() == 11);
    assert("card"@.len() == 4 && "edit"@.len() == 4);
    assert("identity"@.len() == 8 && "folderId"@.len() == 8 && "favorite"@.len() == 8);
    assert("folderId"@[0] == 'f' && "favorite"@[0] == 'f' && "identity"@[0] == 'i');
    assert("edit"@[0] == 'e' && "card"@[0] == 'c');
}

/// All slots for the data of a type are null before one is filled.
proof fn lemma_slots_are_null(
    cipher: Cipher,
    texts: TextsView,
    attachments: JsonView,
    collections: Seq<CollectionId>,
    key: Seq<char>,
)
    requires
        is_type_key(key),
    ensures
        shared_details(cipher, texts, attachments, collections).get(key) == Some(JsonView::Null),
{
    reveal_strlit("login");
    reveal_strlit("secureNote");
    reveal_strlit("card");
    reveal_strlit("identity");
    reveal_strlit("sshKey");
    assert("login"@.len() == 5 && "secureNote"@.len() == 10 && "card"@.len() == 4);
    assert("identity"@.len() == 8 && "sshKey"@.len() == 6);
}

/// What concerns only the user does not touch other keys.
proof fn lemma_personal_keys(details: JsonView, personal: Option<Personal>, key: Seq<char>)
    requires
        details is Object,
        !is_personal_key(key),
    ensures
        with_personal(details, personal).get(key) == details.get(key),
{
}

/// All types have their slot; only the slot of the cipher's own type holds something.
pub proof fn law_only_own_slot_is_filled(
    cipher: Cipher,
    texts: TextsView,
    attachments: JsonView,
    collections: Seq<CollectionId>,
    personal: Option<Personal>,
    atype: i32,
)
    requires
        1 <= cipher.atype <= 5,
        1 <= atype <= 5,
    ensures
        rendered(cipher, texts, attachments, collections, personal).get(type_key(atype)) == Some(
            if atype == cipher.atype {
                type_data(cipher.atype, texts.data)
            } else {
                JsonView::Null
            },
        ),
{
    let shared = shared_details(cipher, texts, attachments, collections);
    let key = type_key(atype);
    lemma_slots_are_null(cipher, texts, attachments, collections, key);
    lemma_type_key_is_not_personal(key);
    lemma_personal_keys(shared, personal, key);
    if atype != cipher.atype {
        lemma_type_keys(atype, cipher.atype);
    }
}

/// No key that everybody gets to see is one of those for the user alone.
proof fn lemma_shared_has_no_personal_key(
    cipher: Cipher,
    texts: TextsView,
    attachments: JsonView,
    collections: Seq<CollectionId>,
    key: Seq<char>,
)
    requires
        is_personal_key(key),
    ensures
        shared_details(cipher, texts, attachments, collections).get(key) is None,
{
    reveal_strlit("folderId");
    reveal_strlit("favorite");
    reveal_strlit("edit");
    reveal_strlit("viewPassword");
    reveal_strlit("permissions");
    reveal_strlit("object");
    reveal_strlit("id");
    reveal_strlit("type");
    reveal_strlit("creationDate");
    reveal_strlit("revisionDate");
    reveal_strlit("deletedDate");
    reveal_strlit("reprompt");
    reveal_strlit("organizationId");
    reveal_strlit("key");
    reveal_strlit("attachments");
    reveal_strlit("organizationUseTotp");
    reveal_strlit("collectionIds");
    reveal_strlit("name");
    reveal_strlit("notes");
    reveal_strlit("fields");
    reveal_strlit("data");
    reveal_strlit("passwordHistory");
    reveal_strlit("login");
    reveal_strlit("secureNote");
    reveal_strlit("card");
    reveal_strlit("identity");
    reveal_strlit("sshKey");
    assert(key.len() == 8 ==> key[0] == 'f');
    assert(key.len() == 4 ==> key[0] == 'e');
    assert(key.len() == 12 ==> key[0] == 'v');
    assert(key.len() == 11 ==> key[0] == 'p');
    assert("reprompt"@[0] == 'r' && "identity"@[0] == 'i');
    assert("type"@[0] == 't' && "name"@[0] == 'n' && "data"@[0] == 'd' && "card"@[0] == 'c');
    assert("creationDate"@[0] == 'c' && "revisionDate"@[0] == 'r');
    assert("deletedDate"@[0] == 'd' && "attachments"@[0] == 'a');
}

/// In a sync for an organization nothing is said of any user.
pub proof fn law_organizations_see_nothing_personal(
    cipher: Cipher,
    texts: TextsView,
    attachments: JsonView,
    collections: Seq<CollectionId>,
    key: Seq<char>,
)
    requires
        1 <= cipher.atype <= 5,
        is_personal_key(key),
    ensures
        rendered(cipher, texts, attachments, collections, None).get(key) is None,
{
    lemma_shared_has_no_personal_key(cipher, texts, attachments, collections, key);
    lemma_type_key_is_not_personal(type_key(cipher.atype));
}

/// In a sync for a user, folder and favorite are named; the user may edit, delete and restore
/// the cipher exactly where their access is not read-only, and see passwords exactly where they
/// are not hidden.
pub proof fn law_users_see_what_they_may_do(
    cipher: Cipher,
    texts: TextsView,
    attachments: JsonView,
    collections: Seq<CollectionId>,
    personal: Personal,
)
    requires
        1 <= cipher.atype <= 5,
    ensures
        ({
            let json = rendered(cipher, texts, attachments, collections, Some(personal));
            &&& json.get("folderId"@) == Some(folder_json(personal.folder))
            &&& json.get("favorite"@) == Some(JsonView::Bool(personal.favorite))
            &&& json.get("edit"@) == Some(JsonView::Bool(!personal.read_only))
            &&& json.get("viewPassword"@) == Some(JsonView::Bool(!personal.hide_passwords))
            &&& json.at("permissions"@).get("delete"@) == Some(
                JsonView::Bool(!personal.read_only),
            )
            &&& json.at("permissions"@).get("restore"@) == Some(
                JsonView::Bool(!personal.read_only),
            )
        }),
{
    let key = type_key(cipher.atype);
    lemma_type_key_is_not_personal(key);
    reveal_strlit("folderId");
    reveal_strlit("favorite");
    reveal_strlit("edit");
    reveal_strlit("viewPassword");
    reveal_strlit("permissions");
    reveal_strlit("delete");
    reveal_strlit("restore");
    assert("folderId"@[1] == 'o' && "favorite"@[1] == 'a');
    assert("folderId"@.len() == 8 && "favorite"@.len() == 8 && "edit"@.len() == 4);
    assert("viewPassword"@.len() == 12 && "permissions"@.len() == 11);
    assert("delete"@.len() != "restore"@.len());
    let json = rendered(cipher, texts, attachments, collections, Some(personal));
    assert(json.get("permissions"@) == Some(permissions(personal)));
}

/// A user without access to a cipher is shown it as read-only and with hidden passwords.
pub proof fn law_no_access_shows_as_restricted(
    cipher: Cipher,
    user: UserId,
    sync: Option<&CipherSyncData>,
    groups: bool,
    standing: OrgStanding,
    t: &Tables,
)
    requires
        restrictions(cipher, user, sync, groups, standing, t) is None,
    ensures
        ({
            let personal = shown_personal(
                cipher,
                user,
                sync,
                CipherSyncType::User,
                groups,
                standing,
                t,
            );
            personal is Some && personal->0.read_only && personal->0.hide_passwords
        }),
{
}

/// The data of a cipher always have its fields, name, notes and password history, the same as
/// stand beside the data.
pub proof fn law_data_repeat_the_common_parts(
    cipher: Cipher,
    texts: TextsView,
    attachments: JsonView,
    collections: Seq<CollectionId>,
    personal: Option<Personal>,
)
    requires
        1 <= cipher.atype <= 5,
    ensures
        ({
            let json = rendered(cipher, texts, attachments, collections, personal);
            let data = json.at("data"@);
            &&& json.get("fields"@) == Some(JsonView::Array(texts.shown_fields()))
            &&& json.get("name"@) == Some(JsonView::Text(cipher.name@))
            &&& json.get("notes"@) == Some(JsonView::of_text(text_view(cipher.notes)))
            &&& json.get("passwordHistory"@) == Some(JsonView::Array(texts.shown_history()))
            &&& data.get("fields"@) == json.get("fields"@)
            &&& data.get("name"@) == json.get("name"@)
            &&& data.get("notes"@) == json.get("notes"@)
            &&& data.get("passwordHistory"@) == json.get("passwordHistory"@)
        }),
{
    let shared = shared_details(cipher, texts, attachments, collections);
    reveal_strlit("folderId");
    reveal_strlit("favorite");
    reveal_strlit("edit");
    reveal_strlit("viewPassword");
    reveal_strlit("permissions");
    reveal_strlit("name");
    reveal_strlit("notes");
    reveal_strlit("fields");
    reveal_strlit("data");
    reveal_strlit("passwordHistory");
    reveal_strlit("login");
    reveal_strlit("secureNote");
    reveal_strlit("card");
    reveal_strlit("identity");
    reveal_strlit("sshKey");
    assert("name"@.len() == 4 && "name"@[0] == 'n');
    assert("data"@.len() == 4 && "data"@[0] == 'd');
    assert("card"@.len() == 4 && "card"@[0] == 'c');
    assert("edit"@.len() == 4 && "edit"@[0] == 'e');
    assert("notes"@.len() == 5 && "notes"@[0] == 'n');
    assert("login"@.len() == 5 && "login"@[0] == 'l');
    assert("fields"@.len() == 6 && "fields"@[0] == 'f');
    assert("sshKey"@.len() == 6 && "sshKey"@[0] == 's');
    assert("passwordHistory"@.len() == 15);
    assert(shared.get("data"@) == Some(full_data(cipher, texts)));
    assert(shared.get("fields"@) == Some(JsonView::Array(texts.shown_fields())));
    assert(shared.get("name"@) == Some(JsonView::Text(cipher.name@)));
    assert(shared.get("notes"@) == Some(JsonView::of_text(text_view(cipher.notes))));
    assert(shared.get("passwordHistory"@) == Some(JsonView::Array(texts.shown_history())));
    lemma_personal_keys(shared, personal, "data"@);
    lemma_personal_keys(shared, personal, "fields"@);
    lemma_personal_keys(shared, personal, "name"@);
    lemma_personal_keys(shared, personal, "notes"@);
    lemma_personal_keys(shared, personal, "passwordHistory"@);
}

/// The facts by which all keys of a cipher as JSON differ from each other.
proof fn lemma_keys()
    ensures
        "object"@.len() == 6 && "object"@[0] == 'o',
        "id"@.len() == 2 && "id"@[0] == 'i',
        "type"@.len() == 4 && "type"@[0] == 't',
        "creationDate"@.len() == 12 && "creationDate"@[0] == 'c',
        "revisionDate"@.len() == 12 && "revisionDate"@[0] == 'r',
        "deletedDate"@.len() == 11 && "deletedDate"@[0] == 'd',
        "reprompt"@.len() == 8 && "reprompt"@[0] == 'r',
        "organizationId"@.len() == 14 && "organizationId"@[0] == 'o',
        "key"@.len() == 3 && "key"@[0] == 'k',
        "attachments"@.len() == 11 && "attachments"@[0] == 'a',
        "organizationUseTotp"@.len() == 19 && "organizationUseTotp"@[0] == 'o',
        "collectionIds"@.len() == 13 && "collectionIds"@[0] == 'c',
        "name"@.len() == 4 && "name"@[0] == 'n',
        "notes"@.len() == 5 && "notes"@[0] == 'n',
        "fields"@.len() == 6 && "fields"@[0] == 'f',
        "data"@.len() == 4 && "data"@[0] == 'd',
        "passwordHistory"@.len() == 15 && "passwordHistory"@[0] == 'p',
        "login"@.len() == 5 && "login"@[0] == 'l',
        "secureNote"@.len() == 10 && "secureNote"@[0] == 's',
        "card"@.len() == 4 && "card"@[0] == 'c',
        "identity"@.len() == 8 && "identity"@[0] == 'i',
        "sshKey"@.len() == 6 && "sshKey"@[0] == 's',
        "folderId"@.len() == 8 && "folderId"@[0] == 'f',
        "favorite"@.len() == 8 && "favorite"@[0] == 'f',
        "edit"@.len() == 4 && "edit"@[0] == 'e',
        "viewPassword"@.len() == 12 && "viewPassword"@[0] == 'v',
        "permissions"@.len() == 11 && "permissions"@[0] == 'p',
        "folderId"@[1] == 'o' && "favorite"@[1] == 'a',
{
    reveal_strlit("object");
    reveal_strlit("id");
    reveal_strlit("type");
    reveal_strlit("creationDate");
    reveal_strlit("revisionDate");
    reveal_strlit("deletedDate");
    reveal_strlit("reprompt");
    reveal_strlit("organizationId");
    reveal_strlit("key");
    reveal_strlit("attachments");
    reveal_strlit("organizationUseTotp");
    reveal_strlit("collectionIds");
    reveal_strlit("name");
    reveal_strlit("notes");
    reveal_strlit("fields");
    reveal_strlit("data");
    reveal_strlit("passwordHistory");
    reveal_strlit("login");
    reveal_strlit("secureNote");
    reveal_strlit("card");
    reveal_strlit("identity");
    reveal_strlit("sshKey");
    reveal_strlit("folderId");
    reveal_strlit("favorite");
    reveal_strlit("edit");
    reveal_strlit("viewPassword");
    reveal_strlit("permissions");
}

/// The text of a point in time, in UTC.
pub open spec fn shown_time(time: Timestamp) -> JsonView {
    JsonView::Text(rfc3339_micros(time.secs, time.nanos, 0))
}

/// The text, or null where there is none.
pub open spec fn shown_text(text: Option<String>) -> JsonView {
    match text {
        Some(text) => JsonView::Text(text@),
        None => JsonView::Null,
    }
}

/// What everybody gets to see stands under its key, whatever else is added.
proof fn lemma_shared_member(
    cipher: Cipher,
    texts: TextsView,
    attachments: JsonView,
    collections: Seq<CollectionId>,
    personal: Option<Personal>,
    key: Seq<char>,
)
    requires
        1 <= cipher.atype <= 5,
        !is_personal_key(key),
        !is_type_key(key),
    ensures
        rendered(cipher, texts, attachments, collections, personal).get(key) == shared_details(
            cipher,
            texts,
            attachments,
            collections,
        ).get(key),
{
    let shared = shared_details(cipher, texts, attachments, collections);
    lemma_personal_keys(shared, personal, key);
}

/// What a cipher has of its own stands under its key among what everybody gets to see.
#[verifier::rlimit(50)]
proof fn lemma_shared_members(
    cipher: Cipher,
    texts: TextsView,
    attachments: JsonView,
    collections: Seq<CollectionId>,
)
    requires
        1 <= cipher.atype <= 5,
    ensures
        ({
            let json = shared_details(cipher, texts, attachments, collections);
            &&& json.get("object"@) == Some(JsonView::Text("cipherDetails"@))
            &&& json.get("id"@) == Some(JsonView::Text(cipher.uuid.0@))
            &&& json.get("type"@) == Some(JsonView::Number(decimal(cipher.atype as nat)))
            &&& json.get("creationDate"@) == Some(shown_time(cipher.created_at))
            &&& json.get("revisionDate"@) == Some(shown_time(cipher.updated_at))
            &&& json.get("deletedDate"@) == Some(
                match cipher.deleted_at {
                    Some(time) => shown_time(time),
                    None => JsonView::Null,
                },
            )
            &&& json.get("reprompt"@) == Some(
                JsonView::Number(
                    if cipher.reprompt == Some(1i32) {
                        seq!['1']
                    } else {
                        seq!['0']
                    },
                ),
            )
            &&& json.get("organizationId"@) == Some(
                match cipher.organization_uuid {
                    Some(organization) => JsonView::Text(organization.0@),
                    None => JsonView::Null,
                },
            )
            &&& json.get("key"@) == Some(shown_text(cipher.key))
            &&& json.get("attachments"@) == Some(attachments)
            &&& json.get("organizationUseTotp"@) == Some(JsonView::Bool(true))
            &&& json.get("name"@) == Some(JsonView::Text(cipher.name@))
            &&& json.get("notes"@) == Some(shown_text(cipher.notes))
        }),
{
    lemma_keys();
    assert(decimal(0) =~= seq!['0']);
    assert(decimal(1) =~= seq!['1']);
}

/// What a cipher has of its own is shown under its key, whoever it is shown to.
pub proof fn law_own_members_are_shown(
    cipher: Cipher,
    texts: TextsView,
    attachments: JsonView,
    collections: Seq<CollectionId>,
    personal: Option<Personal>,
)
    requires
        1 <= cipher.atype <= 5,
    ensures
        ({
            let json = rendered(cipher, texts, attachments, collections, personal);
            &&& json.get("object"@) == Some(JsonView::Text("cipherDetails"@))
            &&& json.get("id"@) == Some(JsonView::Text(cipher.uuid.0@))
            &&& json.get("type"@) == Some(JsonView::Number(decimal(cipher.atype as nat)))
            &&& json.get("creationDate"@) == Some(shown_time(cipher.created_at))
            &&& json.get("revisionDate"@) == Some(shown_time(cipher.updated_at))
            &&& json.get("deletedDate"@) == Some(
                match cipher.deleted_at {
                    Some(time) => shown_time(time),
                    None => JsonView::Null,
                },
            )
            &&& json.get("reprompt"@) == Some(
                JsonView::Number(
                    if cipher.reprompt == Some(1i32) {
                        seq!['1']
                    } else {
                        seq!['0']
                    },
                ),
            )
            &&& json.get("organizationId"@) == Some(
                match cipher.organization_uuid {
                    Some(organization) => JsonView::Text(organization.0@),
                    None => JsonView::Null,
                },
            )
            &&& json.get("key"@) == Some(shown_text(cipher.key))
            &&& json.get("attachments"@) == Some(attachments)
            &&& json.get("organizationUseTotp"@) == Some(JsonView::Bool(true))
            &&& json.get("name"@) == Some(JsonView::Text(cipher.name@))
            &&& json.get("notes"@) == Some(shown_text(cipher.notes))
        }),
{
    lemma_keys();
    lemma_shared_members(cipher, texts, attachments, collections);
    lemma_shared_member(cipher, texts, attachments, collections, personal, "object"@);
    lemma_shared_member(cipher, texts, attachments, collections, personal, "id"@);
    lemma_shared_member(cipher, texts, attachments, collections, personal, "type"@);
    lemma_shared_member(cipher, texts, attachments, collections, personal, "creationDate"@);
    lemma_shared_member(cipher, texts, attachments, collections, personal, "revisionDate"@);
    lemma_shared_member(cipher, texts, attachments, collections, personal, "deletedDate"@);
    lemma_shared_member(cipher, texts, attachments, collections, personal, "reprompt"@);
    lemma_shared_member(cipher, texts, attachments, collections, personal, "organizationId"@);
    lemma_shared_member(cipher, texts, attachments, collections, personal, "key"@);
    lemma_shared_member(cipher, texts, attachments, collections, personal, "attachments"@);
    lemma_shared_member(cipher, texts, attachments, collections, personal, "organizationUseTotp"@);
    lemma_shared_member(cipher, texts, attachments, collections, personal, "name"@);
    lemma_shared_member(cipher, texts, attachments, collections, personal, "notes"@);
}

/// The collections are listed by their identifiers, in their number and order.
pub proof fn law_collections_are_shown(
    cipher: Cipher,
    texts: TextsView,
    attachments: JsonView,
    collections: Seq<CollectionId>,
    personal: Option<Personal>,
    i: int,
)
    requires
        1 <= cipher.atype <= 5,
    ensures
        ({
            let json = rendered(cipher, texts, attachments, collections, personal);
            &&& json.get("collectionIds"@) matches Some(JsonView::Array(ids))
            &&& ids.len() == collections.len()
            &&& 0 <= i < ids.len() ==> ids[i] == JsonView::Text(collections[i].0@)
        }),
{
    lemma_keys();
    let json = rendered(cipher, texts, attachments, collections, personal);
    assert(json.get("collectionIds"@) == Some(id_list(collections)));
}

/// Nothing is shown under any other key.
pub proof fn law_no_other_members_are_shown(
    cipher: Cipher,
    texts: TextsView,
    attachments: JsonView,
    collections: Seq<CollectionId>,
    personal: Option<Personal>,
    key: Seq<char>,
)
    requires
        1 <= cipher.atype <= 5,
        rendered(cipher, texts, attachments, collections, personal).get(key) is Some,
    ensures
        key == "object"@ || key == "id"@ || key == "type"@ || key == "creationDate"@
            || key == "revisionDate"@ || key == "deletedDate"@ || key == "reprompt"@
            || key == "organizationId"@ || key == "key"@ || key == "attachments"@
            || key == "organizationUseTotp"@ || key == "collectionIds"@ || key == "name"@
            || key == "notes"@ || key == "fields"@ || key == "data"@ || key == "passwordHistory"@
            || key == "login"@ || key == "secureNote"@ || key == "card"@ || key == "identity"@
            || key == "sshKey"@ || (personal is Some && (key == "folderId"@ || key == "favorite"@
            || key == "edit"@ || key == "viewPassword"@ || key == "permissions"@)),
{
}

/// The custom fields are shown in their number and order, each repaired; so is the password
/// history, but for entries that are left out.
pub proof fn law_lists_are_shown(
    cipher: Cipher,
    texts: TextsView,
    attachments: JsonView,
    collections: Seq<CollectionId>,
    personal: Option<Personal>,
    i: int,
)
    requires
        1 <= cipher.atype <= 5,
    ensures
        ({
            let json = rendered(cipher, texts, attachments, collections, personal);
            &&& json.get("fields"@) matches Some(JsonView::Array(shown))
            &&& match texts.fields {
                Some(fields) => shown.len() == fields.len() && (0 <= i < fields.len() ==> shown[i]
                    == fixed_field(fields[i])),
                None => shown.len() == 0,
            }
        }),
        ({
            let json = rendered(cipher, texts, attachments, collections, personal);
            json.get("passwordHistory"@) == Some(
                JsonView::Array(
                    match texts.password_history {
                        Some(history) => fixed_history(history),
                        None => Seq::empty(),
                    },
                ),
            )
        }),
{
    law_data_repeat_the_common_parts(cipher, texts, attachments, collections, personal);
}

/// Among the data of a cipher stands everything that stands in the slot of its type, besides
/// the fields, name, notes and password history, and nothing else.
pub proof fn law_data_hold_the_slot(
    cipher: Cipher,
    texts: TextsView,
    attachments: JsonView,
    collections: Seq<CollectionId>,
    personal: Option<Personal>,
    key: Seq<char>,
)
    requires
        1 <= cipher.atype <= 5,
        key != "fields"@,
        key != "name"@,
        key != "notes"@,
        key != "passwordHistory"@,
    ensures
        ({
            let json = rendered(cipher, texts, attachments, collections, personal);
            let slot = json.at(
                if cipher.atype == 1 {
                    "login"@
                } else if cipher.atype == 2 {
                    "secureNote"@
                } else if cipher.atype == 3 {
                    "card"@
                } else if cipher.atype == 4 {
                    "identity"@
                } else {
                    "sshKey"@
                },
            );
            &&& slot == type_data(cipher.atype, texts.data)
            &&& json.at("data"@).get(key) == slot.get(key)
        }),
{
    lemma_keys();
    let json = rendered(cipher, texts, attachments, collections, personal);
    assert(json.get("data"@) == Some(full_data(cipher, texts)));
}

/// All slots besides that of the cipher's type are null: a login shows nothing as a card, and so
/// on.
pub proof fn law_other_slots_are_null(
    cipher: Cipher,
    texts: TextsView,
    attachments: JsonView,
    collections: Seq<CollectionId>,
    personal: Option<Personal>,
)
    requires
        1 <= cipher.atype <= 5,
    ensures
        ({
            let json = rendered(cipher, texts, attachments, collections, personal);
            &&& cipher.atype != 1 ==> json.get("login"@) == Some(JsonView::Null)
            &&& cipher.atype != 2 ==> json.get("secureNote"@) == Some(JsonView::Null)
            &&& cipher.atype != 3 ==> json.get("card"@) == Some(JsonView::Null)
            &&& cipher.atype != 4 ==> json.get("identity"@) == Some(JsonView::Null)
            &&& cipher.atype != 5 ==> json.get("sshKey"@) == Some(JsonView::Null)
        }),
{
    lemma_keys();
}

/// What only the user gets to see: the identifier of their folder or null, whether it is a
/// favorite, and what their restrictions allow.
pub proof fn law_personal_members_are_shown(
    cipher: Cipher,
    texts: TextsView,
    attachments: JsonView,
    collections: Seq<CollectionId>,
    personal: Personal,
    key: Seq<char>,
)
    requires
        1 <= cipher.atype <= 5,
    ensures
        ({
            let json = rendered(cipher, texts, attachments, collections, Some(personal));
            &&& json.get("folderId"@) == Some(
                match personal.folder {
                    Some(folder) => JsonView::Text(folder.0@),
                    None => JsonView::Null,
                },
            )
            &&& json.get("favorite"@) == Some(JsonView::Bool(personal.favorite))
            &&& json.get("edit"@) == Some(JsonView::Bool(!personal.read_only))
            &&& json.get("viewPassword"@) == Some(JsonView::Bool(!personal.hide_passwords))
            &&& json.get("permissions"@) matches Some(JsonView::Object(granted))
            &&& granted.contains_key(key) == (key == "delete"@ || key == "restore"@)
            &&& granted.contains_key(key) ==> granted[key] == JsonView::Bool(!personal.read_only)
        }),
{
    lemma_keys();
    let json = rendered(cipher, texts, attachments, collections, Some(personal));
    assert(json.get("permissions"@) == Some(permissions(personal)));
}

/// What is shown to the user whose vault it is comes from the sync data where there are any, and
/// else from the records: the folder, whether it is a favorite, and the restrictions, both of
/// which apply to a user without access.
pub proof fn law_source_of_personal_members(
    cipher: Cipher,
    user: UserId,
    sync: &CipherSyncData,
    groups: bool,
    standing: OrgStanding,
    t: &Tables,
)
    ensures
        ({
            let flags = restrictions(cipher, user, Some(sync), groups, standing, t);
            let kind = CipherSyncType::User;
            &&& shown_personal(cipher, user, Some(sync), kind, groups, standing, t) matches Some(
                shown,
            )
            &&& shown.folder == sync.cipher_folders.lookup(cipher.uuid.0@)
            &&& shown.favorite == lists_cipher(sync.cipher_favorites@, cipher.uuid.0@)
            &&& flags is None ==> shown.read_only && shown.hide_passwords
            &&& flags is Some ==> shown.read_only == (flags->0).0 && shown.hide_passwords == (
            flags->0).1
        }),
        ({
            let flags = restrictions(cipher, user, None, groups, standing, t);
            let kind = CipherSyncType::User;
            &&& shown_personal(cipher, user, None, kind, groups, standing, t) matches Some(shown)
            &&& shown.folder == folder_of(t, user.0@, cipher.uuid.0@)
            &&& shown.favorite == marked_favorite(t, user.0@, cipher.uuid.0@)
            &&& flags is None ==> shown.read_only && shown.hide_passwords
            &&& flags is Some ==> shown.read_only == (flags->0).0 && shown.hide_passwords == (
            flags->0).1
        }),
        shown_personal(
            cipher,
            user,
            Some(sync),
            CipherSyncType::Organization,
            groups,
            standing,
            t,
        ) is None,
        shown_personal(
            cipher,
            user,
            None,
            CipherSyncType::Organization,
            groups,
            standing,
            t,
        ) is None,
{
}

/// The collections and attachments that are shown come from the sync data where there are any,
/// and else from the records: the collections in which the user may change the cipher, be it
/// only as an administrator or owner, and all attachments of the cipher.
pub proof fn law_source_of_shared_members(
    cipher: Cipher,
    user: UserId,
    sync: &CipherSyncData,
    groups: bool,
    t: &Tables,
)
    ensures
        match sync.cipher_collections.lookup(cipher.uuid.0@) {
            Some(listed) => shown_collections(cipher, user, Some(sync), groups, t) == listed@,
            None => shown_collections(cipher, user, Some(sync), groups, t).len() == 0,
        },
        shown_collections(cipher, user, None, groups, t) == assignable(
            t,
            user,
            groups,
            true,
            cipher,
        ),
        match sync.cipher_attachments.lookup(cipher.uuid.0@) {
            Some(listed) => shown_attachments(cipher, Some(sync), t) == listed@,
            None => shown_attachments(cipher, Some(sync), t).len() == 0,
        },
        shown_attachments(cipher, None, t) == t.attachments@.filter(
            |attachment: Attachment| attachment.cipher_uuid.0@ == cipher.uuid.0@,
        ).map_values(|attachment: Attachment| attachment.id),
{
    assert((|attachment: Attachment| attachment.cipher_uuid.0@ == cipher.uuid.0@) =~= (
    |attachment: Attachment| attachment.cipher_uuid@ == cipher.uuid@));
}

/// Attachments that could all be shown are listed one by one in their order; null stands for
/// none. The error that is returned else is that of the first that could not be shown.
pub proof fn law_attachments_are_shown(attachments: Seq<Result<Json, Error>>, i: int)
    requires
        0 <= i < attachments.len(),
    ensures
        attachments_json(Seq::empty()) == JsonView::Null,
        attachments_json(attachments) matches JsonView::Array(shown) && shown.len()
            == attachments.len() && (attachments[i] matches Ok(json) ==> shown[i] == json.view()),
        all_shown(attachments) <==> forall|j: int|
            0 <= j < attachments.len() ==> (#[trigger] attachments[j]) is Ok,
        first_failure(attachments, i) <==> attachments[i] is Err && forall|j: int|
            0 <= j < i ==> (#[trigger] attachments[j]) is Ok,
{
}

/// The texts that are shown are read from the columns of the cipher, each from its own.
pub proof fn law_texts_come_from_their_columns(cipher: Cipher, fields: String, history: String)
    ensures
        stored_texts(cipher).data == object_of(json_of_text(cipher.data@)),
        cipher.fields == Some(fields) ==> stored_texts(cipher).fields == list_of(
            json_of_text(fields@),
        ),
        cipher.fields is None ==> stored_texts(cipher).fields is None,
        cipher.password_history == Some(history) ==> stored_texts(cipher).password_history
            == list_of(json_of_text(history@)),
        cipher.password_history is None ==> stored_texts(cipher).password_history is None,
{
}

/// What was read from texts stands for its items and members.
pub proof fn law_view_of_texts(texts: Texts, list: Vec<Json>, data: Json)
    ensures
        texts.fields == Some(list) ==> texts@.fields == Some(items_view(list@)),
        texts.fields is None ==> texts@.fields is None,
        texts.password_history == Some(list) ==> texts@.password_history == Some(
            items_view(list@),
        ),
        texts.password_history is None ==> texts@.password_history is None,
        texts.data == Some(data) ==> texts@.data == Some(data.view()),
        texts.data is None ==> texts@.data is None,
{
}

} // verus!
