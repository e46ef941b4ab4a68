//! A cipher as JSON, in the form that clients expect.

use crate::access::{restrictions, OrgStanding};
use crate::cipher::{organization_text, Cipher, RepromptType};
use crate::content::{fix_data, fix_fields, fix_history, fixed_field, fixed_history, type_data};
use crate::dates::{format_date, rfc3339_micros, Timestamp};
use crate::error::Error;
use crate::finders::{folder_of, marked_favorite};
use crate::ids::{AttachmentId, CollectionId, FolderId, UserId};
use crate::json::{all_objects, copy_items, items_view, option_view, Json, JsonView};
use crate::queries::assignable;
use crate::stored::{json_of_text, list_of, object_of, option_items_view, read_list, read_object};
use crate::sync::{lists_cipher, CipherSyncData, CipherSyncType};
use crate::tables::{Attachment, Tables};
use crate::text::text_view;
use vstd::prelude::*;

verus! {

/// What is read from the JSON texts that a cipher stores; nothing where a text is absent or
/// does not hold what it should.
#[derive(Debug)]
pub struct Texts {
    pub fields: Option<Vec<Json>>,
    pub password_history: Option<Vec<Json>>,
    pub data: Option<Json>,
}

/// The model of what is read from the JSON texts of a cipher.
#[verifier::ext_equal]
pub struct TextsView {
    pub fields: Option<Seq<JsonView>>,
    pub password_history: Option<Seq<JsonView>>,
    pub data: Option<JsonView>,
}

impl Texts {
    /// The model.
    pub open spec fn view(&self) -> TextsView {
        TextsView {
            fields: option_items_view(self.fields),
            password_history: option_items_view(self.password_history),
            data: option_view(self.data),
        }
    }
}

impl TextsView {
    /// Whether the lists hold objects and the data are one.
    pub open spec fn valid(self) -> bool {
        &&& self.fields matches Some(fields) ==> all_objects(fields)
        &&& self.password_history matches Some(history) ==> all_objects(history)
        &&& self.data matches Some(data) ==> data is Object
    }

    /// The custom fields that are shown.
    pub open spec fn shown_fields(self) -> Seq<JsonView> {
        match self.fields {
            Some(fields) => fields.map_values(|field: JsonView| fixed_field(field)),
            None => Seq::empty(),
        }
    }

    /// The password history that is shown.
    pub open spec fn shown_history(self) -> Seq<JsonView> {
        match self.password_history {
            Some(history) => fixed_history(history),
            None => Seq::empty(),
        }
    }
}

/// What an optional text holds, where it should hold a list of objects.
pub open spec fn optional_list(text: Option<String>) -> Option<Seq<JsonView>> {
    match text {
        Some(text) => list_of(json_of_text(text@)),
        None => None,
    }
}

/// What the JSON texts of the cipher hold.
pub open spec fn stored_texts(cipher: Cipher) -> TextsView {
    TextsView {
        fields: optional_list(cipher.fields),
        password_history: optional_list(cipher.password_history),
        data: object_of(json_of_text(cipher.data@)),
    }
}

/// What only the user whose vault it is gets to know of a cipher.
#[derive(Debug)]
pub struct Personal {
    pub folder: Option<FolderId>,
    pub favorite: bool,
    pub read_only: bool,
    pub hide_passwords: bool,
}

/// The identifiers as a JSON list.
pub open spec fn id_list(collections: Seq<CollectionId>) -> JsonView {
    JsonView::Array(collections.map_values(|id: CollectionId| JsonView::Text(id@)))
}

/// The text of a point in time, or null.
pub open spec fn optional_date(time: Option<Timestamp>) -> JsonView {
    match time {
        Some(time) => JsonView::Text(rfc3339_micros(time.secs, time.nanos, 0)),
        None => JsonView::Null,
    }
}

/// The number of the reprompt choice; an unknown one counts as none.
pub open spec fn shown_reprompt(reprompt: Option<i32>) -> nat {
    if reprompt == Some(RepromptType::Password.spec_code()) {
        RepromptType::Password.spec_code() as nat
    } else {
        RepromptType::NoReprompt.spec_code() as nat
    }
}

/// The data of a cipher with its fields, name, notes and password history added.
pub open spec fn full_data(cipher: Cipher, texts: TextsView) -> JsonView {
    type_data(cipher.atype, texts.data).with(
        "fields"@,
        JsonView::Array(texts.shown_fields()),
    ).with("name"@, JsonView::Text(cipher.name@)).with(
        "notes"@,
        JsonView::of_text(text_view(cipher.notes)),
    ).with("passwordHistory"@, JsonView::Array(texts.shown_history()))
}

/// What everybody who sees a cipher gets to know of it, but for what depends on its type.
pub open spec fn shared_details(
    cipher: Cipher,
    texts: TextsView,
    attachments: JsonView,
    collections: Seq<CollectionId>,
) -> JsonView {
    JsonView::Object(
        map![
            "object"@ => JsonView::Text("cipherDetails"@),
            "id"@ => JsonView::Text(cipher.uuid@),
            "type"@ => JsonView::of_nat(cipher.atype as nat),
            "creationDate"@ => optional_date(Some(cipher.created_at)),
            "revisionDate"@ => optional_date(Some(cipher.updated_at)),
            "deletedDate"@ => optional_date(cipher.deleted_at),
            "reprompt"@ => JsonView::of_nat(shown_reprompt(cipher.reprompt)),
            "organizationId"@ => JsonView::of_text(organization_text(cipher.organization_uuid)),
            "key"@ => JsonView::of_text(text_view(cipher.key)),
            "attachments"@ => attachments,
            "organizationUseTotp"@ => JsonView::Bool(true),
            "collectionIds"@ => id_list(collections),
            "name"@ => JsonView::Text(cipher.name@),
            "notes"@ => JsonView::of_text(text_view(cipher.notes)),
            "fields"@ => JsonView::Array(texts.shown_fields()),
            "data"@ => full_data(cipher, texts),
            "passwordHistory"@ => JsonView::Array(texts.shown_history()),
            "login"@ => JsonView::Null,
            "secureNote"@ => JsonView::Null,
            "card"@ => JsonView::Null,
            "identity"@ => JsonView::Null,
            "sshKey"@ => JsonView::Null,
        ],
    )
}

/// Whether the user may delete and restore the cipher.
pub open spec fn permissions(personal: Personal) -> JsonView {
    JsonView::Object(
        map![
            "delete"@ => JsonView::Bool(!personal.read_only),
            "restore"@ => JsonView::Bool(!personal.read_only),
        ],
    )
}

/// The identifier of a folder, or null.
pub open spec fn folder_json(folder: Option<FolderId>) -> JsonView {
    match folder {
        Some(folder) => JsonView::Text(folder@),
        None => JsonView::Null,
    }
}

/// The details with what only the user whose vault it is gets to know.
pub open spec fn with_personal(details: JsonView, personal: Option<Personal>) -> JsonView {
    match personal {
        Some(personal) => details.with("folderId"@, folder_json(personal.folder)).with(
            "favorite"@,
            JsonView::Bool(personal.favorite),
        ).with("edit"@, JsonView::Bool(!personal.read_only)).with(
            "viewPassword"@,
            JsonView::Bool(!personal.hide_passwords),
        ).with("permissions"@, permissions(personal)),
        None => details,
    }
}

/// The key under which the data of a cipher of the type stand.
pub open spec fn type_key(atype: i32) -> Seq<char> {
    if atype == 1 {
        "login"@
    } else if atype == 2 {
        "secureNote"@
    } else if atype == 3 {
        "card"@
    } else if atype == 4 {
        "identity"@
    } else {
        "sshKey"@
    }
}

/// The cipher as JSON.
pub open spec fn rendered(
    cipher: Cipher,
    texts: TextsView,
    attachments: JsonView,
    collections: Seq<CollectionId>,
    personal: Option<Personal>,
) -> JsonView {
    with_personal(shared_details(cipher, texts, attachments, collections), personal).with(
        type_key(cipher.atype),
        type_data(cipher.atype, texts.data),
    )
}

/// The identifiers as a JSON list.
fn id_list_json(collections: &Vec<CollectionId>) -> (json: Json)
    ensures
        json@ == id_list(collections@),
{
    let mut ids: Vec<Json> = Vec::new();
    let mut i: usize = 0;
    while i < collections.len()
        invariant
            i <= collections@.len(),
            ids@.len() == i,
            forall|j: int|
                0 <= j < i ==> (#[trigger] ids@[j])@ == JsonView::Text(collections@[j]@),
        decreases collections@.len() - i,
    {
        ids.push(Json::Text(collections[i].0.clone()));
        i = i + 1;
    }
    assert(items_view(ids@) =~= collections@.map_values(|id: CollectionId| JsonView::Text(id@)));
    Json::Array(ids)
}

/// The data of a cipher with its fields, name, notes and password history added.
fn full_data_json(
    cipher: &Cipher,
    data: &Json,
    fields: &Vec<Json>,
    history: &Vec<Json>,
) -> (json: Json)
    requires
        data@ is Object || data@ is Null,
    ensures
        json@ == data@.with("fields"@, JsonView::Array(items_view(fields@))).with(
            "name"@,
            JsonView::Text(cipher.name@),
        ).with("notes"@, JsonView::of_text(text_view(cipher.notes))).with(
            "passwordHistory"@,
            JsonView::Array(items_view(history@)),
        ),
{
    let mut json = data.copy();
    json.set("fields", Json::Array(copy_items(fields)));
    json.set("name", Json::Text(cipher.name.clone()));
    json.set("notes", Json::optional_text(&cipher.notes));
    json.set("passwordHistory", Json::Array(copy_items(history)));
    json
}

/// What everybody who sees a cipher gets to know of it, but for what depends on its type.
fn shared_details_json(
    cipher: &Cipher,
    data: &Json,
    fields: Vec<Json>,
    history: Vec<Json>,
    attachments: Json,
    collections: &Vec<CollectionId>,
    Ghost(texts): Ghost<TextsView>,
) -> (json: Json)
    requires
        cipher.has_valid_dates(),
        1 <= cipher.atype <= 5,
        data@ is Object || data@ is Null,
        data@ == type_data(cipher.atype, texts.data),
        items_view(fields@) == texts.shown_fields(),
        items_view(history@) == texts.shown_history(),
    ensures
        json@ == shared_details(*cipher, texts, attachments@, collections@),
{
    let full = full_data_json(cipher, data, &fields, &history);
    let deleted = match cipher.deleted_at {
        Some(time) => Json::Text(format_date(&time)),
        None => Json::Null,
    };
    let reprompt = match cipher.reprompt {
        Some(choice) => if choice == RepromptType::Password.code() {
            RepromptType::Password.code()
        } else {
            RepromptType::NoReprompt.code()
        },
        None => RepromptType::NoReprompt.code(),
    };
    let organization = match &cipher.organization_uuid {
        Some(organization) => Json::Text(organization.0.clone()),
        None => Json::Null,
    };
    let mut json = Json::object();
    json.set("object", Json::text("cipherDetails"));
    json.set("id", Json::Text(cipher.uuid.0.clone()));
    json.set("type", Json::number(cipher.atype as u64));
    json.set("creationDate", Json::Text(format_date(&cipher.created_at)));
    json.set("revisionDate", Json::Text(format_date(&cipher.updated_at)));
    json.set("deletedDate", deleted);
    json.set("reprompt", Json::number(reprompt as u64));
    json.set("organizationId", organization);
    json.set("key", Json::optional_text(&cipher.key));
    json.set("attachments", attachments);
    json.set("organizationUseTotp", Json::Bool(true));
    json.set("collectionIds", id_list_json(collections));
    json.set("name", Json::Text(cipher.name.clone()));
    json.set("notes", Json::optional_text(&cipher.notes));
    json.set("fields", Json::Array(fields));
    json.set("data", full);
    json.set("passwordHistory", Json::Array(history));
    json.set("login", Json::Null);
    json.set("secureNote", Json::Null);
    json.set("card", Json::Null);
    json.set("identity", Json::Null);
    json.set("sshKey", Json::Null);
    json
}

/// Adds what only the user whose vault it is gets to know.
fn add_personal(json: &mut Json, personal: Personal)
    requires
        old(json)@ is Object,
    ensures
        final(json)@ == with_personal(old(json)@, Some(personal)),
        final(json)@ is Object,
{
    let folder = match &personal.folder {
        Some(folder) => Json::Text(folder.0.clone()),
        None => Json::Null,
    };
    let mut granted = Json::object();
    granted.set("delete", Json::Bool(!personal.read_only));
    granted.set("restore", Json::Bool(!personal.read_only));
    json.set("folderId", folder);
    json.set("favorite", Json::Bool(personal.favorite));
    json.set("edit", Json::Bool(!personal.read_only));
    json.set("viewPassword", Json::Bool(!personal.hide_passwords));
    json.set("permissions", granted);
}

/// The key under which the data of a cipher of the type stand.
fn type_key_text(atype: i32) -> (key: &'static str)
    requires
        1 <= atype <= 5,
    ensures
        key@ == type_key(atype),
{
    if atype == 1 {
        "login"
    } else if atype == 2 {
        "secureNote"
    } else if atype == 3 {
        "card"
    } else if atype == 4 {
        "identity"
    } else {
        "sshKey"
    }
}

/// The attachments that are shown with a cipher.
pub open spec fn shown_attachments(
    cipher: Cipher,
    sync: Option<&CipherSyncData>,
    t: &Tables,
) -> Seq<AttachmentId> {
    match sync {
        Some(sync) => match sync.cipher_attachments.lookup(cipher.uuid@) {
            Some(attachments) => attachments@,
            None => Seq::empty(),
        },
        None => t.attachments@.filter(
            |attachment: Attachment| attachment.cipher_uuid@ == cipher.uuid@,
        ).map_values(|attachment: Attachment| attachment.id),
    }
}

/// The attachments as JSON, where all could be shown: null where there are none.
pub open spec fn attachments_json(attachments: Seq<Result<Json, Error>>) -> JsonView {
    if attachments.len() == 0 {
        JsonView::Null
    } else {
        JsonView::Array(
            attachments.map_values(|attachment: Result<Json, Error>| attachment->Ok_0@),
        )
    }
}

/// Whether all attachments could be shown.
pub open spec fn all_shown(attachments: Seq<Result<Json, Error>>) -> bool {
    forall|i: int| 0 <= i < attachments.len() ==> (#[trigger] attachments[i]) is Ok
}

/// Whether the attachment at a position is the first that could not be shown.
pub open spec fn first_failure(attachments: Seq<Result<Json, Error>>, at: int) -> bool {
    &&& 0 <= at < attachments.len()
    &&& attachments[at] is Err
    &&& forall|i: int| 0 <= i < at ==> (#[trigger] attachments[i]) is Ok
}

/// Puts the attachments into a list, or returns the first error.
pub fn collect_attachments(attachments: Vec<Result<Json, Error>>) -> (result: Result<Json, Error>)
    ensures
        match result {
            Ok(json) => all_shown(attachments@) && json@ == attachments_json(attachments@),
            Err(error) => exists|at: int| #[trigger]
                first_failure(attachments@, at) && attachments@[at] == Err::<Json, Error>(error),
        },
{
    let ghost all = attachments@;
    let mut rest = attachments;
    let mut shown: Vec<Json> = Vec::new();
    while rest.len() > 0
        invariant
            all == attachments@,
            shown@.len() + rest@.len() == all.len(),
            rest@ == all.skip(shown@.len() as int),
            forall|j: int| 0 <= j < shown@.len() ==> (#[trigger] all[j]) is Ok,
            forall|j: int| 0 <= j < shown@.len() ==> (#[trigger] shown@[j])@ == all[j]->Ok_0@,
        decreases rest@.len(),
    {
        let ghost i = shown@.len() as int;
        let attachment = rest.remove(0);
        assert(attachment == all[i]);
        match attachment {
            Ok(json) => {
                shown.push(json);
            },
            Err(error) => {
                assert(first_failure(all, i));
                return Err(error);
            },
        }
        assert(rest@ =~= all.skip(i + 1));
    }
    if shown.len() == 0 {
        return Ok(Json::Null);
    }
    assert(items_view(shown@) =~= all.map_values(
        |attachment: Result<Json, Error>| attachment->Ok_0@,
    ));
    Ok(Json::Array(shown))
}

/// The collections that are named with a cipher.
pub open spec fn shown_collections(
    cipher: Cipher,
    user: UserId,
    sync: Option<&CipherSyncData>,
    groups: bool,
    t: &Tables,
) -> Seq<CollectionId> {
    match sync {
        Some(sync) => match sync.cipher_collections.lookup(cipher.uuid@) {
            Some(collections) => collections@,
            None => Seq::empty(),
        },
        None => assignable(t, user, groups, true, cipher),
    }
}

/// The restrictions that are shown: read-only and hidden passwords, both where the user has no
/// access to the cipher at all.
pub open spec fn shown_flags(flags: Option<(bool, bool, bool)>) -> (bool, bool) {
    match flags {
        Some((read_only, hide_passwords, manage)) => (read_only, hide_passwords),
        None => (true, true),
    }
}

/// The user's folder that is named with a cipher.
pub open spec fn shown_folder(
    cipher: Cipher,
    user: UserId,
    sync: Option<&CipherSyncData>,
    t: &Tables,
) -> Option<FolderId> {
    match sync {
        Some(sync) => sync.cipher_folders.lookup(cipher.uuid@),
        None => folder_of(t, user@, cipher.uuid@),
    }
}

/// Whether the cipher is shown as a favorite.
pub open spec fn shown_favorite(
    cipher: Cipher,
    user: UserId,
    sync: Option<&CipherSyncData>,
    t: &Tables,
) -> bool {
    match sync {
        Some(sync) => lists_cipher(sync.cipher_favorites@, cipher.uuid@),
        None => marked_favorite(t, user@, cipher.uuid@),
    }
}

/// What a sync for the user says of a cipher besides its contents; a sync for an organization
/// says nothing.
pub open spec fn shown_personal(
    cipher: Cipher,
    user: UserId,
    sync: Option<&CipherSyncData>,
    sync_type: CipherSyncType,
    groups: bool,
    standing: OrgStanding,
    t: &Tables,
) -> Option<Personal> {
    match sync_type {
        CipherSyncType::User => {
            let flags = shown_flags(restrictions(cipher, user, sync, groups, standing, t));
            Some(
                Personal {
                    folder: shown_folder(cipher, user, sync, t),
                    favorite: shown_favorite(cipher, user, sync, t),
                    read_only: flags.0,
                    hide_passwords: flags.1,
                },
            )
        },
        CipherSyncType::Organization => None,
    }
}

impl Cipher {
    /// The attachments that are to be shown with this cipher: with sync data those that it has
    /// gathered, else all that are stored.
    pub fn attachments_to_show(
        &self,
        cipher_sync_data: Option<&CipherSyncData>,
        tables: &Tables,
    ) -> (ids: Vec<AttachmentId>)
        ensures
            ids@ == shown_attachments(*self, cipher_sync_data, tables),
    {
        let mut ids: Vec<AttachmentId> = Vec::new();
        match cipher_sync_data {
            Some(sync) => match sync.cipher_attachments.get(&self.uuid.0) {
                Some(gathered) => {
                    let mut i: usize = 0;
                    while i < gathered.len()
                        invariant
                            i <= gathered@.len(),
                            ids@.len() == i,
                            forall|j: int| 0 <= j < i ==> #[trigger] ids@[j] == gathered@[j],
                        decreases gathered@.len() - i,
                    {
                        ids.push(gathered[i].clone());
                        i = i + 1;
                    }
                    assert(ids@ =~= gathered@);
                },
                None => {},
            },
            None => {
                let ghost all = tables.attachments@;
                let ghost pred = |attachment: Attachment|
                    attachment.cipher_uuid@ == self.uuid@;
                let ghost pick = |attachment: Attachment| attachment.id;
                let mut i: usize = 0;
                proof {
                    assert(all.take(0) =~= Seq::empty());
                    reveal(Seq::filter);
                    assert(ids@ =~= all.take(0).filter(pred).map_values(pick));
                }
                while i < tables.attachments.len()
                    invariant
                        i <= all.len(),
                        all == tables.attachments@,
                        pred == (|attachment: Attachment|
                            attachment.cipher_uuid@ == self.uuid@),
                        pick == (|attachment: Attachment| attachment.id),
                        ids@ == all.take(i as int).filter(pred).map_values(pick),
                    decreases all.len() - i,
                {
                    if tables.attachments[i].cipher_uuid == self.uuid {
                        ids.push(tables.attachments[i].id.clone());
                    }
                    proof {
                        all.take(i as int).lemma_filter_push(all[i as int], pred);
                        assert(all.take(i + 1) =~= all.take(i as int).push(all[i as int]));
                        assert(ids@ =~= all.take(i + 1).filter(pred).map_values(pick));
                    }
                    i = i + 1;
                }
                assert(all.take(all.len() as int) =~= all);
            },
        }
        ids
    }

    /// Reads the JSON texts of this cipher.
    pub fn read_texts(&self) -> (texts: Texts)
        ensures
            texts@ == stored_texts(*self),
            texts@.valid(),
    {
        let fields = match &self.fields {
            Some(text) => read_list(text.as_str()),
            None => None,
        };
        let password_history = match &self.password_history {
            Some(text) => read_list(text.as_str()),
            None => None,
        };
        Texts { fields, password_history, data: read_object(self.data.as_str()) }
    }

    /// This cipher as JSON, from what was read from its texts.
    pub fn render(
        &self,
        texts: Texts,
        attachments: Json,
        collections: &Vec<CollectionId>,
        personal: Option<Personal>,
    ) -> (json: Json)
        requires
            self.has_valid_dates(),
            1 <= self.atype <= 5,
            texts@.valid(),
        ensures
            json@ == rendered(*self, texts@, attachments@, collections@, personal),
    {
        let ghost view = texts@;
        let fields = match &texts.fields {
            Some(fields) => fix_fields(fields),
            None => Vec::new(),
        };
        let history = match &texts.password_history {
            Some(history) => fix_history(history),
            None => Vec::new(),
        };
        assert(items_view(fields@) =~= view.shown_fields());
        assert(items_view(history@) =~= view.shown_history());
        let data = fix_data(self.atype, texts.data);
        let mut json = shared_details_json(
            self,
            &data,
            fields,
            history,
            attachments,
            collections,
            Ghost(view),
        );
        match personal {
            Some(personal) => {
                add_personal(&mut json, personal);
            },
            None => {},
        }
        json.set(type_key_text(self.atype), data);
        json
    }

    /// The collections that are named with this cipher.
    fn collections_to_show(
        &self,
        user_uuid: &UserId,
        cipher_sync_data: Option<&CipherSyncData>,
        org_groups_enabled: bool,
        tables: &Tables,
    ) -> (collections: Vec<CollectionId>)
        ensures
            collections@ == shown_collections(
                *self,
                *user_uuid,
                cipher_sync_data,
                org_groups_enabled,
                tables,
            ),
    {
        match cipher_sync_data {
            Some(sync) => {
                let mut collections: Vec<CollectionId> = Vec::new();
                match sync.cipher_collections.get(&self.uuid.0) {
                    Some(gathered) => {
                        let mut i: usize = 0;
                        while i < gathered.len()
                            invariant
                                i <= gathered@.len(),
                                collections@.len() == i,
                                forall|j: int|
                                    0 <= j < i ==> #[trigger] collections@[j] == gathered@[j],
                            decreases gathered@.len() - i,
                        {
                            collections.push(gathered[i].clone());
                            i = i + 1;
                        }
                        assert(collections@ =~= gathered@);
                    },
                    None => {},
                }
                collections
            },
            None => self.get_admin_collections(
                user_uuid.clone(),
                org_groups_enabled,
                tables,
            ),
        }
    }

    /// What a sync for the user says of this cipher besides its contents.
    fn personal_to_show(
        &self,
        user_uuid: &UserId,
        cipher_sync_data: Option<&CipherSyncData>,
        org_groups_enabled: bool,
        standing: OrgStanding,
        tables: &Tables,
    ) -> (personal: Personal)
        ensures
            Some(personal) == shown_personal(
                *self,
                *user_uuid,
                cipher_sync_data,
                CipherSyncType::User,
                org_groups_enabled,
                standing,
                tables,
            ),
    {
        let (read_only, hide_passwords) = match self.get_access_restrictions(
            user_uuid,
            cipher_sync_data,
            org_groups_enabled,
            standing,
            tables,
        ) {
            Some((read_only, hide_passwords, _manage)) => (read_only, hide_passwords),
            None => (true, true),
        };
        match cipher_sync_data {
            Some(sync) => {
                let folder = match sync.cipher_folders.get(&self.uuid.0) {
                    Some(folder) => Some(folder.clone()),
                    None => None,
                };
                let favorite = sync.has_favorite(&self.uuid);
                Personal { folder, favorite, read_only, hide_passwords }
            },
            None => {
                let folder = self.get_folder_uuid(user_uuid, tables);
                let favorite = self.is_favorite(user_uuid, tables);
                Personal { folder, favorite, read_only, hide_passwords }
            },
        }
    }

    /// This cipher as JSON, in the form that clients expect. `attachments` are the attachments
    /// to show as JSON, in their order; the first that could not be shown is the error that
    /// is returned.
    pub fn to_json(
        &self,
        user_uuid: &UserId,
        cipher_sync_data: Option<&CipherSyncData>,
        sync_type: CipherSyncType,
        attachments: Vec<Result<Json, Error>>,
        org_groups_enabled: bool,
        standing: OrgStanding,
        tables: &Tables,
    ) -> (result: Result<Json, Error>)
        requires
            self.has_valid_dates(),
            1 <= self.atype <= 5 || !all_shown(attachments@),
        ensures
            match result {
                Ok(json) => {
                    &&& all_shown(attachments@)
                    &&& json@ == rendered(
                        *self,
                        stored_texts(*self),
                        attachments_json(attachments@),
                        shown_collections(
                            *self,
                            *user_uuid,
                            cipher_sync_data,
                            org_groups_enabled,
                            tables,
                        ),
                        shown_personal(
                            *self,
                            *user_uuid,
                            cipher_sync_data,
                            sync_type,
                            org_groups_enabled,
                            standing,
                            tables,
                        ),
                    )
                },
                Err(error) => exists|at: int| #[trigger]
                    first_failure(attachments@, at) && attachments@[at] == Err::<Json, Error>(
                        error,
                    ),
            },
    {
        let attachments = match collect_attachments(attachments) {
            Ok(json) => json,
            Err(error) => {
                return Err(error);
            },
        };
        let personal = match sync_type {
            CipherSyncType::User => Some(
                self.personal_to_show(
                    user_uuid,
                    cipher_sync_data,
                    org_groups_enabled,
                    standing,
                    tables,
                ),
            ),
            CipherSyncType::Organization => None,
        };
        let collections = self.collections_to_show(
            user_uuid,
            cipher_sync_data,
            org_groups_enabled,
            tables,
        );
        Ok(self.render(self.read_texts(), attachments, &collections, personal))
    }
}

} // verus!
