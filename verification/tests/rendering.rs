use serde_json::Value;
use vault_cipher::access::OrgStanding;
use vault_cipher::cipher::{Cipher, RepromptType};
use vault_cipher::dates::Timestamp;
use vault_cipher::details::{Personal, Texts};
use vault_cipher::error::{Detail, Error};
use vault_cipher::ids::{
    AttachmentId, CipherId, CollectionId, FolderId, OrganizationId, UserId,
};
use vault_cipher::json::Json;
use vault_cipher::sync::{CipherSyncData, CipherSyncType, CollectionAccess, TextMap};
use vault_cipher::tables::{
    Attachment, Collection, CollectionCipher, Favorite, Folder, FolderCipher, Membership, Tables,
};

fn value(json: &Json) -> Value {
    match json {
        Json::Null => Value::Null,
        Json::Bool(b) => Value::Bool(*b),
        Json::Number(text) => serde_json::from_str(text).unwrap(),
        Json::Text(text) => Value::String(text.clone()),
        Json::Array(items) => Value::Array(items.iter().map(value).collect()),
        Json::Object(members) => {
            Value::Object(members.iter().map(|(k, v)| (k.clone(), value(v))).collect())
        }
    }
}

fn parsed(text: &str) -> Value {
    serde_json::from_str(text).unwrap()
}

fn empty_tables() -> Tables {
    Tables {
        ciphers: Vec::new(),
        ciphers_collections: Vec::new(),
        users_organizations: Vec::new(),
        users_collections: Vec::new(),
        groups_users: Vec::new(),
        groups: Vec::new(),
        collections_groups: Vec::new(),
        collections: Vec::new(),
        folders: Vec::new(),
        folders_ciphers: Vec::new(),
        favorites: Vec::new(),
        attachments: Vec::new(),
    }
}

fn empty_sync() -> CipherSyncData {
    CipherSyncData {
        cipher_attachments: TextMap::new(),
        cipher_folders: TextMap::new(),
        cipher_favorites: Vec::new(),
        cipher_collections: TextMap::new(),
        members: TextMap::new(),
        user_collections: TextMap::new(),
        user_collections_groups: TextMap::new(),
        user_group_full_access_for_organizations: Vec::new(),
    }
}

fn no_standing() -> OrgStanding {
    OrgStanding { member_full_access: None, group_full_access: false }
}

fn user() -> UserId {
    UserId("user".to_string())
}

fn cipher_of_type(atype: i32, data: &str) -> Cipher {
    let time = Timestamp { secs: 1_600_000_000, nanos: 123_456_789 };
    let mut cipher =
        Cipher::new_at(CipherId("cipher".to_string()), time, atype, "2.name".to_string());
    cipher.user_uuid = Some(user());
    cipher.data = data.to_string();
    cipher
}

fn render_owned(cipher: &Cipher) -> Value {
    let tables = empty_tables();
    let json = cipher
        .to_json(
            &user(),
            None,
            CipherSyncType::User,
            Vec::new(),
            false,
            no_standing(),
            &tables,
        )
        .unwrap();
    value(&json)
}

fn failure(message: &str) -> Error {
    Error { message: message.to_string(), detail: Detail::Plain }
}

#[test]
fn login_is_rendered_in_full() {
    let mut cipher = cipher_of_type(
        1,
        r#"{"Username":"u","Uris":[{"Uri":"https://a","Match":"3"},{"uri":"https://b","match":"x"},{"uri":"c","match":1}],"PasswordRevisionDate":"2021-01-02T03:04:05Z"}"#,
    );
    cipher.notes = Some("2.notes".to_string());
    cipher.fields = Some(
        r#"[{"Type":2,"Name":"n"},{"type":"1"},{"type":"300"},{"type":null},{"name":"x"}]"#
            .to_string(),
    );
    cipher.password_history = Some(
        r#"[{"Password":"old","LastUsedDate":"2020-02-03T04:05:06.5+02:00"},{"password":null},{"password":"older","lastUsedDate":"yesterday"},{"password":"oldest"}]"#
            .to_string(),
    );
    cipher.key = Some("2.key".to_string());
    cipher.reprompt = Some(1);
    cipher.deleted_at = Some(Timestamp { secs: 0, nanos: 0 });
    let expected = parsed(
        r#"{
        "object": "cipherDetails",
        "id": "cipher",
        "type": 1,
        "creationDate": "2020-09-13T12:26:40.123456Z",
        "revisionDate": "2020-09-13T12:26:40.123456Z",
        "deletedDate": "1970-01-01T00:00:00.000000Z",
        "reprompt": 1,
        "organizationId": null,
        "key": "2.key",
        "attachments": null,
        "organizationUseTotp": true,
        "collectionIds": [],
        "name": "2.name",
        "notes": "2.notes",
        "fields": [{"type":2,"name":"n"},{"type":1},{"type":1},{"type":1},{"name":"x","type":1}],
        "data": {
            "username": "u",
            "uri": "https://a",
            "uris": [{"uri":"https://a","match":3},{"uri":"https://b","match":null},{"uri":"c","match":1}],
            "passwordRevisionDate": "2021-01-02T03:04:05.000000Z",
            "fields": [{"type":2,"name":"n"},{"type":1},{"type":1},{"type":1},{"name":"x","type":1}],
            "name": "2.name",
            "notes": "2.notes",
            "passwordHistory": [
                {"password":"old","lastUsedDate":"2020-02-03T04:05:06.500000+02:00"},
                {"password":"older","lastUsedDate":"1970-01-01T00:00:00.000000Z"},
                {"password":"oldest","lastUsedDate":"1970-01-01T00:00:00.000000Z"}
            ]
        },
        "passwordHistory": [
            {"password":"old","lastUsedDate":"2020-02-03T04:05:06.500000+02:00"},
            {"password":"older","lastUsedDate":"1970-01-01T00:00:00.000000Z"},
            {"password":"oldest","lastUsedDate":"1970-01-01T00:00:00.000000Z"}
        ],
        "login": {
            "username": "u",
            "uri": "https://a",
            "uris": [{"uri":"https://a","match":3},{"uri":"https://b","match":null},{"uri":"c","match":1}],
            "passwordRevisionDate": "2021-01-02T03:04:05.000000Z"
        },
        "secureNote": null,
        "card": null,
        "identity": null,
        "sshKey": null,
        "folderId": null,
        "favorite": false,
        "edit": true,
        "viewPassword": true,
        "permissions": {"delete": true, "restore": true}
    }"#,
    );
    assert_eq!(render_owned(&cipher), expected);
}

#[test]
fn login_without_uris_gets_empty_members() {
    let json = render_owned(&cipher_of_type(1, r#"{"username":"u"}"#));
    assert_eq!(json["login"], parsed(r#"{"username":"u","uri":null,"uris":null}"#));
    let json = render_owned(&cipher_of_type(1, r#"{"uri":"kept?","uris":[]}"#));
    assert_eq!(json["login"], parsed(r#"{"uri":null,"uris":[]}"#));
    let json = render_owned(&cipher_of_type(1, r#"{"uris":[{"match":2}]}"#));
    assert_eq!(json["login"], parsed(r#"{"uri":null,"uris":[{"match":2}]}"#));
}

#[test]
fn login_with_unreadable_revision_date_gets_the_epoch() {
    let json = render_owned(&cipher_of_type(1, r#"{"passwordRevisionDate":"soon"}"#));
    assert_eq!(json["login"]["passwordRevisionDate"], "1970-01-01T00:00:00.000000Z");
    let json = render_owned(&cipher_of_type(1, r#"{"passwordRevisionDate":null}"#));
    assert_eq!(json["login"]["passwordRevisionDate"], Value::Null);
}

#[test]
fn unreadable_data_become_an_empty_object() {
    let json = render_owned(&cipher_of_type(3, "not json"));
    assert_eq!(json["card"], parsed("{}"));
    assert_eq!(
        json["data"],
        parsed(r#"{"fields":[],"name":"2.name","notes":null,"passwordHistory":[]}"#)
    );
    let json = render_owned(&cipher_of_type(3, "[1]"));
    assert_eq!(json["card"], parsed("{}"));
}

#[test]
fn secure_note_needs_a_number_as_its_type() {
    let json = render_owned(&cipher_of_type(2, r#"{"Type":0,"extra":true}"#));
    assert_eq!(json["secureNote"], parsed(r#"{"type":0,"extra":true}"#));
    let json = render_owned(&cipher_of_type(2, r#"{"type":"0","extra":true}"#));
    assert_eq!(json["secureNote"], parsed(r#"{"type":0}"#));
    let json = render_owned(&cipher_of_type(2, ""));
    assert_eq!(json["secureNote"], parsed(r#"{"type":0}"#));
}

#[test]
fn identity_keys_are_lowered_with_the_ssn() {
    let json = render_owned(&cipher_of_type(
        4,
        r#"{"FirstName":"a","SSN":"1","ssN":"2","Nested":{"InnerKey":[{"Deep":1}]},"ÄB":0}"#,
    ));
    assert_eq!(json["identity"]["firstName"], "a");
    assert_eq!(json["identity"]["ssn"], "2");
    assert_eq!(json["identity"]["nested"]["innerKey"][0]["deep"], 1);
    assert_eq!(json["identity"]["äB"], 0);
    assert_eq!(json["identity"].as_object().unwrap().len(), 4);
}

#[test]
fn ssh_key_needs_all_three_parts() {
    let whole = r#"{"keyFingerprint":"f","privateKey":"p","publicKey":"q"}"#;
    assert_eq!(render_owned(&cipher_of_type(5, whole))["sshKey"], parsed(whole));
    let broken = [
        r#"{"keyFingerprint":"","privateKey":"p","publicKey":"q"}"#,
        r#"{"keyFingerprint":"f","publicKey":"q"}"#,
        r#"{"keyFingerprint":"f","privateKey":"p","publicKey":1}"#,
    ];
    for text in broken {
        let json = render_owned(&cipher_of_type(5, text));
        assert_eq!(json["sshKey"], Value::Null);
        assert_eq!(
            json["data"],
            parsed(r#"{"fields":[],"name":"2.name","notes":null,"passwordHistory":[]}"#)
        );
    }
}

#[test]
fn only_the_own_slot_is_filled() {
    let keys = ["login", "secureNote", "card", "identity", "sshKey"];
    for (i, own) in keys.iter().enumerate() {
        let data = r#"{"type":1,"keyFingerprint":"f","privateKey":"p","publicKey":"q"}"#;
        let json = render_owned(&cipher_of_type(i as i32 + 1, data));
        for key in keys {
            assert_eq!(json[key].is_null(), key != *own);
            assert!(json.get(key).is_some());
        }
    }
}

#[test]
fn one_spoilt_item_spoils_a_list() {
    let mut cipher = cipher_of_type(3, "{}");
    cipher.fields = Some(r#"[{"type":0},5]"#.to_string());
    cipher.password_history = Some(r#"{"password":"x"}"#.to_string());
    let json = render_owned(&cipher);
    assert_eq!(json["fields"], parsed("[]"));
    assert_eq!(json["passwordHistory"], parsed("[]"));
}

#[test]
fn unknown_reprompt_counts_as_none() {
    assert_eq!(RepromptType::NoReprompt.code(), 0);
    assert_eq!(RepromptType::Password.code(), 1);
    for (stored, shown) in [(None, 0), (Some(0), 0), (Some(1), 1), (Some(2), 0), (Some(-1), 0)] {
        let mut cipher = cipher_of_type(3, "{}");
        cipher.reprompt = stored;
        assert_eq!(render_owned(&cipher)["reprompt"], shown);
    }
}

#[test]
fn organization_sync_leaves_out_what_is_personal() {
    let mut cipher = cipher_of_type(3, "{}");
    cipher.organization_uuid = Some(OrganizationId("org".to_string()));
    let json = cipher
        .to_json(
            &user(),
            None,
            CipherSyncType::Organization,
            Vec::new(),
            false,
            no_standing(),
            &empty_tables(),
        )
        .unwrap();
    let json = value(&json);
    assert_eq!(json["organizationId"], "org");
    for key in ["folderId", "favorite", "edit", "viewPassword", "permissions"] {
        assert!(json.get(key).is_none());
    }
    assert_eq!(json.as_object().unwrap().len(), 22);
}

#[test]
fn stored_tables_supply_folder_favorite_and_collections() {
    let mut cipher = cipher_of_type(3, "{}");
    cipher.user_uuid = None;
    cipher.organization_uuid = Some(OrganizationId("org".to_string()));
    let mut tables = empty_tables();
    tables.collections.push(Collection {
        uuid: CollectionId("coll".to_string()),
        org_uuid: OrganizationId("org".to_string()),
    });
    tables.ciphers_collections.push(CollectionCipher {
        cipher_uuid: CipherId("cipher".to_string()),
        collection_uuid: CollectionId("coll".to_string()),
    });
    tables.users_organizations.push(Membership {
        uuid: vault_cipher::ids::MembershipId("member".to_string()),
        user_uuid: user(),
        org_uuid: OrganizationId("org".to_string()),
        access_all: true,
        status: 2,
        atype: 2,
    });
    tables.folders.push(Folder { uuid: FolderId("folder".to_string()), user_uuid: user() });
    tables.folders_ciphers.push(FolderCipher {
        cipher_uuid: CipherId("cipher".to_string()),
        folder_uuid: FolderId("folder".to_string()),
    });
    tables
        .favorites
        .push(Favorite { user_uuid: user(), cipher_uuid: CipherId("cipher".to_string()) });
    let standing = OrgStanding { member_full_access: Some(true), group_full_access: false };
    let json = cipher
        .to_json(&user(), None, CipherSyncType::User, Vec::new(), false, standing, &tables)
        .unwrap();
    let json = value(&json);
    assert_eq!(json["folderId"], "folder");
    assert_eq!(json["favorite"], true);
    assert_eq!(json["collectionIds"], parsed(r#"["coll"]"#));
    assert_eq!(json["edit"], true);
}

#[test]
fn sync_data_take_the_place_of_the_tables() {
    let mut cipher = cipher_of_type(3, "{}");
    cipher.user_uuid = None;
    cipher.organization_uuid = Some(OrganizationId("org".to_string()));
    let mut sync = empty_sync();
    sync.cipher_folders.insert("cipher".to_string(), FolderId("synced".to_string()));
    sync.cipher_favorites.push(CipherId("cipher".to_string()));
    sync.cipher_collections.insert(
        "cipher".to_string(),
        vec![CollectionId("one".to_string()), CollectionId("two".to_string())],
    );
    sync.user_collections.insert(
        "one".to_string(),
        CollectionAccess { read_only: true, hide_passwords: true, manage: false },
    );
    sync.user_collections_groups.insert(
        "one".to_string(),
        CollectionAccess { read_only: false, hide_passwords: false, manage: true },
    );
    let json = cipher
        .to_json(
            &user(),
            Some(&sync),
            CipherSyncType::User,
            Vec::new(),
            true,
            no_standing(),
            &empty_tables(),
        )
        .unwrap();
    let json = value(&json);
    assert_eq!(json["folderId"], "synced");
    assert_eq!(json["favorite"], true);
    assert_eq!(json["collectionIds"], parsed(r#"["one","two"]"#));
    assert_eq!(json["edit"], false);
    assert_eq!(json["viewPassword"], false);
    assert_eq!(json["permissions"], parsed(r#"{"delete":false,"restore":false}"#));
}

#[test]
fn without_access_a_cipher_shows_as_restricted() {
    let mut cipher = cipher_of_type(3, "{}");
    cipher.user_uuid = Some(UserId("somebody".to_string()));
    let json = render_owned(&cipher);
    assert_eq!(json["edit"], false);
    assert_eq!(json["viewPassword"], false);
}

#[test]
fn attachments_are_listed_in_order() {
    let cipher = cipher_of_type(3, "{}");
    let attachments = vec![Ok(Json::text("first")), Ok(Json::text("second"))];
    let json = cipher
        .to_json(
            &user(),
            None,
            CipherSyncType::User,
            attachments,
            false,
            no_standing(),
            &empty_tables(),
        )
        .unwrap();
    assert_eq!(value(&json)["attachments"], parsed(r#"["first","second"]"#));
}

#[test]
fn first_attachment_that_fails_is_the_error() {
    let cipher = cipher_of_type(9, "{}");
    let attachments =
        vec![Ok(Json::text("first")), Err(failure("second")), Err(failure("third"))];
    let error = cipher
        .to_json(
            &user(),
            None,
            CipherSyncType::User,
            attachments,
            false,
            no_standing(),
            &empty_tables(),
        )
        .unwrap_err();
    assert_eq!(error.message, "second");
}

#[test]
fn attachments_come_from_the_sync_or_the_tables() {
    let cipher = cipher_of_type(3, "{}");
    let mut tables = empty_tables();
    for (id, owner) in [("a", "cipher"), ("b", "other"), ("c", "cipher")] {
        tables.attachments.push(Attachment {
            id: AttachmentId(id.to_string()),
            cipher_uuid: CipherId(owner.to_string()),
        });
    }
    let stored: Vec<String> =
        cipher.attachments_to_show(None, &tables).into_iter().map(|id| id.0).collect();
    assert_eq!(stored, vec!["a".to_string(), "c".to_string()]);
    let mut sync = empty_sync();
    assert_eq!(cipher.attachments_to_show(Some(&sync), &tables).len(), 0);
    sync.cipher_attachments.insert("cipher".to_string(), vec![AttachmentId("z".to_string())]);
    let gathered: Vec<String> =
        cipher.attachments_to_show(Some(&sync), &tables).into_iter().map(|id| id.0).collect();
    assert_eq!(gathered, vec!["z".to_string()]);
}

#[test]
fn texts_that_were_read_are_rendered() {
    let cipher = cipher_of_type(2, "never read");
    let mut field = Json::object();
    field.set("type", Json::text("+7"));
    let mut data = Json::object();
    data.set("type", Json::number(3));
    let texts = Texts { fields: Some(vec![field]), password_history: None, data: Some(data) };
    let personal = Personal {
        folder: Some(FolderId("f".to_string())),
        favorite: true,
        read_only: true,
        hide_passwords: false,
    };
    let json = cipher.render(texts, Json::Null, &Vec::new(), Some(personal));
    let json = value(&json);
    assert_eq!(json["fields"], parsed(r#"[{"type":7}]"#));
    assert_eq!(json["secureNote"], parsed(r#"{"type":3}"#));
    assert_eq!(json["folderId"], "f");
    assert_eq!(json["edit"], false);
    assert_eq!(json["viewPassword"], true);
}
