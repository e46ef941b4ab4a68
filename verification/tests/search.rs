use vault_cipher::cipher::Cipher;
use vault_cipher::dates::Timestamp;
use vault_cipher::ids::{
    CipherId, CollectionId, FolderId, GroupId, MembershipId, OrganizationId, UserId,
};
use vault_cipher::tables::{
    Collection, CollectionCipher, CollectionGroup, CollectionUser, Favorite, Folder,
    FolderCipher, Group, GroupUser, Membership, Tables,
};

fn user(name: &str) -> UserId {
    UserId(name.to_string())
}

fn cipher(uuid: &str, owner: Option<&str>, org: Option<&str>) -> Cipher {
    let time = Timestamp { secs: 10, nanos: 0 };
    let mut cipher = Cipher::new_at(CipherId(uuid.to_string()), time, 1, "name".to_string());
    cipher.user_uuid = owner.map(user);
    cipher.organization_uuid = org.map(|org| OrganizationId(org.to_string()));
    cipher
}

fn link(cipher: &str, collection: &str) -> CollectionCipher {
    CollectionCipher {
        cipher_uuid: CipherId(cipher.to_string()),
        collection_uuid: CollectionId(collection.to_string()),
    }
}

fn member(uuid: &str, name: &str, access_all: bool, status: i32, atype: i32) -> Membership {
    Membership {
        uuid: MembershipId(uuid.to_string()),
        user_uuid: user(name),
        org_uuid: OrganizationId("org".to_string()),
        access_all,
        status,
        atype,
    }
}

fn access(name: &str, collection: &str, read_only: bool) -> CollectionUser {
    CollectionUser {
        user_uuid: user(name),
        collection_uuid: CollectionId(collection.to_string()),
        read_only,
        hide_passwords: false,
        manage: false,
    }
}

/// An organization with the ciphers `a` (in `red`), `b` (in `blue`) and `c` (in no collection),
/// and the private ciphers `p` of `ann` and `q` of `bob`. `ann` has access to `red`, `bob` to
/// everything, `cat` is an administrator with access to nothing, `dan` has access to `blue`
/// without being confirmed, `eve` is in a group with read-only access to `blue`, and `fay` in
/// one with access to everything.
fn vault() -> Tables {
    Tables {
        ciphers: vec![
            cipher("a", None, Some("org")),
            cipher("b", None, Some("org")),
            cipher("c", None, Some("org")),
            cipher("p", Some("ann"), None),
            cipher("q", Some("bob"), None),
        ],
        ciphers_collections: vec![link("a", "red"), link("b", "blue")],
        users_organizations: vec![
            member("m-ann", "ann", false, 2, 2),
            member("m-bob", "bob", true, 2, 2),
            member("m-cat", "cat", false, 2, 1),
            member("m-dan", "dan", false, 1, 2),
            member("m-eve", "eve", false, 2, 2),
            member("m-fay", "fay", false, 2, 2),
        ],
        users_collections: vec![access("ann", "red", true), access("dan", "blue", false)],
        groups_users: vec![
            GroupUser {
                groups_uuid: GroupId("readers".to_string()),
                users_organizations_uuid: MembershipId("m-eve".to_string()),
            },
            GroupUser {
                groups_uuid: GroupId("all".to_string()),
                users_organizations_uuid: MembershipId("m-fay".to_string()),
            },
        ],
        groups: vec![
            Group { uuid: GroupId("readers".to_string()), access_all: false },
            Group { uuid: GroupId("all".to_string()), access_all: true },
        ],
        collections_groups: vec![CollectionGroup {
            collections_uuid: CollectionId("blue".to_string()),
            groups_uuid: GroupId("readers".to_string()),
            read_only: true,
            hide_passwords: true,
            manage: false,
        }],
        collections: vec![
            Collection {
                uuid: CollectionId("red".to_string()),
                org_uuid: OrganizationId("org".to_string()),
            },
            Collection {
                uuid: CollectionId("blue".to_string()),
                org_uuid: OrganizationId("org".to_string()),
            },
        ],
        folders: vec![
            Folder { uuid: FolderId("f-ann".to_string()), user_uuid: user("ann") },
            Folder { uuid: FolderId("f-bob".to_string()), user_uuid: user("bob") },
        ],
        folders_ciphers: vec![
            FolderCipher {
                cipher_uuid: CipherId("a".to_string()),
                folder_uuid: FolderId("f-bob".to_string()),
            },
            FolderCipher {
                cipher_uuid: CipherId("a".to_string()),
                folder_uuid: FolderId("f-ann".to_string()),
            },
            FolderCipher {
                cipher_uuid: CipherId("p".to_string()),
                folder_uuid: FolderId("f-ann".to_string()),
            },
        ],
        favorites: vec![Favorite {
            user_uuid: user("ann"),
            cipher_uuid: CipherId("a".to_string()),
        }],
        attachments: Vec::new(),
    }
}

fn uuids(ciphers: &Vec<Cipher>) -> String {
    ciphers.iter().map(|cipher| cipher.uuid.0.as_str()).collect::<Vec<_>>().join(" ")
}

fn found(name: &str, visible_only: bool, groups: bool) -> String {
    uuids(&Cipher::find_by_user(&user(name), visible_only, groups, &vault()))
}

fn collections(name: &str, uuid: &str, groups: bool, admin: bool) -> Vec<String> {
    let tables = vault();
    let cipher = Cipher::find_by_uuid(&CipherId(uuid.to_string()), &tables).unwrap();
    let ids = if admin {
        cipher.get_admin_collections(user(name), groups, &tables)
    } else {
        cipher.get_collections(user(name), groups, &tables)
    };
    ids.into_iter().map(|id| id.0).collect()
}

#[test]
fn users_find_what_they_own_and_reach() {
    for groups in [false, true] {
        assert_eq!(found("ann", false, groups), "a p");
        assert_eq!(found("bob", false, groups), "a b c q");
        assert_eq!(found("nobody", false, groups), "");
    }
}

#[test]
fn unconfirmed_members_find_nothing_of_the_organization() {
    assert_eq!(found("dan", false, false), "");
    assert_eq!(found("dan", false, true), "");
}

#[test]
fn groups_count_only_where_they_are_in_use() {
    assert_eq!(found("eve", false, false), "");
    assert_eq!(found("eve", false, true), "b");
    assert_eq!(found("fay", false, false), "");
    assert_eq!(found("fay", false, true), "a b c");
}

#[test]
fn administrators_access_more_than_is_visible_to_them() {
    assert_eq!(found("cat", false, false), "a b c");
    assert_eq!(found("cat", true, false), "");
    let visible = Cipher::find_by_user_visible(&user("cat"), true, &vault());
    assert_eq!(uuids(&visible), "");
    let visible = Cipher::find_by_user_visible(&user("ann"), true, &vault());
    assert_eq!(uuids(&visible), "a p");
}

#[test]
fn no_cipher_is_found_twice() {
    let mut tables = vault();
    tables.ciphers_collections.push(link("a", "blue"));
    tables.users_collections.push(access("ann", "blue", false));
    let ciphers = Cipher::find_by_user(&user("ann"), false, true, &tables);
    assert_eq!(uuids(&ciphers), "a b p");
}

#[test]
fn equal_rows_are_found_once() {
    let mut tables = vault();
    tables.ciphers.push(cipher("p", Some("ann"), None));
    let mut changed = cipher("p", Some("ann"), None);
    changed.notes = Some("changed".to_string());
    tables.ciphers.push(changed);
    let ciphers = Cipher::find_by_user(&user("ann"), false, false, &tables);
    assert_eq!(uuids(&ciphers), "a p p");
    assert_eq!(ciphers[2].notes, Some("changed".to_string()));
    tables.ciphers_collections.push(link("a", "red"));
    let pairs = Cipher::get_collections_with_cipher_by_user(user("ann"), &tables);
    assert_eq!(pairs.len(), 1);
}

#[test]
fn collections_need_access_that_allows_changes() {
    assert_eq!(collections("ann", "a", false, false).len(), 0);
    assert_eq!(collections("bob", "a", false, false), vec!["red".to_string()]);
    assert_eq!(collections("eve", "b", true, false).len(), 0);
    assert_eq!(collections("fay", "b", true, false), vec!["blue".to_string()]);
    assert_eq!(collections("fay", "b", false, false).len(), 0);
}

#[test]
fn administrators_have_all_collections() {
    assert_eq!(collections("cat", "a", false, false).len(), 0);
    assert_eq!(collections("cat", "a", false, true), vec!["red".to_string()]);
    assert_eq!(collections("cat", "c", false, true).len(), 0);
    assert_eq!(collections("bob", "a", false, true), vec!["red".to_string()]);
}

#[test]
fn access_without_membership_counts_where_groups_are_in_use() {
    let mut tables = vault();
    tables.users_organizations.remove(3);
    let cipher = Cipher::find_by_uuid(&CipherId("b".to_string()), &tables).unwrap();
    assert_eq!(cipher.get_collections(user("dan"), true, &tables).len(), 1);
    assert_eq!(cipher.get_collections(user("dan"), false, &tables).len(), 0);
}

#[test]
fn full_sync_lists_links_once() {
    let pairs = |name: &str| {
        Cipher::get_collections_with_cipher_by_user(user(name), &vault())
            .into_iter()
            .map(|(cipher, collection)| format!("{}-{}", cipher.0, collection.0))
            .collect::<Vec<_>>()
            .join(" ")
    };
    assert_eq!(pairs("ann"), "a-red");
    assert_eq!(pairs("bob"), "a-red b-blue");
    assert_eq!(pairs("cat"), "a-red b-blue");
    assert_eq!(pairs("dan"), "b-blue");
    assert_eq!(pairs("eve"), "b-blue");
    assert_eq!(pairs("fay"), "a-red b-blue");
    assert_eq!(pairs("nobody"), "");
}

#[test]
fn ciphers_are_found_by_their_identifier() {
    let tables = vault();
    let id = CipherId("b".to_string());
    let org = OrganizationId("org".to_string());
    let other = OrganizationId("other".to_string());
    assert_eq!(Cipher::find_by_uuid(&id, &tables).unwrap().uuid.0, "b");
    assert!(Cipher::find_by_uuid(&CipherId("z".to_string()), &tables).is_none());
    assert!(Cipher::find_by_uuid_and_org(&id, &org, &tables).is_some());
    assert!(Cipher::find_by_uuid_and_org(&id, &other, &tables).is_none());
    assert!(Cipher::find_by_uuid_and_org(&CipherId("p".to_string()), &org, &tables).is_none());
}

#[test]
fn owned_ciphers_are_found_and_counted() {
    let mut tables = vault();
    tables.ciphers.push(cipher("r", Some("ann"), Some("org")));
    assert_eq!(uuids(&Cipher::find_owned_by_user(&user("ann"), &tables)), "p");
    assert_eq!(Cipher::count_owned_by_user(&user("ann"), &tables), 2);
    let org = OrganizationId("org".to_string());
    assert_eq!(uuids(&Cipher::find_by_org(&org, &tables)), "a b c r");
    assert_eq!(Cipher::count_by_org(&org, &tables), 4);
    assert_eq!(Cipher::count_by_org(&OrganizationId("x".to_string()), &tables), 0);
}

#[test]
fn folders_hold_ciphers_by_user() {
    let tables = vault();
    let a = Cipher::find_by_uuid(&CipherId("a".to_string()), &tables).unwrap();
    assert_eq!(a.get_folder_uuid(&user("ann"), &tables).unwrap().0, "f-ann");
    assert_eq!(a.get_folder_uuid(&user("bob"), &tables).unwrap().0, "f-bob");
    assert!(a.get_folder_uuid(&user("cat"), &tables).is_none());
    let folder = FolderId("f-ann".to_string());
    assert_eq!(uuids(&Cipher::find_by_folder(&folder, &tables)), "a p");
    assert_eq!(uuids(&Cipher::find_by_folder(&FolderId("x".to_string()), &tables)), "");
}

#[test]
fn favorites_go_by_the_user() {
    let tables = vault();
    let a = Cipher::find_by_uuid(&CipherId("a".to_string()), &tables).unwrap();
    assert!(a.is_favorite(&user("ann"), &tables));
    assert!(!a.is_favorite(&user("bob"), &tables));
}

#[test]
fn deleted_ciphers_are_found_by_their_age() {
    let mut tables = vault();
    tables.ciphers[0].deleted_at = Some(Timestamp { secs: 100, nanos: 5 });
    tables.ciphers[1].deleted_at = Some(Timestamp { secs: 100, nanos: 6 });
    let cutoff = Timestamp { secs: 100, nanos: 6 };
    assert_eq!(uuids(&Cipher::find_deleted_before(&cutoff, &tables)), "a");
}
