use vault_cipher::access::{combine_flags, OrgStanding};
use vault_cipher::cipher::Cipher;
use vault_cipher::dates::Timestamp;
use vault_cipher::ids::{
    CipherId, CollectionId, GroupId, MembershipId, OrganizationId, UserId,
};
use vault_cipher::sync::{CipherSyncData, CollectionAccess, TextMap};
use vault_cipher::tables::{
    CollectionCipher, CollectionGroup, CollectionUser, GroupUser, Membership, Tables,
};

fn ann() -> UserId {
    UserId("ann".to_string())
}

fn org_cipher() -> Cipher {
    let time = Timestamp { secs: 10, nanos: 0 };
    let mut cipher = Cipher::new_at(CipherId("a".to_string()), time, 1, "name".to_string());
    cipher.organization_uuid = Some(OrganizationId("org".to_string()));
    cipher
}

fn outsider() -> OrgStanding {
    OrgStanding { member_full_access: None, group_full_access: false }
}

/// The cipher `a` in the collections `red` and `blue`, and `ann` in the group `g`.
fn vault() -> Tables {
    let link = |collection: &str| CollectionCipher {
        cipher_uuid: CipherId("a".to_string()),
        collection_uuid: CollectionId(collection.to_string()),
    };
    Tables {
        ciphers: vec![org_cipher()],
        ciphers_collections: vec![link("red"), link("blue")],
        users_organizations: vec![Membership {
            uuid: MembershipId("m".to_string()),
            user_uuid: ann(),
            org_uuid: OrganizationId("org".to_string()),
            access_all: false,
            status: 2,
            atype: 2,
        }],
        users_collections: Vec::new(),
        groups_users: vec![GroupUser {
            groups_uuid: GroupId("g".to_string()),
            users_organizations_uuid: MembershipId("m".to_string()),
        }],
        groups: Vec::new(),
        collections_groups: Vec::new(),
        collections: Vec::new(),
        folders: Vec::new(),
        folders_ciphers: Vec::new(),
        favorites: Vec::new(),
        attachments: Vec::new(),
    }
}

fn own(collection: &str, flags: (bool, bool, bool)) -> CollectionUser {
    CollectionUser {
        user_uuid: ann(),
        collection_uuid: CollectionId(collection.to_string()),
        read_only: flags.0,
        hide_passwords: flags.1,
        manage: flags.2,
    }
}

fn of_group(collection: &str, flags: (bool, bool, bool)) -> CollectionGroup {
    CollectionGroup {
        collections_uuid: CollectionId(collection.to_string()),
        groups_uuid: GroupId("g".to_string()),
        read_only: flags.0,
        hide_passwords: flags.1,
        manage: flags.2,
    }
}

fn restrictions(tables: &Tables, groups: bool) -> Option<(bool, bool, bool)> {
    org_cipher().get_access_restrictions(&ann(), None, groups, outsider(), tables)
}

#[test]
fn owners_are_unrestricted() {
    let mut cipher = org_cipher();
    cipher.user_uuid = Some(ann());
    let flags = cipher.get_access_restrictions(&ann(), None, false, outsider(), &vault());
    assert_eq!(flags, Some((false, false, true)));
}

#[test]
fn full_access_is_unrestricted() {
    let cipher = org_cipher();
    let member = OrgStanding { member_full_access: Some(true), group_full_access: false };
    let group = OrgStanding { member_full_access: Some(false), group_full_access: true };
    let tables = vault();
    let flags = |standing: OrgStanding, groups: bool| {
        cipher.get_access_restrictions(&ann(), None, groups, standing, &tables)
    };
    assert_eq!(flags(member, false), Some((false, false, true)));
    assert_eq!(flags(group, true), Some((false, false, true)));
    assert_eq!(flags(group, false), None);
    let mut private = org_cipher();
    private.organization_uuid = None;
    assert!(!private.is_in_full_access_org(None, member));
    assert!(!private.is_in_full_access_group(None, true, group));
}

#[test]
fn without_access_there_are_no_restrictions() {
    assert_eq!(restrictions(&vault(), true), None);
    assert!(!org_cipher().is_accessible_to_user(&ann(), true, outsider(), &vault()));
    assert!(!org_cipher().is_write_accessible_to_user(&ann(), true, outsider(), &vault()));
}

#[test]
fn restrictions_apply_where_all_collections_have_them() {
    let mut tables = vault();
    tables.users_collections.push(own("red", (true, true, false)));
    assert_eq!(restrictions(&tables, false), Some((true, true, false)));
    tables.users_collections.push(own("blue", (false, true, true)));
    assert_eq!(restrictions(&tables, false), Some((false, true, true)));
    tables.users_collections.push(own("green", (false, false, false)));
    assert_eq!(restrictions(&tables, false), Some((false, true, true)));
}

#[test]
fn managers_may_write_in_spite_of_read_only() {
    let mut tables = vault();
    tables.users_collections.push(own("red", (true, false, false)));
    assert!(org_cipher().is_accessible_to_user(&ann(), false, outsider(), &tables));
    assert!(!org_cipher().is_write_accessible_to_user(&ann(), false, outsider(), &tables));
    tables.users_collections.push(own("blue", (true, false, true)));
    assert!(org_cipher().is_write_accessible_to_user(&ann(), false, outsider(), &tables));
}

#[test]
fn own_access_overrules_groups() {
    let mut tables = vault();
    tables.collections_groups.push(of_group("red", (false, false, true)));
    assert_eq!(restrictions(&tables, true), Some((false, false, true)));
    assert_eq!(restrictions(&tables, false), None);
    tables.users_collections.push(own("blue", (true, true, false)));
    assert_eq!(restrictions(&tables, true), Some((true, true, false)));
}

#[test]
fn flags_are_listed_for_every_collection() {
    let mut tables = vault();
    tables.users_collections.push(own("red", (true, false, false)));
    tables.users_collections.push(own("blue", (false, true, false)));
    tables.collections_groups.push(of_group("blue", (true, true, true)));
    let cipher = org_cipher();
    assert_eq!(
        cipher.get_user_collections_access_flags(&ann(), &tables),
        vec![(true, false, false), (false, true, false)]
    );
    assert_eq!(
        cipher.get_group_collections_access_flags(&ann(), true, &tables),
        vec![(true, true, true)]
    );
    assert_eq!(cipher.get_group_collections_access_flags(&ann(), false, &tables), vec![]);
    tables.ciphers.clear();
    assert_eq!(cipher.get_user_collections_access_flags(&ann(), &tables), vec![]);
}

#[test]
fn order_of_accesses_makes_no_difference() {
    let rows = vec![(true, false, false), (true, true, true), (false, true, false)];
    let turned = vec![(false, true, false), (true, true, true), (true, false, false)];
    assert_eq!(combine_flags(&rows), Some((false, false, true)));
    assert_eq!(combine_flags(&rows), combine_flags(&turned));
    assert_eq!(combine_flags(&Vec::new()), None);
}

#[test]
fn more_accesses_never_restrict() {
    let few = vec![(true, true, false)];
    let more = vec![(true, true, false), (true, false, true)];
    assert_eq!(combine_flags(&few), Some((true, true, false)));
    assert_eq!(combine_flags(&more), Some((true, false, true)));
}

fn empty_sync() -> CipherSyncData {
    CipherSyncData {
        cipher_attachments: TextMap::new(),
        cipher_folders: TextMap::new(),
        cipher_favorites: Vec::new(),
        cipher_collections: TextMap::new(),
        members: TextMap::new(),
        user_collections: TextMap::new(),
        user_collections_groups: TextMap::new(),
        user_group_full_access_for_organizations: Vec::new(),
    }
}

#[test]
fn own_access_overrules_groups_in_a_sync() {
    let own_flags = (true, true, false);
    let group_flags = (false, false, true);
    let access = |flags: (bool, bool, bool)| CollectionAccess {
        read_only: flags.0,
        hide_passwords: flags.1,
        manage: flags.2,
    };
    let cipher = Cipher::new(1, "n".to_string());
    let mut sync = empty_sync();
    sync.cipher_collections.insert(
        cipher.uuid.0.clone(),
        vec![CollectionId("red".to_string()), CollectionId("blue".to_string())],
    );
    sync.user_collections_groups.insert("blue".to_string(), access(group_flags));
    let flags = |sync: &CipherSyncData| {
        cipher.get_access_restrictions(&ann(), Some(sync), true, outsider(), &vault())
    };
    assert_eq!(flags(&sync), Some(group_flags));
    sync.user_collections.insert("red".to_string(), access(own_flags));
    assert_eq!(flags(&sync), Some(own_flags));
    let mut tables = vault();
    tables.users_collections.push(own("red", own_flags));
    tables.collections_groups.push(of_group("blue", group_flags));
    assert_eq!(restrictions(&tables, true), Some(own_flags));
}

#[test]
fn sync_data_decide_during_a_sync() {
    let access = |read_only, hide_passwords, manage| CollectionAccess {
        read_only,
        hide_passwords,
        manage,
    };
    let mut sync = empty_sync();
    let cipher = org_cipher();
    let tables = vault();
    let full = OrgStanding { member_full_access: Some(true), group_full_access: true };
    let flags = |sync: &CipherSyncData, groups: bool| {
        cipher.get_access_restrictions(&ann(), Some(sync), groups, full, &tables)
    };
    assert_eq!(flags(&sync, true), None);
    sync.cipher_collections.insert(
        "a".to_string(),
        vec![CollectionId("red".to_string()), CollectionId("blue".to_string())],
    );
    assert_eq!(flags(&sync, true), None);
    sync.user_collections_groups.insert("red".to_string(), access(false, true, true));
    sync.user_collections_groups.insert("blue".to_string(), access(true, true, false));
    assert_eq!(flags(&sync, true), Some((false, true, true)));
    sync.user_collections.insert("red".to_string(), access(true, true, false));
    assert_eq!(flags(&sync, true), Some((true, true, false)));
    sync.user_group_full_access_for_organizations.push(OrganizationId("org".to_string()));
    assert_eq!(flags(&sync, false), Some((true, true, false)));
    assert_eq!(flags(&sync, true), Some((false, false, true)));
    sync.members.insert("org".to_string(), true);
    assert_eq!(flags(&sync, false), Some((false, false, true)));
}
