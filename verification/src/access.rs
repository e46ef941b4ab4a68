//! Who may see and edit a cipher.

use crate::cipher::Cipher;
use crate::ids::{CollectionId, UserId};
use crate::queries::{group_access_flags, user_access_flags};
use crate::sync::{lists_org, CipherSyncData, CollectionAccess, TextMap};
use crate::tables::Tables;
use vstd::prelude::*;

verus! {

/// What the membership and group records say of a user and the organization of a cipher.
#[derive(Clone, Copy, Debug, PartialEq, Eq, Structural)]
pub struct OrgStanding {
    /// Whether the user's membership gives full access, where the user is a member.
    pub member_full_access: Option<bool>,
    /// Whether one of the user's groups in the organization has full access.
    pub group_full_access: bool,
}

/// Whether the cipher is in an organization in which the user has full access.
pub open spec fn full_access_org(
    cipher: Cipher,
    sync: Option<&CipherSyncData>,
    standing: OrgStanding,
) -> bool {
    &&& cipher.organization_uuid is Some
    &&& match sync {
        Some(sync) => sync.members.lookup(cipher.organization_uuid->0@) == Some(true),
        None => standing.member_full_access == Some(true),
    }
}

/// Whether the cipher is in an organization in which a group of the user has full access.
pub open spec fn full_access_group(
    cipher: Cipher,
    sync: Option<&CipherSyncData>,
    groups: bool,
    standing: OrgStanding,
) -> bool {
    &&& groups
    &&& cipher.organization_uuid is Some
    &&& match sync {
        Some(sync) => lists_org(
            sync.user_group_full_access_for_organizations@,
            cipher.organization_uuid->0@,
        ),
        None => standing.group_full_access,
    }
}

/// The flags of an access to a collection.
pub open spec fn access_flags(access: CollectionAccess) -> (bool, bool, bool) {
    (access.read_only, access.hide_passwords, access.manage)
}

/// The flags that a list of accesses has for a collection.
pub open spec fn listed_flags(
    accesses: &TextMap<CollectionAccess>,
    collection: Seq<char>,
) -> Option<(bool, bool, bool)> {
    match accesses.lookup(collection) {
        Some(access) => Some(access_flags(access)),
        None => None,
    }
}

/// The flags that a list of accesses has for collections, one after the other.
pub open spec fn gathered_flags(
    accesses: &TextMap<CollectionAccess>,
    collections: Seq<CollectionId>,
) -> Seq<(bool, bool, bool)> {
    collections.filter_map(|collection: CollectionId| listed_flags(accesses, collection@))
}

/// The flags that a sync has gathered for the collections of a cipher: those of the user's own
/// accesses, and only where there are none, those of groups.
pub open spec fn sync_flags(sync: &CipherSyncData, cipher: Seq<char>) -> Seq<(bool, bool, bool)> {
    match sync.cipher_collections.lookup(cipher) {
        Some(collections) => {
            let own = gathered_flags(&sync.user_collections, collections@);
            if own.len() > 0 {
                own
            } else {
                gathered_flags(&sync.user_collections_groups, collections@)
            }
        },
        None => Seq::empty(),
    }
}

/// The flags of a user's access to a cipher: the user's own, and only where there are none,
/// those of groups.
pub open spec fn stored_flags(
    t: &Tables,
    user: UserId,
    groups: bool,
    cipher: Cipher,
) -> Seq<(bool, bool, bool)> {
    let own = user_access_flags(t, user, cipher);
    if own.len() > 0 {
        own
    } else {
        group_access_flags(t, user, groups, cipher)
    }
}

/// Whether the value is an access that is read-only.
pub open spec fn is_read_only(flags: (bool, bool, bool)) -> bool {
    flags.0
}

/// Whether the value is an access that hides passwords.
pub open spec fn is_hiding(flags: (bool, bool, bool)) -> bool {
    flags.1
}

/// Whether the value is an access that manages the collection.
pub open spec fn is_managing(flags: (bool, bool, bool)) -> bool {
    flags.2
}

/// What several accesses come to: read-only and hidden passwords only where all accesses say
/// so, managing where any does; nothing where there is no access.
pub open spec fn combined_flags(rows: Seq<(bool, bool, bool)>) -> Option<(bool, bool, bool)> {
    if rows.len() == 0 {
        None
    } else {
        Some(
            (
                forall|i: int| 0 <= i < rows.len() ==> is_read_only(#[trigger] rows[i]),
                forall|i: int| 0 <= i < rows.len() ==> is_hiding(#[trigger] rows[i]),
                exists|i: int| 0 <= i < rows.len() && is_managing(#[trigger] rows[i]),
            ),
        )
    }
}

/// The restrictions of a user's access to a cipher.
pub open spec fn restrictions(
    cipher: Cipher,
    user: UserId,
    sync: Option<&CipherSyncData>,
    groups: bool,
    standing: OrgStanding,
    t: &Tables,
) -> Option<(bool, bool, bool)> {
    if cipher.owned_by(user@) || full_access_org(cipher, sync, standing) || full_access_group(
        cipher,
        sync,
        groups,
        standing,
    ) {
        Some((false, false, true))
    } else {
        combined_flags(
            match sync {
                Some(sync) => sync_flags(sync, cipher.uuid@),
                None => stored_flags(t, user, groups, cipher),
            },
        )
    }
}

/// Whether the restrictions let the user change a cipher.
pub open spec fn allows_writing(flags: Option<(bool, bool, bool)>) -> bool {
    flags matches Some((read_only, hide_passwords, manage)) && (!read_only || manage)
}

/// Combines the accesses to a cipher.
///
/// A cipher can be in multiple collections with inconsistent access flags. For a flag to be in
/// effect for a cipher, all collections the cipher is in must have that flag set. The only
/// exception is the `manage` flag, for which one collection is enough.
pub fn combine_flags(rows: &Vec<(bool, bool, bool)>) -> (combined: Option<(bool, bool, bool)>)
    ensures
        combined == combined_flags(rows@),
{
    if rows.len() == 0 {
        return None;
    }
    let mut read_only = true;
    let mut hide_passwords = true;
    let mut manage = false;
    let mut i: usize = 0;
    while i < rows.len()
        invariant
            i <= rows@.len(),
            read_only == (forall|j: int| 0 <= j < i ==> is_read_only(#[trigger] rows@[j])),
            hide_passwords == (forall|j: int| 0 <= j < i ==> is_hiding(#[trigger] rows@[j])),
            manage == (exists|j: int| 0 <= j < i && is_managing(#[trigger] rows@[j])),
        decreases rows@.len() - i,
    {
        let (ro, hp, mn) = rows[i];
        assert(is_read_only(rows@[i as int]) == ro);
        assert(is_hiding(rows@[i as int]) == hp);
        assert(is_managing(rows@[i as int]) == mn);
        read_only = read_only && ro;
        hide_passwords = hide_passwords && hp;
        manage = manage || mn;
        i = i + 1;
    }
    Some((read_only, hide_passwords, manage))
}

/// The flags that a list of accesses has for collections.
fn gather_flags(
    accesses: &TextMap<CollectionAccess>,
    collections: &Vec<CollectionId>,
) -> (rows: Vec<(bool, bool, bool)>)
    ensures
        rows@ == gathered_flags(accesses, collections@),
{
    let ghost f = |collection: CollectionId| listed_flags(accesses, collection@);
    let mut rows: Vec<(bool, bool, bool)> = Vec::new();
    let mut i: usize = 0;
    proof {
        assert(collections@.take(0) =~= Seq::empty());
        reveal(Seq::filter_map);
    }
    while i < collections.len()
        invariant
            i <= collections@.len(),
            f == (|collection: CollectionId| listed_flags(accesses, collection@)),
            rows@ == collections@.take(i as int).filter_map(f),
        decreases collections@.len() - i,
    {
        proof {
            collections@.lemma_filter_map_take_succ(f, i as int);
        }
        match accesses.get(&collections[i].0) {
            Some(access) => {
                rows.push((access.read_only, access.hide_passwords, access.manage));
            },
            None => {},
        }
        i = i + 1;
    }
    assert(collections@.take(collections@.len() as int) =~= collections@);
    rows
}

/// The flags that a sync has gathered for the collections of a cipher.
fn gather_sync_flags(sync: &CipherSyncData, cipher: &Cipher) -> (rows: Vec<(bool, bool, bool)>)
    ensures
        rows@ == sync_flags(sync, cipher.uuid@),
{
    match sync.cipher_collections.get(&cipher.uuid.0) {
        Some(collections) => {
            let own = gather_flags(&sync.user_collections, collections);
            if own.len() > 0 {
                own
            } else {
                gather_flags(&sync.user_collections_groups, collections)
            }
        },
        None => Vec::new(),
    }
}

impl Cipher {
    /// Returns whether this cipher is owned by an organization in which the user has full
    /// access.
    pub fn is_in_full_access_org(
        &self,
        cipher_sync_data: Option<&CipherSyncData>,
        standing: OrgStanding,
    ) -> (yes: bool)
        ensures
            yes == full_access_org(*self, cipher_sync_data, standing),
    {
        match &self.organization_uuid {
            Some(org) => match cipher_sync_data {
                Some(sync) => match sync.members.get(&org.0) {
                    Some(full_access) => *full_access,
                    None => false,
                },
                None => match standing.member_full_access {
                    Some(full_access) => full_access,
                    None => false,
                },
            },
            None => false,
        }
    }

    /// Returns whether this cipher is owned by an organization in which a group of the user has
    /// full access.
    pub fn is_in_full_access_group(
        &self,
        cipher_sync_data: Option<&CipherSyncData>,
        org_groups_enabled: bool,
        standing: OrgStanding,
    ) -> (yes: bool)
        ensures
            yes == full_access_group(*self, cipher_sync_data, org_groups_enabled, standing),
    {
        if !org_groups_enabled {
            return false;
        }
        match &self.organization_uuid {
            Some(org) => match cipher_sync_data {
                Some(sync) => sync.has_full_access_group(org),
                None => standing.group_full_access,
            },
            None => false,
        }
    }

    /// Returns the user's access restrictions to this cipher. A return value of None means that
    /// this cipher does not belong to the user, and is not in any collection the user has
    /// access to. Otherwise, the user has access to this cipher, and
    /// Some(read_only, hide_passwords, manage) represents the access restrictions. With sync
    /// data and without, the user's own permissions overrule those of groups.
    pub fn get_access_restrictions(
        &self,
        user_uuid: &UserId,
        cipher_sync_data: Option<&CipherSyncData>,
        org_groups_enabled: bool,
        standing: OrgStanding,
        tables: &Tables,
    ) -> (flags: Option<(bool, bool, bool)>)
        ensures
            flags == restrictions(
                *self,
                *user_uuid,
                cipher_sync_data,
                org_groups_enabled,
                standing,
                tables,
            ),
    {
        // Whoever owns the cipher, or has full access where it is, is under no restriction.
        if self.is_owned_by_user(user_uuid) || self.is_in_full_access_org(
            cipher_sync_data,
            standing,
        ) || self.is_in_full_access_group(cipher_sync_data, org_groups_enabled, standing) {
            return Some((false, false, true));
        }
        let rows = match cipher_sync_data {
            Some(sync) => gather_sync_flags(sync, self),
            None => {
                let own = self.get_user_collections_access_flags(user_uuid, tables);
                if own.len() > 0 {
                    own
                } else {
                    self.get_group_collections_access_flags(user_uuid, org_groups_enabled, tables)
                }
            },
        };
        combine_flags(&rows)
    }

    /// Returns whether the user may change this cipher.
    pub fn is_write_accessible_to_user(
        &self,
        user_uuid: &UserId,
        org_groups_enabled: bool,
        standing: OrgStanding,
        tables: &Tables,
    ) -> (yes: bool)
        ensures
            yes == allows_writing(
                restrictions(*self, *user_uuid, None, org_groups_enabled, standing, tables),
            ),
    {
        match self.get_access_restrictions(user_uuid, None, org_groups_enabled, standing, tables) {
            Some((read_only, _hide_passwords, manage)) => !read_only || manage,
            None => false,
        }
    }

    /// Returns whether the user may see this cipher.
    pub fn is_accessible_to_user(
        &self,
        user_uuid: &UserId,
        org_groups_enabled: bool,
        standing: OrgStanding,
        tables: &Tables,
    ) -> (yes: bool)
        ensures
            yes == restrictions(
                *self,
                *user_uuid,
                None,
                org_groups_enabled,
                standing,
                tables,
            ) is Some,
    {
        self.get_access_restrictions(
            user_uuid,
            None,
            org_groups_enabled,
            standing,
            tables,
        ).is_some()
    }
}

} // verus!
