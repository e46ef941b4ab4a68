//! What is gathered once for a whole sync, so that the single ciphers need no further queries.

use crate::ids::{AttachmentId, CipherId, CollectionId, FolderId, OrganizationId};
use vstd::prelude::*;

verus! {

/// A map from texts to values.
#[derive(Debug)]
pub struct TextMap<V> {
    pub entries: Vec<(String, V)>,
}

/// The map that a run of entries stands for; a later entry for a key replaces an earlier one.
pub open spec fn entries_view<V>(entries: Seq<(String, V)>) -> Map<Seq<char>, V>
    decreases entries.len(),
{
    if entries.len() == 0 {
        Map::empty()
    } else {
        entries_view(entries.drop_last()).insert(entries.last().0@, entries.last().1)
    }
}

/// The entry that counts for a key is the last one that has it.
pub proof fn lemma_entries_last<V>(entries: Seq<(String, V)>, key: Seq<char>, index: int)
    requires
        -1 <= index < entries.len(),
        forall|i: int| index < i < entries.len() ==> #[trigger] entries[i].0@ != key,
        index >= 0 ==> entries[index].0@ == key,
    ensures
        entries_view(entries).contains_key(key) == (index >= 0),
        index >= 0 ==> entries_view(entries)[key] == entries[index].1,
    decreases entries.len(),
{
    if entries.len() > 0 && index < entries.len() - 1 {
        let front = entries.drop_last();
        assert(entries[entries.len() - 1].0@ != key);
        assert forall|i: int| index < i < front.len() implies #[trigger] front[i].0@ != key by {
            assert(front[i] == entries[i]);
        }
        lemma_entries_last(front, key, index);
    }
}

impl<V> TextMap<V> {
    /// The contents of the map.
    pub open spec fn view(&self) -> Map<Seq<char>, V> {
        entries_view(self.entries@)
    }

    /// What the map holds for a key.
    pub open spec fn lookup(&self, key: Seq<char>) -> Option<V> {
        if self@.contains_key(key) {
            Some(self@[key])
        } else {
            None
        }
    }

    /// The empty map.
    pub fn new() -> (map: Self)
        ensures
            map@ == Map::<Seq<char>, V>::empty(),
    {
        TextMap { entries: Vec::new() }
    }

    /// Puts a value under a key, in place of any that was there.
    pub fn insert(&mut self, key: String, value: V)
        ensures
            final(self)@ == old(self)@.insert(key@, value),
    {
        let ghost before = self.entries@;
        self.entries.push((key, value));
        assert(self.entries@.drop_last() =~= before);
    }

    /// Looks a key up.
    pub fn get(&self, key: &String) -> (value: Option<&V>)
        ensures
            match value {
                Some(value) => self.lookup(key@) == Some(*value),
                None => self.lookup(key@) is None,
            },
    {
        let mut i: usize = self.entries.len();
        while i > 0
            invariant
                i <= self.entries@.len(),
                forall|j: int|
                    i <= j < self.entries@.len() ==> #[trigger] self.entries@[j].0@ != key@,
            decreases i,
        {
            i = i - 1;
            if self.entries[i].0 == *key {
                proof {
                    lemma_entries_last(self.entries@, key@, i as int);
                }
                return Some(&self.entries[i].1);
            }
        }
        proof {
            lemma_entries_last(self.entries@, key@, -1);
        }
        None
    }
}

/// The restrictions of an access to a collection.
#[derive(Clone, Copy, Debug, PartialEq, Eq, Structural)]
pub struct CollectionAccess {
    pub read_only: bool,
    pub hide_passwords: bool,
    pub manage: bool,
}

/// What a sync is for: the vault of a user, or the vault of an organization.
#[derive(Clone, Copy, Debug, PartialEq, Eq, Structural)]
pub enum CipherSyncType {
    User,
    Organization,
}

/// What is gathered once for a whole sync.
#[derive(Debug)]
pub struct CipherSyncData {
    /// The attachments, by cipher.
    pub cipher_attachments: TextMap<Vec<AttachmentId>>,
    /// The user's folder, by cipher.
    pub cipher_folders: TextMap<FolderId>,
    /// The user's favorites.
    pub cipher_favorites: Vec<CipherId>,
    /// The collections that the user may see, by cipher.
    pub cipher_collections: TextMap<Vec<CollectionId>>,
    /// Whether the user's membership gives full access, by organization.
    pub members: TextMap<bool>,
    /// The user's own access, by collection.
    pub user_collections: TextMap<CollectionAccess>,
    /// The user's access through groups, by collection.
    pub user_collections_groups: TextMap<CollectionAccess>,
    /// The organizations in which one of the user's groups has full access.
    pub user_group_full_access_for_organizations: Vec<OrganizationId>,
}

/// Whether the identifier is among the ciphers.
pub open spec fn lists_cipher(ciphers: Seq<CipherId>, cipher: Seq<char>) -> bool {
    exists|i: int| 0 <= i < ciphers.len() && (#[trigger] ciphers[i])@ == cipher
}

/// Whether the identifier is among the organizations.
pub open spec fn lists_org(orgs: Seq<OrganizationId>, org: Seq<char>) -> bool {
    exists|i: int| 0 <= i < orgs.len() && (#[trigger] orgs[i])@ == org
}

impl CipherSyncData {
    /// Whether the cipher is a favorite of the user.
    pub fn has_favorite(&self, cipher: &CipherId) -> (yes: bool)
        ensures
            yes == lists_cipher(self.cipher_favorites@, cipher@),
    {
        let mut i: usize = 0;
        while i < self.cipher_favorites.len()
            invariant
                i <= self.cipher_favorites@.len(),
                forall|j: int|
                    0 <= j < i ==> (#[trigger] self.cipher_favorites@[j])@ != cipher@,
            decreases self.cipher_favorites@.len() - i,
        {
            if self.cipher_favorites[i] == *cipher {
                return true;
            }
            i = i + 1;
        }
        false
    }

    /// Whether one of the user's groups has full access in the organization.
    pub fn has_full_access_group(&self, org: &OrganizationId) -> (yes: bool)
        ensures
            yes == lists_org(self.user_group_full_access_for_organizations@, org@),
    {
        let orgs = &self.user_group_full_access_for_organizations;
        let mut i: usize = 0;
        while i < orgs.len()
            invariant
                i <= orgs@.len(),
                orgs == &self.user_group_full_access_for_organizations,
                forall|j: int| 0 <= j < i ==> (#[trigger] orgs@[j])@ != org@,
            decreases orgs@.len() - i,
        {
            if orgs[i] == *org {
                return true;
            }
            i = i + 1;
        }
        false
    }
}

} // verus!
