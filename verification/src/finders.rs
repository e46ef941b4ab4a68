//! Simple searches for ciphers: by identifier, owner, organization, age and folder.

use crate::cipher::Cipher;
use crate::dates::Timestamp;
use crate::ids::{CipherId, FolderId, OrganizationId, UserId};
use crate::tables::{FolderCipher, Tables};
use vstd::prelude::*;

verus! {

/// A choice of ciphers by what is stored in them.
pub enum Criterion<'a> {
    /// The cipher with the identifier.
    Uuid(&'a CipherId),
    /// The cipher with the identifier, if it belongs to the organization.
    UuidInOrg(&'a CipherId, &'a OrganizationId),
    /// The ciphers that name the user as their owner.
    User(&'a UserId),
    /// The ciphers that name the user as their owner and no organization.
    UserAlone(&'a UserId),
    /// The ciphers of the organization.
    Org(&'a OrganizationId),
    /// The ciphers that were deleted before a point in time.
    DeletedBefore(&'a Timestamp),
}

impl Criterion<'_> {
    /// Whether the cipher meets the criterion.
    pub open spec fn admits(self, cipher: Cipher) -> bool {
        match self {
            Criterion::Uuid(uuid) => cipher.uuid@ == uuid@,
            Criterion::UuidInOrg(uuid, org) => cipher.uuid@ == uuid@ && cipher.in_org(org@),
            Criterion::User(user) => cipher.owned_by(user@),
            Criterion::UserAlone(user) => cipher.owned_by(user@)
                && cipher.organization_uuid is None,
            Criterion::Org(org) => cipher.in_org(org@),
            Criterion::DeletedBefore(time) => cipher.deleted_at matches Some(deleted)
                && deleted.before(*time),
        }
    }

    /// Whether the cipher meets the criterion.
    fn test(&self, cipher: &Cipher) -> (yes: bool)
        ensures
            yes == self.admits(*cipher),
    {
        match self {
            Criterion::Uuid(uuid) => cipher.uuid == **uuid,
            Criterion::UuidInOrg(uuid, org) => cipher.uuid == **uuid && cipher.is_in_org(org),
            Criterion::User(user) => cipher.is_owned_by_user(user),
            Criterion::UserAlone(user) => cipher.is_owned_by_user(user)
                && cipher.organization_uuid.is_none(),
            Criterion::Org(org) => cipher.is_in_org(org),
            Criterion::DeletedBefore(time) => match &cipher.deleted_at {
                Some(deleted) => deleted.is_before(time),
                None => false,
            },
        }
    }
}

/// The first of a run of values.
pub open spec fn first_of<A>(values: Seq<A>) -> Option<A> {
    if values.len() == 0 {
        None
    } else {
        Some(values[0])
    }
}

/// The ciphers that meet a criterion.
pub open spec fn selected(t: &Tables, criterion: Criterion) -> Seq<Cipher> {
    t.ciphers@.filter(|cipher: Cipher| criterion.admits(cipher))
}

/// The ciphers that meet a criterion.
fn select(t: &Tables, criterion: Criterion) -> (ciphers: Vec<Cipher>)
    ensures
        ciphers@ == selected(t, criterion),
{
    let ghost pred = |cipher: Cipher| criterion.admits(cipher);
    let mut ciphers: Vec<Cipher> = Vec::new();
    let mut i: usize = 0;
    proof {
        assert(t.ciphers@.take(0) =~= Seq::empty());
        reveal(Seq::filter);
    }
    while i < t.ciphers.len()
        invariant
            i <= t.ciphers@.len(),
            pred == (|cipher: Cipher| criterion.admits(cipher)),
            ciphers@ == t.ciphers@.take(i as int).filter(pred),
        decreases t.ciphers@.len() - i,
    {
        if criterion.test(&t.ciphers[i]) {
            ciphers.push(t.ciphers[i].clone());
        }
        proof {
            let cipher = t.ciphers@[i as int];
            t.ciphers@.take(i as int).lemma_filter_push(cipher, pred);
            assert(t.ciphers@.take(i + 1) =~= t.ciphers@.take(i as int).push(cipher));
        }
        i = i + 1;
    }
    assert(t.ciphers@.take(t.ciphers@.len() as int) =~= t.ciphers@);
    ciphers
}

/// The first cipher that meets a criterion.
fn select_first(t: &Tables, criterion: Criterion) -> (cipher: Option<Cipher>)
    ensures
        cipher == first_of(selected(t, criterion)),
{
    let ghost pred = |cipher: Cipher| criterion.admits(cipher);
    let mut i: usize = 0;
    proof {
        assert(t.ciphers@.take(0) =~= Seq::empty());
        reveal(Seq::filter);
    }
    while i < t.ciphers.len()
        invariant
            i <= t.ciphers@.len(),
            pred == (|cipher: Cipher| criterion.admits(cipher)),
            t.ciphers@.take(i as int).filter(pred).len() == 0,
        decreases t.ciphers@.len() - i,
    {
        let ghost cipher = t.ciphers@[i as int];
        proof {
            t.ciphers@.take(i as int).lemma_filter_push(cipher, pred);
            assert(t.ciphers@.take(i + 1) =~= t.ciphers@.take(i as int).push(cipher));
        }
        if criterion.test(&t.ciphers[i]) {
            proof {
                Seq::filter_distributes_over_add(
                    t.ciphers@.take(i + 1),
                    t.ciphers@.skip(i + 1),
                    pred,
                );
                assert(t.ciphers@ =~= t.ciphers@.take(i + 1) + t.ciphers@.skip(i + 1));
            }
            return Some(t.ciphers[i].clone());
        }
        i = i + 1;
    }
    assert(t.ciphers@.take(t.ciphers@.len() as int) =~= t.ciphers@);
    None
}

/// How many ciphers meet a criterion.
fn count(t: &Tables, criterion: Criterion) -> (number: i64)
    requires
        t.ciphers@.len() <= i64::MAX,
    ensures
        number == selected(t, criterion).len(),
{
    let ghost pred = |cipher: Cipher| criterion.admits(cipher);
    let mut number: i64 = 0;
    let mut i: usize = 0;
    proof {
        assert(t.ciphers@.take(0) =~= Seq::empty());
        reveal(Seq::filter);
    }
    while i < t.ciphers.len()
        invariant
            i <= t.ciphers@.len() <= i64::MAX,
            pred == (|cipher: Cipher| criterion.admits(cipher)),
            number == t.ciphers@.take(i as int).filter(pred).len(),
            number <= i,
        decreases t.ciphers@.len() - i,
    {
        if criterion.test(&t.ciphers[i]) {
            number = number + 1;
        }
        proof {
            let cipher = t.ciphers@[i as int];
            t.ciphers@.take(i as int).lemma_filter_push(cipher, pred);
            assert(t.ciphers@.take(i + 1) =~= t.ciphers@.take(i as int).push(cipher));
        }
        i = i + 1;
    }
    assert(t.ciphers@.take(t.ciphers@.len() as int) =~= t.ciphers@);
    number
}

/// Whether the folder is one of the user's.
pub open spec fn is_users_folder(t: &Tables, user: Seq<char>, folder: Seq<char>) -> bool {
    exists|i: int|
        0 <= i < t.folders@.len() && (#[trigger] t.folders@[i]).uuid@ == folder
            && t.folders@[i].user_uuid@ == user
}

/// Whether the record puts the cipher into a folder of the user.
pub open spec fn files_cipher(
    t: &Tables,
    user: Seq<char>,
    cipher: Seq<char>,
    record: FolderCipher,
) -> bool {
    record.cipher_uuid@ == cipher && is_users_folder(t, user, record.folder_uuid@)
}

/// The records that put the cipher into a folder of the user.
pub open spec fn filings(t: &Tables, user: Seq<char>, cipher: Seq<char>) -> Seq<FolderCipher> {
    t.folders_ciphers@.filter(|record: FolderCipher| files_cipher(t, user, cipher, record))
}

/// The folder of the user that the cipher is in.
pub open spec fn folder_of(t: &Tables, user: Seq<char>, cipher: Seq<char>) -> Option<FolderId> {
    match first_of(filings(t, user, cipher)) {
        Some(record) => Some(record.folder_uuid),
        None => None,
    }
}

/// Whether the folder is one of the user's.
fn owns_folder(t: &Tables, user_uuid: &UserId, folder: &FolderId) -> (yes: bool)
    ensures
        yes == is_users_folder(t, user_uuid@, folder@),
{
    let mut i: usize = 0;
    while i < t.folders.len()
        invariant
            i <= t.folders@.len(),
            forall|j: int|
                0 <= j < i ==> !((#[trigger] t.folders@[j]).uuid@ == folder@
                    && t.folders@[j].user_uuid@ == user_uuid@),
        decreases t.folders@.len() - i,
    {
        if t.folders[i].uuid == *folder && t.folders[i].user_uuid == *user_uuid {
            return true;
        }
        i = i + 1;
    }
    false
}

/// Whether the cipher is a favorite of the user.
pub open spec fn marked_favorite(t: &Tables, user: Seq<char>, cipher: Seq<char>) -> bool {
    exists|i: int|
        0 <= i < t.favorites@.len() && (#[trigger] t.favorites@[i]).cipher_uuid@ == cipher
            && t.favorites@[i].user_uuid@ == user
}

/// The stored ciphers that a folder record leads to.
pub open spec fn filed_ciphers(t: &Tables, record: FolderCipher) -> Seq<Cipher> {
    selected(t, Criterion::Uuid(&record.cipher_uuid))
}

/// The ciphers in a folder.
pub open spec fn folder_contents(t: &Tables, folder: Seq<char>) -> Seq<Cipher> {
    t.folders_ciphers@.filter(
        |record: FolderCipher| record.folder_uuid@ == folder,
    ).flat_map(|record: FolderCipher| filed_ciphers(t, record))
}

impl Cipher {
    /// Returns whether this cipher is a favorite of the specified user.
    pub fn is_favorite(&self, user_uuid: &UserId, tables: &Tables) -> (yes: bool)
        ensures
            yes == marked_favorite(tables, user_uuid@, self.uuid@),
    {
        let mut i: usize = 0;
        while i < tables.favorites.len()
            invariant
                i <= tables.favorites@.len(),
                forall|j: int|
                    0 <= j < i ==> !((#[trigger] tables.favorites@[j]).cipher_uuid@ == self.uuid@
                        && tables.favorites@[j].user_uuid@ == user_uuid@),
            decreases tables.favorites@.len() - i,
        {
            let favorite = &tables.favorites[i];
            if favorite.cipher_uuid == self.uuid && favorite.user_uuid == *user_uuid {
                return true;
            }
            i = i + 1;
        }
        false
    }

    /// The folder of the user that this cipher is in.
    pub fn get_folder_uuid(&self, user_uuid: &UserId, tables: &Tables) -> (folder: Option<
        FolderId,
    >)
        ensures
            folder == folder_of(tables, user_uuid@, self.uuid@),
    {
        let ghost all = tables.folders_ciphers@;
        let ghost pred = |record: FolderCipher|
            files_cipher(tables, user_uuid@, self.uuid@, record);
        let mut i: usize = 0;
        proof {
            assert(all.take(0) =~= Seq::empty());
            reveal(Seq::filter);
        }
        while i < tables.folders_ciphers.len()
            invariant
                i <= all.len(),
                all == tables.folders_ciphers@,
                pred == (|record: FolderCipher|
                    files_cipher(tables, user_uuid@, self.uuid@, record)),
                all.take(i as int).filter(pred).len() == 0,
            decreases all.len() - i,
        {
            let record = &tables.folders_ciphers[i];
            proof {
                all.take(i as int).lemma_filter_push(*record, pred);
                assert(all.take(i + 1) =~= all.take(i as int).push(*record));
            }
            if record.cipher_uuid == self.uuid && owns_folder(
                tables,
                user_uuid,
                &record.folder_uuid,
            ) {
                proof {
                    Seq::filter_distributes_over_add(all.take(i + 1), all.skip(i + 1), pred);
                    assert(all =~= all.take(i + 1) + all.skip(i + 1));
                }
                return Some(record.folder_uuid.clone());
            }
            i = i + 1;
        }
        assert(all.take(all.len() as int) =~= all);
        None
    }

    /// The cipher with the identifier.
    pub fn find_by_uuid(uuid: &CipherId, tables: &Tables) -> (cipher: Option<Cipher>)
        ensures
            cipher == first_of(selected(tables, Criterion::Uuid(uuid))),
    {
        select_first(tables, Criterion::Uuid(uuid))
    }

    /// The cipher with the identifier, if it belongs to the organization.
    pub fn find_by_uuid_and_org(
        cipher_uuid: &CipherId,
        org_uuid: &OrganizationId,
        tables: &Tables,
    ) -> (cipher: Option<Cipher>)
        ensures
            cipher == first_of(selected(tables, Criterion::UuidInOrg(cipher_uuid, org_uuid))),
    {
        select_first(tables, Criterion::UuidInOrg(cipher_uuid, org_uuid))
    }

    /// Find all ciphers directly owned by the specified user.
    pub fn find_owned_by_user(user_uuid: &UserId, tables: &Tables) -> (ciphers: Vec<Cipher>)
        ensures
            ciphers@ == selected(tables, Criterion::UserAlone(user_uuid)),
    {
        select(tables, Criterion::UserAlone(user_uuid))
    }

    /// How many ciphers name the user as their owner, be it with an organization or not.
    pub fn count_owned_by_user(user_uuid: &UserId, tables: &Tables) -> (number: i64)
        requires
            tables.ciphers@.len() <= i64::MAX,
        ensures
            number == selected(tables, Criterion::User(user_uuid)).len(),
    {
        count(tables, Criterion::User(user_uuid))
    }

    /// All ciphers of the organization.
    pub fn find_by_org(org_uuid: &OrganizationId, tables: &Tables) -> (ciphers: Vec<Cipher>)
        ensures
            ciphers@ == selected(tables, Criterion::Org(org_uuid)),
    {
        select(tables, Criterion::Org(org_uuid))
    }

    /// How many ciphers the organization has.
    pub fn count_by_org(org_uuid: &OrganizationId, tables: &Tables) -> (number: i64)
        requires
            tables.ciphers@.len() <= i64::MAX,
        ensures
            number == selected(tables, Criterion::Org(org_uuid)).len(),
    {
        count(tables, Criterion::Org(org_uuid))
    }

    /// Find all ciphers that were deleted before the specified point in time.
    pub fn find_deleted_before(dt: &Timestamp, tables: &Tables) -> (ciphers: Vec<Cipher>)
        ensures
            ciphers@ == selected(tables, Criterion::DeletedBefore(dt)),
    {
        select(tables, Criterion::DeletedBefore(dt))
    }

    /// All ciphers in the folder.
    pub fn find_by_folder(folder_uuid: &FolderId, tables: &Tables) -> (ciphers: Vec<Cipher>)
        ensures
            ciphers@ == folder_contents(tables, folder_uuid@),
    {
        let ghost all = tables.folders_ciphers@;
        let ghost pred = |record: FolderCipher| record.folder_uuid@ == folder_uuid@;
        let ghost f = |record: FolderCipher| filed_ciphers(tables, record);
        let mut ciphers: Vec<Cipher> = Vec::new();
        let mut i: usize = 0;
        proof {
            assert(all.take(0) =~= Seq::empty());
            reveal(Seq::filter);
            assert(all.take(0).filter(pred) =~= Seq::empty());
            assert(Seq::<FolderCipher>::empty().map_values(f) =~= Seq::empty());
        }
        while i < tables.folders_ciphers.len()
            invariant
                i <= all.len(),
                all == tables.folders_ciphers@,
                pred == (|record: FolderCipher| record.folder_uuid@ == folder_uuid@),
                f == (|record: FolderCipher| filed_ciphers(tables, record)),
                ciphers@ == all.take(i as int).filter(pred).flat_map(f),
            decreases all.len() - i,
        {
            let record = &tables.folders_ciphers[i];
            proof {
                all.take(i as int).lemma_filter_push(*record, pred);
                assert(all.take(i + 1) =~= all.take(i as int).push(*record));
                all.take(i as int).filter(pred).lemma_flat_map_push(f, *record);
            }
            if record.folder_uuid == *folder_uuid {
                let mut more = select(tables, Criterion::Uuid(&record.cipher_uuid));
                ciphers.append(&mut more);
            }
            i = i + 1;
        }
        assert(all.take(all.len() as int) =~= all);
        ciphers
    }
}

} // verus!
