//! The changes that operations on ciphers make to the store, and what each does to the tables.

use crate::cipher::Cipher;
use crate::ids::{CipherId, FolderId, UserId};
use crate::tables::{Attachment, CollectionCipher, Favorite, FolderCipher, Tables};
use vstd::prelude::*;

verus! {

/// One change to the store.
#[derive(Debug)]
pub enum Action {
    /// Note that what the user sees has changed.
    UpdateRevision(UserId),
    /// Insert the cipher after deleting the one with its identifier.
    ReplaceCipher(Cipher),
    /// Overwrite the cipher with the identifier.
    UpdateCipher(Cipher),
    /// Overwrite the cipher with the identifier, or insert it where there is none.
    UpsertCipher(Cipher),
    /// Take the cipher out of all folders.
    DeleteFolderLinks(CipherId),
    /// Take the cipher out of all collections.
    DeleteCollectionLinks(CipherId),
    /// Delete all attachments of the cipher.
    DeleteAttachments(CipherId),
    /// Make the cipher nobody's favorite.
    DeleteFavorites(CipherId),
    /// Delete the cipher.
    DeleteCipher(CipherId),
    /// Put the cipher into the folder.
    SaveFolderLink(FolderId, CipherId),
    /// Take the cipher out of the folder.
    DeleteFolderLink(FolderId, CipherId),
    /// Make the cipher a favorite of the user, or no longer one.
    SetFavorite(bool, CipherId, UserId),
}

/// Whether one of the ciphers has the identifier.
pub open spec fn holds_cipher(ciphers: Seq<Cipher>, uuid: Seq<char>) -> bool {
    exists|i: int| 0 <= i < ciphers.len() && (#[trigger] ciphers[i]).uuid@ == uuid
}

/// The ciphers with `cipher` in place of the one with its identifier.
pub open spec fn overwritten(ciphers: Seq<Cipher>, cipher: Cipher) -> Seq<Cipher> {
    ciphers.map_values(
        |stored: Cipher|
            if stored.uuid@ == cipher.uuid@ {
                cipher
            } else {
                stored
            },
    )
}

/// The ciphers other than the one with the identifier.
pub open spec fn without_cipher(ciphers: Seq<Cipher>, uuid: Seq<char>) -> Seq<Cipher> {
    ciphers.filter(|stored: Cipher| stored.uuid@ != uuid)
}

/// The records that put no cipher into the folder, or another one.
pub open spec fn without_filing(
    filings: Seq<FolderCipher>,
    folder: Seq<char>,
    cipher: Seq<char>,
) -> Seq<FolderCipher> {
    filings.filter(
        |record: FolderCipher| !(record.folder_uuid@ == folder && record.cipher_uuid@ == cipher),
    )
}

/// The marks of favorites other than that of the user on the cipher.
pub open spec fn without_mark(
    favorites: Seq<Favorite>,
    cipher: Seq<char>,
    user: Seq<char>,
) -> Seq<Favorite> {
    favorites.filter(
        |favorite: Favorite| !(favorite.cipher_uuid@ == cipher && favorite.user_uuid@ == user),
    )
}

impl Action {
    /// What the change does to `ciphers`.
    pub open spec fn on_ciphers(self, ciphers: Seq<Cipher>) -> Seq<Cipher> {
        match self {
            Action::ReplaceCipher(cipher) => without_cipher(ciphers, cipher.uuid@).push(cipher),
            Action::UpdateCipher(cipher) => overwritten(ciphers, cipher),
            Action::UpsertCipher(cipher) => if holds_cipher(ciphers, cipher.uuid@) {
                overwritten(ciphers, cipher)
            } else {
                ciphers.push(cipher)
            },
            Action::DeleteCipher(uuid) => without_cipher(ciphers, uuid@),
            _ => ciphers,
        }
    }

    /// What the change does to `ciphers_collections`.
    pub open spec fn on_links(self, links: Seq<CollectionCipher>) -> Seq<CollectionCipher> {
        match self {
            Action::DeleteCollectionLinks(uuid) => links.filter(
                |link: CollectionCipher| link.cipher_uuid@ != uuid@,
            ),
            _ => links,
        }
    }

    /// What the change does to `folders_ciphers`.
    pub open spec fn on_filings(self, filings: Seq<FolderCipher>) -> Seq<FolderCipher> {
        match self {
            Action::DeleteFolderLinks(uuid) => filings.filter(
                |record: FolderCipher| record.cipher_uuid@ != uuid@,
            ),
            Action::SaveFolderLink(folder, cipher) => without_filing(
                filings,
                folder@,
                cipher@,
            ).push(FolderCipher { cipher_uuid: cipher, folder_uuid: folder }),
            Action::DeleteFolderLink(folder, cipher) => without_filing(filings, folder@, cipher@),
            _ => filings,
        }
    }

    /// What the change does to `attachments`.
    pub open spec fn on_attachments(self, attachments: Seq<Attachment>) -> Seq<Attachment> {
        match self {
            Action::DeleteAttachments(uuid) => attachments.filter(
                |attachment: Attachment| attachment.cipher_uuid@ != uuid@,
            ),
            _ => attachments,
        }
    }

    /// What the change does to `favorites`.
    pub open spec fn on_favorites(self, favorites: Seq<Favorite>) -> Seq<Favorite> {
        match self {
            Action::DeleteFavorites(uuid) => favorites.filter(
                |favorite: Favorite| favorite.cipher_uuid@ != uuid@,
            ),
            Action::SetFavorite(true, cipher, user) => without_mark(
                favorites,
                cipher@,
                user@,
            ).push(Favorite { user_uuid: user, cipher_uuid: cipher }),
            Action::SetFavorite(false, cipher, user) => without_mark(favorites, cipher@, user@),
            _ => favorites,
        }
    }

    /// Whether the change turns the tables `before` into the tables `after`.
    pub open spec fn turns(self, before: &Tables, after: &Tables) -> bool {
        &&& after.ciphers@ == self.on_ciphers(before.ciphers@)
        &&& after.ciphers_collections@ == self.on_links(before.ciphers_collections@)
        &&& after.folders_ciphers@ == self.on_filings(before.folders_ciphers@)
        &&& after.attachments@ == self.on_attachments(before.attachments@)
        &&& after.favorites@ == self.on_favorites(before.favorites@)
        &&& same_people(before, after)
    }
}

/// Whether the tables that no operation on ciphers changes are the same.
pub open spec fn same_people(before: &Tables, after: &Tables) -> bool {
    &&& after.users_organizations@ == before.users_organizations@
    &&& after.users_collections@ == before.users_collections@
    &&& after.groups_users@ == before.groups_users@
    &&& after.groups@ == before.groups@
    &&& after.collections_groups@ == before.collections_groups@
    &&& after.collections@ == before.collections@
    &&& after.folders@ == before.folders@
}

/// Keeps the rows that meet a condition.
fn keep_rows<T>(
    rows: &mut Vec<T>,
    keep: impl Fn(&T) -> bool,
    Ghost(pred): Ghost<spec_fn(T) -> bool>,
)
    requires
        forall|row: T| keep.requires((&row,)),
        forall|row: T, yes: bool| keep.ensures((&row,), yes) ==> yes == pred(row),
    ensures
        final(rows)@ == old(rows)@.filter(pred),
{
    let ghost all = rows@;
    let mut kept: Vec<T> = Vec::new();
    proof {
        assert(all.take(0) =~= Seq::empty());
        reveal(Seq::filter);
    }
    let ghost mut i: int = 0;
    assert(rows@ =~= all.skip(0));
    while rows.len() > 0
        invariant
            forall|row: T| keep.requires((&row,)),
            forall|row: T, yes: bool| keep.ensures((&row,), yes) ==> yes == pred(row),
            0 <= i <= all.len(),
            rows@ == all.skip(i),
            kept@ == all.take(i).filter(pred),
        decreases rows@.len(),
    {
        let row = rows.remove(0);
        proof {
            assert(row == all[i]);
            all.take(i).lemma_filter_push(row, pred);
            assert(all.take(i + 1) =~= all.take(i).push(row));
            assert(rows@ =~= all.skip(i + 1));
            i = i + 1;
        }
        if keep(&row) {
            kept.push(row);
        }
    }
    assert(all.take(i) =~= all);
    *rows = kept;
}

/// Puts `cipher` in place of the one with its identifier, and returns whether there was one.
fn overwrite(ciphers: &mut Vec<Cipher>, cipher: &Cipher) -> (found: bool)
    ensures
        final(ciphers)@ == overwritten(old(ciphers)@, *cipher),
        found == holds_cipher(old(ciphers)@, cipher.uuid@),
{
    let ghost all = ciphers@;
    let mut found = false;
    let mut i: usize = 0;
    while i < ciphers.len()
        invariant
            i <= ciphers@.len(),
            ciphers@.len() == all.len(),
            forall|j: int| 0 <= j < i ==> #[trigger] ciphers@[j] == overwritten(all, *cipher)[j],
            forall|j: int| i <= j < all.len() ==> #[trigger] ciphers@[j] == all[j],
            found == (exists|j: int| 0 <= j < i && (#[trigger] all[j]).uuid@ == cipher.uuid@),
        decreases ciphers@.len() - i,
    {
        assert(ciphers@[i as int] == all[i as int]);
        if ciphers[i].uuid == cipher.uuid {
            ciphers.set(i, cipher.clone());
            found = true;
        }
        i = i + 1;
    }
    assert(ciphers@ =~= overwritten(all, *cipher));
    found
}

impl Action {
    /// Makes the change to tables that are held in memory.
    pub fn apply(&self, tables: &mut Tables)
        ensures
            self.turns(&*old(tables), &*final(tables)),
    {
        match self {
            Action::UpdateRevision(_) => {},
            Action::ReplaceCipher(cipher) => {
                let ghost pred = |stored: Cipher| stored.uuid@ != cipher.uuid@;
                let keep = |stored: &Cipher| -> (keep: bool)
                    ensures
                        keep == (stored.uuid@ != cipher.uuid@)
                {
                    !(stored.uuid == cipher.uuid)
                };
                keep_rows(&mut tables.ciphers, keep, Ghost(pred));
                tables.ciphers.push(cipher.clone());
            },
            Action::UpdateCipher(cipher) => {
                overwrite(&mut tables.ciphers, cipher);
            },
            Action::UpsertCipher(cipher) => {
                if !overwrite(&mut tables.ciphers, cipher) {
                    proof {
                        let all = old(tables).ciphers@;
                        assert(overwritten(all, *cipher) =~= all);
                    }
                    tables.ciphers.push(cipher.clone());
                }
            },
            Action::DeleteFolderLinks(uuid) => {
                let ghost pred = |record: FolderCipher| record.cipher_uuid@ != uuid@;
                let keep = |record: &FolderCipher| -> (keep: bool)
                    ensures
                        keep == (record.cipher_uuid@ != uuid@)
                {
                    !(record.cipher_uuid == *uuid)
                };
                keep_rows(&mut tables.folders_ciphers, keep, Ghost(pred));
            },
            Action::DeleteCollectionLinks(uuid) => {
                let ghost pred = |link: CollectionCipher| link.cipher_uuid@ != uuid@;
                let keep = |link: &CollectionCipher| -> (keep: bool)
                    ensures
                        keep == (link.cipher_uuid@ != uuid@)
                {
                    !(link.cipher_uuid == *uuid)
                };
                keep_rows(&mut tables.ciphers_collections, keep, Ghost(pred));
            },
            Action::DeleteAttachments(uuid) => {
                let ghost pred = |attachment: Attachment| attachment.cipher_uuid@ != uuid@;
                let keep = |attachment: &Attachment| -> (keep: bool)
                    ensures
                        keep == (attachment.cipher_uuid@ != uuid@)
                {
                    !(attachment.cipher_uuid == *uuid)
                };
                keep_rows(&mut tables.attachments, keep, Ghost(pred));
            },
            Action::DeleteFavorites(uuid) => {
                let ghost pred = |favorite: Favorite| favorite.cipher_uuid@ != uuid@;
                let keep = |favorite: &Favorite| -> (keep: bool)
                    ensures
                        keep == (favorite.cipher_uuid@ != uuid@)
                {
                    !(favorite.cipher_uuid == *uuid)
                };
                keep_rows(&mut tables.favorites, keep, Ghost(pred));
            },
            Action::DeleteCipher(uuid) => {
                let ghost pred = |stored: Cipher| stored.uuid@ != uuid@;
                let keep = |stored: &Cipher| -> (keep: bool)
                    ensures
                        keep == (stored.uuid@ != uuid@)
                {
                    !(stored.uuid == *uuid)
                };
                keep_rows(&mut tables.ciphers, keep, Ghost(pred));
            },
            Action::SaveFolderLink(folder, cipher) => {
                remove_filing(&mut tables.folders_ciphers, folder, cipher);
                tables.folders_ciphers.push(
                    FolderCipher { cipher_uuid: cipher.clone(), folder_uuid: folder.clone() },
                );
            },
            Action::DeleteFolderLink(folder, cipher) => {
                remove_filing(&mut tables.folders_ciphers, folder, cipher);
            },
            Action::SetFavorite(favorite, cipher, user) => {
                let ghost pred = |mark: Favorite|
                    !(mark.cipher_uuid@ == cipher@ && mark.user_uuid@ == user@);
                let keep = |mark: &Favorite| -> (keep: bool)
                    ensures
                        keep == !(mark.cipher_uuid@ == cipher@ && mark.user_uuid@ == user@)
                {
                    !(mark.cipher_uuid == *cipher && mark.user_uuid == *user)
                };
                keep_rows(&mut tables.favorites, keep, Ghost(pred));
                if *favorite {
                    tables.favorites.push(
                        Favorite { user_uuid: user.clone(), cipher_uuid: cipher.clone() },
                    );
                }
            },
        }
    }
}

/// Removes the record that puts the cipher into the folder.
fn remove_filing(filings: &mut Vec<FolderCipher>, folder: &FolderId, cipher: &CipherId)
    ensures
        final(filings)@ == without_filing(old(filings)@, folder@, cipher@),
{
    let ghost pred = |record: FolderCipher|
        !(record.folder_uuid@ == folder@ && record.cipher_uuid@ == cipher@);
    let keep = |record: &FolderCipher| -> (keep: bool)
        ensures
            keep == !(record.folder_uuid@ == folder@ && record.cipher_uuid@ == cipher@)
    {
        !(record.folder_uuid == *folder && record.cipher_uuid == *cipher)
    };
    keep_rows(filings, keep, Ghost(pred));
}

} // verus!
