//! Laws on the simple searches, in terms of the stored rows themselves.

use crate::cipher::Cipher;
use crate::dates::Timestamp;
use crate::finders::{
    files_cipher, filed_ciphers, filings, first_of, folder_contents, folder_of, is_users_folder,
    marked_favorite, selected, Criterion,
};
use crate::ids::{CipherId, OrganizationId, UserId};
use crate::seqs::lemma_filter_holds;
use crate::tables::{FolderCipher, Tables};
use vstd::prelude::*;

verus! {

/// The search for an identifier goes by the identifier alone: it finds all stored ciphers that
/// have it, in their order.
pub proof fn law_selection_by_identifier(t: &Tables, uuid: CipherId)
    ensures
        selected(t, Criterion::Uuid(&uuid)) == t.ciphers@.filter(
            |cipher: Cipher| cipher.uuid.0@ == uuid.0@,
        ),
{
    let criterion = Criterion::Uuid(&uuid);
    assert((|cipher: Cipher| criterion.admits(cipher)) =~= (|cipher: Cipher|
        cipher.uuid.0@ == uuid.0@));
}

/// The search for an identifier within an organization finds the stored ciphers that have the
/// identifier and name that organization.
pub proof fn law_selection_in_organization(t: &Tables, uuid: CipherId, org: OrganizationId)
    ensures
        selected(t, Criterion::UuidInOrg(&uuid, &org)) == t.ciphers@.filter(
            |cipher: Cipher|
                cipher.uuid.0@ == uuid.0@ && cipher.organization_uuid is Some
                    && cipher.organization_uuid.unwrap().0@ == org.0@,
        ),
{
    let criterion = Criterion::UuidInOrg(&uuid, &org);
    assert((|cipher: Cipher| criterion.admits(cipher)) =~= (|cipher: Cipher|
        cipher.uuid.0@ == uuid.0@ && cipher.organization_uuid is Some
            && cipher.organization_uuid.unwrap().0@ == org.0@));
}

/// The ciphers of an organization are the stored ones that name it, whoever owns them.
pub proof fn law_selection_by_organization(t: &Tables, org: OrganizationId)
    ensures
        selected(t, Criterion::Org(&org)) == t.ciphers@.filter(
            |cipher: Cipher|
                cipher.organization_uuid is Some && cipher.organization_uuid.unwrap().0@ == org.0@,
        ),
{
    let criterion = Criterion::Org(&org);
    assert((|cipher: Cipher| criterion.admits(cipher)) =~= (|cipher: Cipher|
        cipher.organization_uuid is Some && cipher.organization_uuid.unwrap().0@ == org.0@));
}

/// The ciphers that are counted as a user's are the stored ones that name the user, those of an
/// organization among them; the ones found as the user's own name no organization.
pub proof fn law_selection_by_user(t: &Tables, user: UserId)
    ensures
        selected(t, Criterion::User(&user)) == t.ciphers@.filter(
            |cipher: Cipher| cipher.user_uuid is Some && cipher.user_uuid.unwrap().0@ == user.0@,
        ),
        selected(t, Criterion::UserAlone(&user)) == t.ciphers@.filter(
            |cipher: Cipher|
                cipher.user_uuid is Some && cipher.user_uuid.unwrap().0@ == user.0@
                    && cipher.organization_uuid is None,
        ),
{
    let all = Criterion::User(&user);
    assert((|cipher: Cipher| all.admits(cipher)) =~= (|cipher: Cipher|
        cipher.user_uuid is Some && cipher.user_uuid.unwrap().0@ == user.0@));
    let alone = Criterion::UserAlone(&user);
    assert((|cipher: Cipher| alone.admits(cipher)) =~= (|cipher: Cipher|
        cipher.user_uuid is Some && cipher.user_uuid.unwrap().0@ == user.0@
            && cipher.organization_uuid is None));
}

/// The ciphers that were deleted before a point in time are the stored ones with an earlier time
/// of deletion; one that is not deleted, or was deleted at that very time, is none of them.
pub proof fn law_selection_by_deletion(t: &Tables, time: Timestamp)
    ensures
        selected(t, Criterion::DeletedBefore(&time)) == t.ciphers@.filter(
            |cipher: Cipher|
                cipher.deleted_at is Some && (cipher.deleted_at.unwrap().secs < time.secs || (
                cipher.deleted_at.unwrap().secs == time.secs && cipher.deleted_at.unwrap().nanos
                    < time.nanos)),
        ),
{
    let criterion = Criterion::DeletedBefore(&time);
    assert((|cipher: Cipher| criterion.admits(cipher)) =~= (|cipher: Cipher|
        cipher.deleted_at is Some && (cipher.deleted_at.unwrap().secs < time.secs || (
        cipher.deleted_at.unwrap().secs == time.secs && cipher.deleted_at.unwrap().nanos
            < time.nanos))));
}

/// Of several values the first is taken, of none none.
pub proof fn law_first<A>(values: Seq<A>)
    ensures
        values.len() == 0 ==> first_of(values) is None,
        values.len() > 0 ==> first_of(values) == Some(values[0]),
{
}

/// The first of the values that meet a condition.
proof fn lemma_first_chosen<A>(values: Seq<A>, pred: spec_fn(A) -> bool) -> (at: int)
    ensures
        match first_of(values.filter(pred)) {
            Some(value) => {
                &&& 0 <= at < values.len()
                &&& values[at] == value
                &&& pred(value)
                &&& forall|j: int| 0 <= j < at ==> !pred(#[trigger] values[j])
            },
            None => forall|j: int| 0 <= j < values.len() ==> !pred(#[trigger] values[j]),
        },
    decreases values.len(),
{
    reveal(Seq::filter);
    if values.len() == 0 {
        0
    } else {
        let front = values.drop_last();
        let last = values.last();
        let at = lemma_first_chosen(front, pred);
        front.lemma_filter_push(last, pred);
        assert(values =~= front.push(last));
        if front.filter(pred).len() > 0 {
            assert(values[at] == front[at]);
            assert forall|j: int| 0 <= j < at implies !pred(#[trigger] values[j]) by {
                assert(values[j] == front[j]);
            }
            at
        } else {
            assert forall|j: int| 0 <= j < front.len() implies !pred(#[trigger] values[j]) by {
                assert(values[j] == front[j]);
            }
            values.len() - 1
        }
    }
}

/// A cipher is found under its identifier exactly where one is stored under it, and it is the
/// first of those, unchanged.
pub proof fn law_found_by_identifier(t: &Tables, uuid: CipherId) -> (at: int)
    ensures
        match first_of(selected(t, Criterion::Uuid(&uuid))) {
            Some(cipher) => {
                &&& 0 <= at < t.ciphers@.len()
                &&& t.ciphers@[at] == cipher
                &&& cipher.uuid.0@ == uuid.0@
                &&& forall|j: int| 0 <= j < at ==> (#[trigger] t.ciphers@[j]).uuid.0@ != uuid.0@
            },
            None => forall|j: int|
                0 <= j < t.ciphers@.len() ==> (#[trigger] t.ciphers@[j]).uuid.0@ != uuid.0@,
        },
{
    law_selection_by_identifier(t, uuid);
    lemma_first_chosen(t.ciphers@, |cipher: Cipher| cipher.uuid.0@ == uuid.0@)
}

/// A cipher is found under its identifier within an organization exactly where one is stored
/// under it that names the organization.
pub proof fn law_found_in_organization(t: &Tables, uuid: CipherId, org: OrganizationId) -> (at:
    int)
    ensures
        match first_of(selected(t, Criterion::UuidInOrg(&uuid, &org))) {
            Some(cipher) => {
                &&& 0 <= at < t.ciphers@.len()
                &&& t.ciphers@[at] == cipher
                &&& cipher.uuid.0@ == uuid.0@
                &&& cipher.organization_uuid is Some
                &&& cipher.organization_uuid.unwrap().0@ == org.0@
            },
            None => forall|j: int|
                0 <= j < t.ciphers@.len() ==> (#[trigger] t.ciphers@[j]).uuid.0@ != uuid.0@
                    || t.ciphers@[j].organization_uuid is None
                    || t.ciphers@[j].organization_uuid.unwrap().0@ != org.0@,
        },
{
    law_selection_in_organization(t, uuid, org);
    lemma_first_chosen(
        t.ciphers@,
        |cipher: Cipher|
            cipher.uuid.0@ == uuid.0@ && cipher.organization_uuid is Some
                && cipher.organization_uuid.unwrap().0@ == org.0@,
    )
}

/// Whether the record puts the cipher into a folder that the user has.
pub open spec fn is_filing(
    t: &Tables,
    user: Seq<char>,
    cipher: Seq<char>,
    at: int,
    f: int,
) -> bool {
    &&& 0 <= at < t.folders_ciphers@.len()
    &&& t.folders_ciphers@[at].cipher_uuid.0@ == cipher
    &&& 0 <= f < t.folders@.len()
    &&& t.folders@[f].uuid.0@ == t.folders_ciphers@[at].folder_uuid.0@
    &&& t.folders@[f].user_uuid.0@ == user
}

/// The folder that is shown for a cipher is one of the user's in which the cipher is, the first
/// of them; none is shown exactly where the cipher is in no folder of the user, whatever folders
/// others have it in.
pub proof fn law_folder_of_a_cipher(t: &Tables, user: Seq<char>, cipher: Seq<char>) -> (found: (
    int,
    int,
))
    ensures
        match folder_of(t, user, cipher) {
            Some(folder) => {
                &&& is_filing(t, user, cipher, found.0, found.1)
                &&& t.folders_ciphers@[found.0].folder_uuid == folder
                &&& forall|at: int, f: int|
                    at < found.0 ==> !#[trigger] is_filing(t, user, cipher, at, f)
            },
            None => forall|at: int, f: int| !#[trigger] is_filing(t, user, cipher, at, f),
        },
{
    let records = t.folders_ciphers@;
    let pred = |record: FolderCipher| files_cipher(t, user, cipher, record);
    let at = lemma_first_chosen(records, pred);
    assert forall|i: int, f: int| #[trigger] is_filing(t, user, cipher, i, f) implies pred(
        records[i],
    ) by {
        assert(t.folders@[f].uuid@ == records[i].folder_uuid@);
    }
    if first_of(filings(t, user, cipher)) is Some {
        let folder = records[at].folder_uuid@;
        let f = choose|f: int|
            0 <= f < t.folders@.len() && (#[trigger] t.folders@[f]).uuid@ == folder
                && t.folders@[f].user_uuid@ == user;
        (at, f)
    } else {
        (0, 0)
    }
}

/// A folder is a user's where it is stored as theirs.
pub proof fn law_folder_of_a_user(t: &Tables, user: Seq<char>, folder: Seq<char>)
    ensures
        is_users_folder(t, user, folder) <==> exists|f: int|
            0 <= f < t.folders@.len() && (#[trigger] t.folders@[f]).uuid.0@ == folder
                && t.folders@[f].user_uuid.0@ == user,
{
    if is_users_folder(t, user, folder) {
        let f = choose|f: int|
            0 <= f < t.folders@.len() && (#[trigger] t.folders@[f]).uuid@ == folder
                && t.folders@[f].user_uuid@ == user;
        assert(t.folders@[f].uuid.0@ == folder);
    }
    if exists|f: int|
        0 <= f < t.folders@.len() && (#[trigger] t.folders@[f]).uuid.0@ == folder
            && t.folders@[f].user_uuid.0@ == user {
        let f = choose|f: int|
            0 <= f < t.folders@.len() && (#[trigger] t.folders@[f]).uuid.0@ == folder
                && t.folders@[f].user_uuid.0@ == user;
        assert(t.folders@[f].uuid@ == folder);
    }
}

/// A cipher is a favorite of a user exactly where it is stored as one: of that user and of that
/// cipher.
pub proof fn law_favorite(t: &Tables, user: Seq<char>, cipher: Seq<char>)
    ensures
        marked_favorite(t, user, cipher) <==> exists|i: int|
            0 <= i < t.favorites@.len() && (#[trigger] t.favorites@[i]).user_uuid.0@ == user
                && t.favorites@[i].cipher_uuid.0@ == cipher,
{
    if marked_favorite(t, user, cipher) {
        let i = choose|i: int|
            0 <= i < t.favorites@.len() && (#[trigger] t.favorites@[i]).cipher_uuid@ == cipher
                && t.favorites@[i].user_uuid@ == user;
        assert(t.favorites@[i].user_uuid.0@ == user);
    }
    if exists|i: int|
        0 <= i < t.favorites@.len() && (#[trigger] t.favorites@[i]).user_uuid.0@ == user
            && t.favorites@[i].cipher_uuid.0@ == cipher {
        let i = choose|i: int|
            0 <= i < t.favorites@.len() && (#[trigger] t.favorites@[i]).user_uuid.0@ == user
                && t.favorites@[i].cipher_uuid.0@ == cipher;
        assert(t.favorites@[i].cipher_uuid@ == cipher);
    }
}

/// A folder holds the ciphers of its records, record by record, and nothing else.
pub proof fn law_contents_of_a_folder(t: &Tables, folder: Seq<char>)
    ensures
        folder_contents(t, folder) == t.folders_ciphers@.filter(
            |record: FolderCipher| record.folder_uuid.0@ == folder,
        ).flat_map(
            |record: FolderCipher|
                t.ciphers@.filter(|cipher: Cipher| cipher.uuid.0@ == record.cipher_uuid.0@),
        ),
{
    let f = |record: FolderCipher| filed_ciphers(t, record);
    let g = |record: FolderCipher|
        t.ciphers@.filter(|cipher: Cipher| cipher.uuid.0@ == record.cipher_uuid.0@);
    assert forall|record: FolderCipher| #[trigger] f(record) == g(record) by {
        law_selection_by_identifier(t, record.cipher_uuid);
    }
    assert(f =~= g);
    assert((|record: FolderCipher| record.folder_uuid@ == folder) =~= (|record: FolderCipher|
        record.folder_uuid.0@ == folder));
}

/// A cipher is in the contents of a folder exactly where it is stored and a record puts its
/// identifier into that folder.
pub proof fn law_member_of_a_folder(t: &Tables, folder: Seq<char>, cipher: Cipher)
    ensures
        folder_contents(t, folder).contains(cipher) <==> t.ciphers@.contains(cipher) && exists|
            i: int,
        |
            0 <= i < t.folders_ciphers@.len() && (#[trigger]
            t.folders_ciphers@[i]).cipher_uuid.0@ == cipher.uuid.0@
                && t.folders_ciphers@[i].folder_uuid.0@ == folder,
{
    let records = t.folders_ciphers@;
    let pred = |record: FolderCipher| record.folder_uuid@ == folder;
    let f = |record: FolderCipher| filed_ciphers(t, record);
    lemma_flat_member(records.filter(pred), f, cipher);
    if folder_contents(t, folder).contains(cipher) {
        let chosen = records.filter(pred);
        let k = choose|k: int|
            0 <= k < chosen.len() && f(#[trigger] chosen[k]).contains(cipher);
        assert(chosen.contains(chosen[k]));
        lemma_filter_holds(records, pred, chosen[k]);
        let i = choose|i: int| 0 <= i < records.len() && records[i] == chosen[k];
        law_selection_by_identifier(t, records[i].cipher_uuid);
        lemma_filter_holds(
            t.ciphers@,
            |cipher: Cipher| cipher.uuid.0@ == records[i].cipher_uuid.0@,
            cipher,
        );
        assert(records[i].cipher_uuid.0@ == cipher.uuid.0@);
    }
    if t.ciphers@.contains(cipher) && exists|i: int|
        0 <= i < records.len() && (#[trigger] records[i]).cipher_uuid.0@ == cipher.uuid.0@
            && records[i].folder_uuid.0@ == folder {
        let i = choose|i: int|
            0 <= i < records.len() && (#[trigger] records[i]).cipher_uuid.0@ == cipher.uuid.0@
                && records[i].folder_uuid.0@ == folder;
        assert(records.contains(records[i]));
        lemma_filter_holds(records, pred, records[i]);
        let chosen = records.filter(pred);
        let k = choose|k: int| 0 <= k < chosen.len() && chosen[k] == records[i];
        law_selection_by_identifier(t, records[i].cipher_uuid);
        lemma_filter_holds(
            t.ciphers@,
            |cipher: Cipher| cipher.uuid.0@ == records[i].cipher_uuid.0@,
            cipher,
        );
        assert(f(chosen[k]).contains(cipher));
    }
}

/// What is in the lists that values lead to, one after the other, is in one of them.
proof fn lemma_flat_member<A, B>(values: Seq<A>, f: spec_fn(A) -> Seq<B>, value: B)
    ensures
        values.flat_map(f).contains(value) <==> exists|k: int|
            0 <= k < values.len() && f(#[trigger] values[k]).contains(value),
    decreases values.len(),
{
    if values.len() == 0 {
        assert(values.map_values(f) =~= Seq::empty());
    } else {
        let front = values.drop_last();
        let last = values.last();
        lemma_flat_member(front, f, value);
        front.lemma_flat_map_push(f, last);
        assert(values =~= front.push(last));
        let before = front.flat_map(f);
        let all = values.flat_map(f);
        assert(all == before + f(last));
        if all.contains(value) {
            let i = choose|i: int| 0 <= i < all.len() && all[i] == value;
            if i < before.len() {
                assert(before[i] == value);
                let k = choose|k: int|
                    0 <= k < front.len() && f(#[trigger] front[k]).contains(value);
                assert(values[k] == front[k]);
            } else {
                assert(f(last)[i - before.len()] == value);
                assert(f(values[values.len() - 1]).contains(value));
            }
        }
        if exists|k: int| 0 <= k < values.len() && f(#[trigger] values[k]).contains(value) {
            let k = choose|k: int|
                0 <= k < values.len() && f(#[trigger] values[k]).contains(value);
            if k < front.len() {
                assert(front[k] == values[k]);
                let i = choose|i: int| 0 <= i < before.len() && before[i] == value;
                assert(all[i] == value);
            } else {
                let more = f(last);
                let i = choose|i: int| 0 <= i < more.len() && more[i] == value;
                assert(all[before.len() + i] == value);
            }
        }
    }
}

} // verus!
