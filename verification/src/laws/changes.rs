//! Laws on operations that change ciphers.

use crate::actions::{
    holds_cipher, same_people, without_cipher, without_filing, Action,
};
use crate::changes::{
    delete_steps, is_filed, move_steps, revision_step, revision_steps, save_step, stays, Backend,
};
use crate::cipher::Cipher;
use crate::error::Error;
use crate::finders::{
    files_cipher, filings, first_of, folder_of, is_users_folder, marked_favorite, selected,
    Criterion,
};
use crate::ids::{CipherId, FolderId, UserId};
use crate::laws::finding::distinct_ciphers;
use crate::runs::{Complaint, Failure, OnFailure, Run, Step, Sweep};
use crate::seqs::{
    lemma_filter_fewer, lemma_filter_holds, lemma_filter_none, lemma_filter_twice,
};
use crate::tables::{Attachment, CollectionCipher, Favorite, FolderCipher, Tables};
use vstd::prelude::*;

verus! {

/// Whether the steps, each carried out as planned, lead through the given states of the tables,
/// from the first to the last.
pub open spec fn leads_through(steps: Seq<Step>, states: Seq<Tables>) -> bool {
    &&& states.len() == steps.len() + 1
    &&& forall|i: int|
        0 <= i < steps.len() ==> (#[trigger] steps[i]).action.turns(&states[i], &states[i + 1])
}

/// Whether nothing in the tables refers to the cipher.
pub open spec fn is_gone(t: &Tables, uuid: Seq<char>) -> bool {
    &&& !holds_cipher(t.ciphers@, uuid)
    &&& forall|i: int|
        0 <= i < t.folders_ciphers@.len() ==> (#[trigger] t.folders_ciphers@[i]).cipher_uuid@
            != uuid
    &&& forall|i: int|
        0 <= i < t.ciphers_collections@.len() ==> (#[trigger]
        t.ciphers_collections@[i]).cipher_uuid@ != uuid
    &&& forall|i: int|
        0 <= i < t.attachments@.len() ==> (#[trigger] t.attachments@[i]).cipher_uuid@ != uuid
    &&& forall|i: int|
        0 <= i < t.favorites@.len() ==> (#[trigger] t.favorites@[i]).cipher_uuid@ != uuid
}

/// Whether the tables differ at most in what refers to the cipher.
pub open spec fn same_besides(before: &Tables, after: &Tables, uuid: Seq<char>) -> bool {
    &&& after.ciphers@ == without_cipher(before.ciphers@, uuid)
    &&& after.folders_ciphers@ == before.folders_ciphers@.filter(
        |record: FolderCipher| record.cipher_uuid@ != uuid,
    )
    &&& after.ciphers_collections@ == before.ciphers_collections@.filter(
        |link: CollectionCipher| link.cipher_uuid@ != uuid,
    )
    &&& after.attachments@ == before.attachments@.filter(
        |attachment: Attachment| attachment.cipher_uuid@ != uuid,
    )
    &&& after.favorites@ == before.favorites@.filter(
        |favorite: Favorite| favorite.cipher_uuid@ != uuid,
    )
    &&& same_people(before, after)
}

/// Whether all tables are the same.
pub open spec fn same_tables(before: &Tables, after: &Tables) -> bool {
    &&& after.ciphers@ == before.ciphers@
    &&& after.ciphers_collections@ == before.ciphers_collections@
    &&& after.folders_ciphers@ == before.folders_ciphers@
    &&& after.attachments@ == before.attachments@
    &&& after.favorites@ == before.favorites@
    &&& same_people(before, after)
}

/// Updating revisions changes none of the tables.
proof fn lemma_revisions_change_nothing(
    users: Seq<UserId>,
    more: Seq<Step>,
    states: Seq<Tables>,
    n: nat,
)
    requires
        leads_through(revision_steps(users) + more, states),
        n <= users.len(),
    ensures
        same_tables(&states[0], &states[n as int]),
    decreases n,
{
    if n > 0 {
        lemma_revisions_change_nothing(users, more, states, (n - 1) as nat);
        let steps = revision_steps(users) + more;
        assert(steps[n - 1] == revision_step(users[n - 1]));
        assert(steps[n - 1].action.turns(&states[n - 1], &states[n as int]));
    }
}

/// Deleting a cipher removes it with all that refers to it, and nothing else.
pub proof fn law_delete_removes_the_cipher(
    users: Seq<UserId>,
    uuid: CipherId,
    states: Seq<Tables>,
)
    requires
        leads_through(revision_steps(users) + delete_steps(uuid), states),
    ensures
        same_besides(&states[0], &states.last(), uuid@),
        is_gone(&states.last(), uuid@),
{
    let steps = revision_steps(users) + delete_steps(uuid);
    let n = users.len() as int;
    lemma_revisions_change_nothing(users, delete_steps(uuid), states, users.len());
    assert(steps[n] == delete_steps(uuid)[0]);
    assert(steps[n + 1] == delete_steps(uuid)[1]);
    assert(steps[n + 2] == delete_steps(uuid)[2]);
    assert(steps[n + 3] == delete_steps(uuid)[3]);
    assert(steps[n + 4] == delete_steps(uuid)[4]);
    assert(steps[n].action.turns(&states[n], &states[n + 1]));
    assert(steps[n + 1].action.turns(&states[n + 1], &states[n + 1 + 1]));
    assert(steps[n + 2].action.turns(&states[n + 2], &states[n + 2 + 1]));
    assert(steps[n + 3].action.turns(&states[n + 3], &states[n + 3 + 1]));
    assert(steps[n + 4].action.turns(&states[n + 4], &states[n + 4 + 1]));
    let before = states[0];
    let after = states[n + 5];
    assert(after == states.last());
    assert(same_besides(&before, &after, uuid@));
    let no_cipher = |stored: Cipher| stored.uuid@ != uuid@;
    assert forall|i: int| 0 <= i < after.ciphers@.len() implies (#[trigger]
    after.ciphers@[i]).uuid@ != uuid@ by {
        before.ciphers@.lemma_filter_pred(no_cipher, i);
    }
    let no_filing = |record: FolderCipher| record.cipher_uuid@ != uuid@;
    assert forall|i: int| 0 <= i < after.folders_ciphers@.len() implies (#[trigger]
    after.folders_ciphers@[i]).cipher_uuid@ != uuid@ by {
        before.folders_ciphers@.lemma_filter_pred(no_filing, i);
    }
    let no_link = |link: CollectionCipher| link.cipher_uuid@ != uuid@;
    assert forall|i: int| 0 <= i < after.ciphers_collections@.len() implies (#[trigger]
    after.ciphers_collections@[i]).cipher_uuid@ != uuid@ by {
        before.ciphers_collections@.lemma_filter_pred(no_link, i);
    }
    let no_attachment = |attachment: Attachment| attachment.cipher_uuid@ != uuid@;
    assert forall|i: int| 0 <= i < after.attachments@.len() implies (#[trigger]
    after.attachments@[i]).cipher_uuid@ != uuid@ by {
        before.attachments@.lemma_filter_pred(no_attachment, i);
    }
    let no_favorite = |favorite: Favorite| favorite.cipher_uuid@ != uuid@;
    assert forall|i: int| 0 <= i < after.favorites@.len() implies (#[trigger]
    after.favorites@[i]).cipher_uuid@ != uuid@ by {
        before.favorites@.lemma_filter_pred(no_favorite, i);
    }
}

/// A deleted cipher is no longer found under its identifier.
pub proof fn law_deleted_is_not_found(users: Seq<UserId>, uuid: CipherId, states: Seq<Tables>)
    requires
        leads_through(revision_steps(users) + delete_steps(uuid), states),
    ensures
        first_of(selected(&states.last(), Criterion::Uuid(&uuid))) is None,
{
    law_delete_removes_the_cipher(users, uuid, states);
    let after = states.last();
    let criterion = Criterion::Uuid(&uuid);
    let pred = |cipher: Cipher| criterion.admits(cipher);
    let found = selected(&after, criterion);
    if found.len() > 0 {
        assert(found.contains(found[0]));
        lemma_filter_holds(after.ciphers@, pred, found[0]);
        let i = choose|i: int| 0 <= i < after.ciphers@.len() && after.ciphers@[i] == found[0];
        assert(after.ciphers@[i].uuid@ == uuid@);
    }
}

/// In a choice of ciphers all have the identifier, where only one has it in the end.
proof fn lemma_found_is(ciphers: Seq<Cipher>, cipher: Cipher, uuid: Seq<char>)
    requires
        ciphers.contains(cipher),
        cipher.uuid@ == uuid,
        forall|i: int|
            0 <= i < ciphers.len() && (#[trigger] ciphers[i]).uuid@ == uuid ==> ciphers[i]
                == cipher,
    ensures
        first_of(ciphers.filter(|stored: Cipher| stored.uuid@ == uuid)) == Some(cipher),
{
    let pred = |stored: Cipher| stored.uuid@ == uuid;
    let found = ciphers.filter(pred);
    lemma_filter_holds(ciphers, pred, cipher);
    assert(found.len() > 0);
    assert(found.contains(found[0]));
    lemma_filter_holds(ciphers, pred, found[0]);
    let i = choose|i: int| 0 <= i < ciphers.len() && ciphers[i] == found[0];
    assert(ciphers[i].uuid@ == uuid);
}

/// The one change that saving a cipher makes to the tables.
proof fn lemma_save(
    users: Seq<UserId>,
    cipher: Cipher,
    backend: Backend,
    states: Seq<Tables>,
) -> (change: (Tables, Tables))
    requires
        leads_through(revision_steps(users).push(save_step(cipher, backend)), states),
    ensures
        same_tables(&states[0], &change.0),
        change.1 == states.last(),
        save_step(cipher, backend).action.turns(&change.0, &change.1),
{
    let last = save_step(cipher, backend);
    let steps = revision_steps(users).push(last);
    let n = users.len() as int;
    assert(steps =~= revision_steps(users) + seq![last]);
    lemma_revisions_change_nothing(users, seq![last], states, users.len());
    assert(steps[n] == last);
    assert(steps[n].action.turns(&states[n], &states[n + 1]));
    (states[n], states[n + 1])
}

/// A cipher that was saved is found under its identifier, whatever the database.
pub proof fn law_saved_is_found(
    users: Seq<UserId>,
    cipher: Cipher,
    backend: Backend,
    states: Seq<Tables>,
)
    requires
        leads_through(revision_steps(users).push(save_step(cipher, backend)), states),
    ensures
        first_of(selected(&states.last(), Criterion::Uuid(&cipher.uuid))) == Some(cipher),
        states.last().ciphers_collections@ == states[0].ciphers_collections@,
        states.last().folders_ciphers@ == states[0].folders_ciphers@,
        states.last().attachments@ == states[0].attachments@,
        states.last().favorites@ == states[0].favorites@,
        same_people(&states[0], &states.last()),
{
    let (before, after) = lemma_save(users, cipher, backend, states);
    let uuid = cipher.uuid@;
    let all = after.ciphers@;
    match backend {
        Backend::Postgresql => {
            if holds_cipher(before.ciphers@, uuid) {
                let i = choose|i: int|
                    0 <= i < before.ciphers@.len() && (#[trigger] before.ciphers@[i]).uuid@
                        == uuid;
                assert(all[i] == cipher);
            } else {
                assert(all[before.ciphers@.len() as int] == cipher);
                assert forall|i: int|
                    0 <= i < all.len() && (#[trigger] all[i]).uuid@ == uuid implies all[i]
                    == cipher by {
                    if i < before.ciphers@.len() {
                        assert(before.ciphers@[i].uuid@ == uuid);
                    }
                }
            }
        },
        _ => {
            let kept = without_cipher(before.ciphers@, uuid);
            let pred = |stored: Cipher| stored.uuid@ != uuid;
            assert(all[kept.len() as int] == cipher);
            assert forall|i: int| 0 <= i < all.len() && (#[trigger] all[i]).uuid@ == uuid implies
                all[i] == cipher by {
                if i < kept.len() {
                    before.ciphers@.lemma_filter_pred(pred, i);
                    assert(all[i] == kept[i]);
                }
            }
        },
    }
    lemma_found_is(all, cipher, uuid);
    assert((|stored: Cipher| stored.uuid@ == uuid) =~= (|stored: Cipher|
        Criterion::Uuid(&cipher.uuid).admits(stored)));
}

/// A stored cipher that was saved by its fallback is found under its identifier, too.
pub proof fn law_overwritten_is_found(
    cipher: Cipher,
    backend: Backend,
    before: &Tables,
    after: &Tables,
)
    requires
        save_step(cipher, backend).fallback is Some,
        save_step(cipher, backend).fallback->0.turns(before, after),
        holds_cipher(before.ciphers@, cipher.uuid@),
    ensures
        first_of(selected(after, Criterion::Uuid(&cipher.uuid))) == Some(cipher),
{
    let uuid = cipher.uuid@;
    let i = choose|i: int|
        0 <= i < before.ciphers@.len() && (#[trigger] before.ciphers@[i]).uuid@ == uuid;
    assert(after.ciphers@[i] == cipher);
    lemma_found_is(after.ciphers@, cipher, uuid);
    assert((|stored: Cipher| stored.uuid@ == uuid) =~= (|stored: Cipher|
        Criterion::Uuid(&cipher.uuid).admits(stored)));
}

/// Saving a cipher leaves the others as they are.
pub proof fn law_saving_keeps_the_others(
    users: Seq<UserId>,
    cipher: Cipher,
    backend: Backend,
    states: Seq<Tables>,
    other: Cipher,
)
    requires
        leads_through(revision_steps(users).push(save_step(cipher, backend)), states),
        other.uuid@ != cipher.uuid@,
    ensures
        states.last().ciphers@.contains(other) <==> states[0].ciphers@.contains(other),
{
    let (before, after) = lemma_save(users, cipher, backend, states);
    let uuid = cipher.uuid@;
    let old_ones = before.ciphers@;
    let new_ones = after.ciphers@;
    match backend {
        Backend::Postgresql => {
            if old_ones.contains(other) {
                let i = choose|i: int| 0 <= i < old_ones.len() && old_ones[i] == other;
                assert(new_ones[i] == other);
            }
            if new_ones.contains(other) {
                let i = choose|i: int| 0 <= i < new_ones.len() && new_ones[i] == other;
                assert(old_ones[i] == other);
            }
        },
        _ => {
            let pred = |stored: Cipher| stored.uuid@ != uuid;
            let kept = without_cipher(old_ones, uuid);
            lemma_filter_holds(old_ones, pred, other);
            if kept.contains(other) {
                let i = choose|i: int| 0 <= i < kept.len() && kept[i] == other;
                assert(new_ones[i] == other);
            }
            if new_ones.contains(other) {
                let i = choose|i: int| 0 <= i < new_ones.len() && new_ones[i] == other;
                assert(kept[i] == other);
            }
        },
    }
}

/// Setting whether a cipher is a favorite of a user makes it so, and concerns nobody else and
/// no other cipher.
pub proof fn law_favorite_is_set(
    favorite: bool,
    cipher: CipherId,
    user: UserId,
    before: &Tables,
    after: &Tables,
    other_user: Seq<char>,
    other_cipher: Seq<char>,
)
    requires
        Action::SetFavorite(favorite, cipher, user).turns(before, after),
    ensures
        marked_favorite(after, user@, cipher@) == favorite,
        other_user != user@ || other_cipher != cipher@ ==> marked_favorite(
            after,
            other_user,
            other_cipher,
        ) == marked_favorite(before, other_user, other_cipher),
{
    let pred = |mark: Favorite| !(mark.cipher_uuid@ == cipher@ && mark.user_uuid@ == user@);
    let old_marks = before.favorites@;
    let kept = old_marks.filter(pred);
    let marks = after.favorites@;
    if favorite {
        let mark = Favorite { user_uuid: user, cipher_uuid: cipher };
        assert(marks == kept.push(mark));
        assert(marks[kept.len() as int].cipher_uuid@ == cipher@);
    } else {
        assert forall|i: int| 0 <= i < marks.len() implies !((#[trigger] marks[i]).cipher_uuid@
            == cipher@ && marks[i].user_uuid@ == user@) by {
            old_marks.lemma_filter_pred(pred, i);
        }
    }
    if other_user != user@ || other_cipher != cipher@ {
        if marked_favorite(before, other_user, other_cipher) {
            let i = choose|i: int|
                0 <= i < old_marks.len() && (#[trigger] old_marks[i]).cipher_uuid@ == other_cipher
                    && old_marks[i].user_uuid@ == other_user;
            lemma_filter_holds(old_marks, pred, old_marks[i]);
            assert(old_marks.contains(old_marks[i]));
            let k = choose|k: int| 0 <= k < kept.len() && kept[k] == old_marks[i];
            assert(marks[k] == kept[k]);
        }
        if marked_favorite(after, other_user, other_cipher) {
            let i = choose|i: int|
                0 <= i < marks.len() && (#[trigger] marks[i]).cipher_uuid@ == other_cipher
                    && marks[i].user_uuid@ == other_user;
            assert(i < kept.len());
            assert(kept.contains(kept[i]));
            lemma_filter_holds(old_marks, pred, kept[i]);
            let k = choose|k: int| 0 <= k < old_marks.len() && old_marks[k] == kept[i];
            assert(old_marks[k].cipher_uuid@ == other_cipher);
        }
    }
}

/// A cipher that is in a folder of a user has a record of that folder, so that moving it out
/// never fails for want of the record.
pub proof fn law_move_finds_the_old_folder(t: &Tables, user: Seq<char>, cipher: Seq<char>)
    ensures
        folder_of(t, user, cipher) matches Some(folder) ==> is_filed(t, folder@, cipher)
            && is_users_folder(t, user, folder@),
{
    let pred = |record: FolderCipher| files_cipher(t, user, cipher, record);
    let found = filings(t, user, cipher);
    if found.len() > 0 {
        assert(found.contains(found[0]));
        lemma_filter_holds(t.folders_ciphers@, pred, found[0]);
        let i = choose|i: int|
            0 <= i < t.folders_ciphers@.len() && t.folders_ciphers@[i] == found[0];
        assert(t.folders_ciphers@[i].folder_uuid@ == found[0].folder_uuid@);
    }
}

/// What a move makes of the records of folders.
spec fn moved_filings(
    records: Seq<FolderCipher>,
    cipher: CipherId,
    old_folder: Option<FolderId>,
    new_folder: Option<FolderId>,
) -> Seq<FolderCipher> {
    if stays(old_folder, new_folder) {
        records
    } else {
        let left = match old_folder {
            Some(from) => without_filing(records, from@, cipher@),
            None => records,
        };
        match new_folder {
            Some(to) => without_filing(left, to@, cipher@).push(
                FolderCipher { cipher_uuid: cipher, folder_uuid: to },
            ),
            None => left,
        }
    }
}

/// The steps of a move that a cipher and its user's folders call for.
pub open spec fn steps_of_move(
    t: &Tables,
    user: UserId,
    cipher: CipherId,
    new_folder: Option<FolderId>,
) -> Seq<Step> {
    let old_folder = folder_of(t, user@, cipher@);
    let is_linked = old_folder matches Some(from) && is_filed(t, from@, cipher@);
    seq![revision_step(user)] + move_steps(cipher, old_folder, new_folder, is_linked)
}

/// A move changes the records of folders and nothing else.
proof fn lemma_move(
    user: UserId,
    cipher: CipherId,
    new_folder: Option<FolderId>,
    states: Seq<Tables>,
)
    requires
        leads_through(steps_of_move(&states[0], user, cipher, new_folder), states),
    ensures
        states.last().folders_ciphers@ == moved_filings(
            states[0].folders_ciphers@,
            cipher,
            folder_of(&states[0], user@, cipher@),
            new_folder,
        ),
        states.last().ciphers@ == states[0].ciphers@,
        same_people(&states[0], &states.last()),
{
    let t = &states[0];
    let old_folder = folder_of(t, user@, cipher@);
    let steps = steps_of_move(t, user, cipher, new_folder);
    law_move_finds_the_old_folder(t, user@, cipher@);
    assert(steps[0].action.turns(&states[0], &states[1]));
    if !stays(old_folder, new_folder) {
        assert(steps[1].action.turns(&states[1], &states[2]));
        if old_folder is Some && new_folder is Some {
            assert(steps[2].action.turns(&states[2], &states[3]));
        }
    }
}

/// A record that a choice of records has left is one of the records.
proof fn lemma_left(
    records: Seq<FolderCipher>,
    folder: Seq<char>,
    cipher: Seq<char>,
    record: FolderCipher,
)
    requires
        without_filing(records, folder, cipher).contains(record),
    ensures
        records.contains(record),
        !(record.folder_uuid@ == folder && record.cipher_uuid@ == cipher),
{
    let pred = |record: FolderCipher|
        !(record.folder_uuid@ == folder && record.cipher_uuid@ == cipher);
    lemma_filter_holds(records, pred, record);
}

/// Once a cipher has left the only folder of the user that it was in, it is in none.
proof fn lemma_left_none(t: &Tables, user: Seq<char>, cipher: Seq<char>)
    requires
        filings(t, user, cipher).len() <= 1,
    ensures
        ({
            let left = match folder_of(t, user, cipher) {
                Some(from) => without_filing(t.folders_ciphers@, from@, cipher),
                None => t.folders_ciphers@,
            };
            forall|record: FolderCipher|
                left.contains(record) ==> !#[trigger] files_cipher(t, user, cipher, record)
        }),
{
    let records = t.folders_ciphers@;
    let pred = |record: FolderCipher| files_cipher(t, user, cipher, record);
    let found = filings(t, user, cipher);
    let left = match folder_of(t, user, cipher) {
        Some(from) => without_filing(records, from@, cipher),
        None => records,
    };
    assert forall|record: FolderCipher| left.contains(record) implies !#[trigger] files_cipher(
        t,
        user,
        cipher,
        record,
    ) by {
        if files_cipher(t, user, cipher, record) {
            if found.len() > 0 {
                lemma_left(records, found[0].folder_uuid@, cipher, record);
            }
            lemma_filter_holds(records, pred, record);
            let i = choose|i: int| 0 <= i < found.len() && found[i] == record;
            assert(i == 0);
        }
    }
}

/// After a move a cipher is in the folder of the user that was asked for, and in no other; or
/// in none, if none was asked for. The cipher must have been in at most one folder of the user,
/// and the new folder must be one of theirs.
pub proof fn law_moved_is_in_the_folder(
    user: UserId,
    cipher: CipherId,
    new_folder: Option<FolderId>,
    states: Seq<Tables>,
)
    requires
        leads_through(steps_of_move(&states[0], user, cipher, new_folder), states),
        filings(&states[0], user@, cipher@).len() <= 1,
        new_folder matches Some(folder) ==> is_users_folder(&states[0], user@, folder@),
    ensures
        match (folder_of(&states.last(), user@, cipher@), new_folder) {
            (Some(folder), Some(asked)) => folder@ == asked@,
            (None, None) => true,
            _ => false,
        },
        filings(&states.last(), user@, cipher@).len() <= 1,
{
    let before = &states[0];
    let after = &states.last();
    let old_folder = folder_of(before, user@, cipher@);
    lemma_move(user, cipher, new_folder, states);
    lemma_left_none(before, user@, cipher@);
    let records = before.folders_ciphers@;
    let pred = |record: FolderCipher| files_cipher(before, user@, cipher@, record);
    let later = |record: FolderCipher| files_cipher(after, user@, cipher@, record);
    assert(pred =~= later);
    if !stays(old_folder, new_folder) {
        let left = match old_folder {
            Some(from) => without_filing(records, from@, cipher@),
            None => records,
        };
        match new_folder {
            Some(to) => {
                let kept = without_filing(left, to@, cipher@);
                let record = FolderCipher { cipher_uuid: cipher, folder_uuid: to };
                assert forall|other: FolderCipher| kept.contains(other) implies !#[trigger] pred(
                    other,
                ) by {
                    lemma_left(left, to@, cipher@, other);
                }
                lemma_filter_none(kept, pred);
                kept.lemma_filter_push(record, pred);
                assert(pred(record));
                assert(filings(after, user@, cipher@) =~= seq![record]);
            },
            None => {
                assert forall|other: FolderCipher| left.contains(other) implies !#[trigger] pred(
                    other,
                ) by {
                    assert(!files_cipher(before, user@, cipher@, other));
                }
                lemma_filter_none(left, pred);
            },
        }
    } else {
        assert(filings(after, user@, cipher@) == filings(before, user@, cipher@));
    }
}

/// Whether no folder belongs to two users.
pub open spec fn folders_have_one_user(t: &Tables) -> bool {
    forall|user: Seq<char>, other: Seq<char>, folder: Seq<char>|
        #![trigger is_users_folder(t, user, folder), is_users_folder(t, other, folder)]
        is_users_folder(t, user, folder) && is_users_folder(t, other, folder) ==> user == other
}

/// A move concerns nobody else and no other cipher: whatever folder another user has the cipher
/// in, or any user another cipher, it stays there.
pub proof fn law_move_concerns_nothing_else(
    user: UserId,
    cipher: CipherId,
    new_folder: Option<FolderId>,
    states: Seq<Tables>,
    other_user: Seq<char>,
    other_cipher: Seq<char>,
)
    requires
        leads_through(steps_of_move(&states[0], user, cipher, new_folder), states),
        folders_have_one_user(&states[0]),
        new_folder matches Some(folder) ==> is_users_folder(&states[0], user@, folder@),
        other_user != user@ || other_cipher != cipher@,
    ensures
        folder_of(&states.last(), other_user, other_cipher) == folder_of(
            &states[0],
            other_user,
            other_cipher,
        ),
{
    let before = &states[0];
    let after = &states.last();
    let old_folder = folder_of(before, user@, cipher@);
    lemma_move(user, cipher, new_folder, states);
    law_move_finds_the_old_folder(before, user@, cipher@);
    let records = before.folders_ciphers@;
    let pred = |record: FolderCipher| files_cipher(before, other_user, other_cipher, record);
    let later = |record: FolderCipher| files_cipher(after, other_user, other_cipher, record);
    assert(pred =~= later);
    if !stays(old_folder, new_folder) {
        let left = match old_folder {
            Some(from) => {
                let keep = |record: FolderCipher|
                    !(record.folder_uuid@ == from@ && record.cipher_uuid@ == cipher@);
                lemma_filter_twice(records, keep, pred);
                without_filing(records, from@, cipher@)
            },
            None => records,
        };
        assert(left.filter(pred) == records.filter(pred));
        match new_folder {
            Some(to) => {
                let keep = |record: FolderCipher|
                    !(record.folder_uuid@ == to@ && record.cipher_uuid@ == cipher@);
                let kept = without_filing(left, to@, cipher@);
                lemma_filter_twice(left, keep, pred);
                let record = FolderCipher { cipher_uuid: cipher, folder_uuid: to };
                assert(!pred(record));
                kept.lemma_filter_push(record, pred);
            },
            None => {},
        }
    }
    assert(filings(after, other_user, other_cipher) == filings(
        before,
        other_user,
        other_cipher,
    ));
}

/// Whether the ciphers are deleted one after the other, through the given states of the tables.
pub open spec fn deletes_all(ciphers: Seq<Cipher>, states: Seq<Tables>) -> bool {
    &&& states.len() == ciphers.len() + 1
    &&& forall|i: int|
        0 <= i < ciphers.len() ==> same_besides(
            &states[i],
            &states[i + 1],
            (#[trigger] ciphers[i]).uuid@,
        )
}

/// A cipher that is left while ciphers are deleted was there before and is none of them.
proof fn lemma_left_by_sweep(ciphers: Seq<Cipher>, states: Seq<Tables>, n: nat, cipher: Cipher)
    requires
        deletes_all(ciphers, states),
        n <= ciphers.len(),
        states[n as int].ciphers@.contains(cipher),
    ensures
        states[0].ciphers@.contains(cipher),
        forall|i: int| 0 <= i < n ==> (#[trigger] ciphers[i]).uuid@ != cipher.uuid@,
    decreases n,
{
    if n > 0 {
        let uuid = ciphers[n - 1].uuid@;
        assert(same_besides(&states[n - 1], &states[n - 1 + 1], uuid));
        let pred = |stored: Cipher| stored.uuid@ != uuid;
        lemma_filter_holds(states[n - 1].ciphers@, pred, cipher);
        lemma_left_by_sweep(ciphers, states, (n - 1) as nat, cipher);
    }
}

/// Once all ciphers that meet a criterion have been deleted, none is left that meets it: no
/// cipher of the organization, none that the user owns, none that was deleted before the point
/// in time.
pub proof fn law_sweep_leaves_none(criterion: Criterion, states: Seq<Tables>)
    requires
        states.len() > 0,
        deletes_all(selected(&states[0], criterion), states),
    ensures
        selected(&states.last(), criterion).len() == 0,
{
    let before = states[0].ciphers@;
    let gone = selected(&states[0], criterion);
    let after = states.last().ciphers@;
    let pred = |cipher: Cipher| criterion.admits(cipher);
    assert forall|cipher: Cipher| after.contains(cipher) implies !#[trigger] pred(cipher) by {
        lemma_left_by_sweep(gone, states, gone.len(), cipher);
        lemma_filter_holds(before, pred, cipher);
        if pred(cipher) {
            let i = choose|i: int| 0 <= i < gone.len() && gone[i] == cipher;
            assert(gone[i].uuid@ != cipher.uuid@);
        }
    }
    lemma_filter_none(after, pred);
}

/// Deleting all ciphers that meet a criterion leaves every cipher that does not, if no two
/// ciphers have the same identifier.
pub proof fn law_sweep_keeps_the_others(criterion: Criterion, states: Seq<Tables>, cipher: Cipher)
    requires
        states.len() > 0,
        deletes_all(selected(&states[0], criterion), states),
        distinct_ciphers(states[0].ciphers@),
        states[0].ciphers@.contains(cipher),
        !criterion.admits(cipher),
    ensures
        states.last().ciphers@.contains(cipher),
{
    let gone = selected(&states[0], criterion);
    let pred = |cipher: Cipher| criterion.admits(cipher);
    let before = states[0].ciphers@;
    assert forall|i: int| 0 <= i < gone.len() implies (#[trigger] gone[i]).uuid@
        != cipher.uuid@ by {
        assert(gone.contains(gone[i]));
        lemma_filter_holds(before, pred, gone[i]);
        let j = choose|j: int| 0 <= j < before.len() && before[j] == gone[i];
        let k = choose|k: int| 0 <= k < before.len() && before[k] == cipher;
        assert(j != k);
        if j < k {
            assert(before[j].uuid@ != before[k].uuid@);
        } else {
            assert(before[k].uuid@ != before[j].uuid@);
        }
    }
    lemma_kept_by_sweep(gone, states, gone.len(), cipher);
}

/// A cipher that is none of those that are deleted stays.
proof fn lemma_kept_by_sweep(ciphers: Seq<Cipher>, states: Seq<Tables>, n: nat, cipher: Cipher)
    requires
        deletes_all(ciphers, states),
        n <= ciphers.len(),
        states[0].ciphers@.contains(cipher),
        forall|i: int| 0 <= i < ciphers.len() ==> (#[trigger] ciphers[i]).uuid@ != cipher.uuid@,
    ensures
        states[n as int].ciphers@.contains(cipher),
    decreases n,
{
    if n > 0 {
        lemma_kept_by_sweep(ciphers, states, (n - 1) as nat, cipher);
        let uuid = ciphers[n - 1].uuid@;
        assert(same_besides(&states[n - 1], &states[n - 1 + 1], uuid));
        let pred = |stored: Cipher| stored.uuid@ != uuid;
        lemma_filter_holds(states[n - 1].ciphers@, pred, cipher);
    }
}

/// The ciphers that are found as a user's own are at most as many as are counted as theirs.
pub proof fn law_count_covers_owned(t: &Tables, user: UserId)
    ensures
        selected(t, Criterion::UserAlone(&user)).len() <= selected(
            t,
            Criterion::User(&user),
        ).len(),
{
    let alone = Criterion::UserAlone(&user);
    let all = Criterion::User(&user);
    let narrow = |cipher: Cipher| alone.admits(cipher);
    let wide = |cipher: Cipher| all.admits(cipher);
    lemma_filter_fewer(t.ciphers@, narrow, wide);
}

/// That a revision cannot be updated never keeps an operation from going on.
pub proof fn law_revisions_never_stop_a_run(
    run: &Run,
    user: UserId,
    outcome: Result<(), Failure>,
    next: &Run,
)
    requires
        run.upcoming() is Some,
        run.steps@[run.done as int] == revision_step(user),
        run.reacts(outcome, next),
    ensures
        run.advances_to(next),
{
}

/// A change that fails and is not made up for by its fallback ends the operation, unless its
/// failure is to be ignored.
pub proof fn law_failure_ends_a_run(run: &Run, failure: Failure, next: &Run)
    requires
        run.upcoming() is Some,
        run.steps@[run.done as int].on_failure != OnFailure::Ignore,
        run.falling_back || run.steps@[run.done as int].fallback is None || failure is Other,
        run.reacts(Err(failure), next),
    ensures
        next.upcoming() is None,
        next.error is Some,
        next.error->0.detail == failure.error().detail,
{
}

/// Whether every change of the operation succeeds, through the given states of it.
pub open spec fn runs_through(states: Seq<Run>) -> bool {
    forall|i: int|
        0 <= i < states.len() - 1 ==> (#[trigger] states[i]).reacts(Ok(()), &states[i + 1])
}

/// An operation all of whose changes succeed makes every one of them, in their order, and is
/// then over.
pub proof fn law_success_makes_all_changes(
    steps: Seq<Step>,
    verdict: Option<Complaint>,
    states: Seq<Run>,
    n: nat,
)
    requires
        states.len() == steps.len() + 1,
        states[0].is_fresh(steps, verdict),
        runs_through(states),
        n <= steps.len(),
    ensures
        states[n as int].done == n,
        states[n as int].steps@ == steps,
        states[n as int].verdict == verdict,
        states[n as int].error is None,
        states[n as int].upcoming() == if n < steps.len() {
            Some(steps[n as int].action)
        } else {
            None
        },
    decreases n,
{
    if n > 0 {
        law_success_makes_all_changes(steps, verdict, states, (n - 1) as nat);
        assert(states[n - 1].reacts(Ok(()), &states[n - 1 + 1]));
    }
}

/// A sweep that passes over ciphers which cannot be deleted comes to all of them.
pub proof fn law_tolerant_sweep_goes_on(
    sweep: &Sweep,
    outcome: Result<(), Error>,
    next: &Sweep,
)
    requires
        sweep.tolerant,
        sweep.reacts(outcome, next),
    ensures
        next.done == sweep.done + 1,
        next.error is None,
{
}

} // verus!
