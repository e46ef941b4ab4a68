//! Laws on the changes that operations are made of: what each does to the stored rows, which
//! changes an operation makes, and what becomes of it when one fails.

use crate::actions::Action;
use crate::changes::{
    affected_users, delete_steps, is_filed, move_steps, move_verdict, purges, revision_step,
    revision_steps, save_step, stays, Backend, Concerned,
};
use crate::cipher::Cipher;
use crate::dates::{days_before_spec, Timestamp};
use crate::error::Error;
use crate::ids::{CipherId, FolderId, UserId};
use crate::laws::selection::law_selection_by_deletion;
use crate::laws::values::law_days_before;
use crate::runs::{Complaint, Failure, OnFailure, Run, Step, Sweep};
use crate::tables::{Attachment, CollectionCipher, Favorite, FolderCipher, Tables};
use vstd::prelude::*;

verus! {

/// Whether the tables that say who belongs to what are the same.
pub open spec fn keeps_members(before: &Tables, after: &Tables) -> bool {
    &&& after.users_organizations@ == before.users_organizations@
    &&& after.users_collections@ == before.users_collections@
    &&& after.groups_users@ == before.groups_users@
    &&& after.groups@ == before.groups@
    &&& after.collections_groups@ == before.collections_groups@
    &&& after.collections@ == before.collections@
    &&& after.folders@ == before.folders@
}

/// Whether the tables other than that of the ciphers are the same.
pub open spec fn keeps_all_but_ciphers(before: &Tables, after: &Tables) -> bool {
    &&& after.ciphers_collections@ == before.ciphers_collections@
    &&& after.folders_ciphers@ == before.folders_ciphers@
    &&& after.attachments@ == before.attachments@
    &&& after.favorites@ == before.favorites@
    &&& keeps_members(before, after)
}

/// Whether the tables other than that of the folders' contents are the same.
pub open spec fn keeps_all_but_filings(before: &Tables, after: &Tables) -> bool {
    &&& after.ciphers@ == before.ciphers@
    &&& after.ciphers_collections@ == before.ciphers_collections@
    &&& after.attachments@ == before.attachments@
    &&& after.favorites@ == before.favorites@
    &&& keeps_members(before, after)
}

/// Whether the tables other than that of the favorites are the same.
pub open spec fn keeps_all_but_favorites(before: &Tables, after: &Tables) -> bool {
    &&& after.ciphers@ == before.ciphers@
    &&& after.ciphers_collections@ == before.ciphers_collections@
    &&& after.folders_ciphers@ == before.folders_ciphers@
    &&& after.attachments@ == before.attachments@
    &&& keeps_members(before, after)
}

/// Updating a revision changes none of the tables.
pub proof fn law_revision_changes_no_row(user: UserId, before: &Tables, after: &Tables)
    ensures
        Action::UpdateRevision(user).turns(before, after) <==> after.ciphers@ == before.ciphers@
            && keeps_all_but_ciphers(before, after),
{
}

/// Replacing a cipher removes what is stored under its identifier and adds it at the end; the
/// other ciphers stay, in their order.
pub proof fn law_replaced_cipher(cipher: Cipher, before: &Tables, after: &Tables)
    ensures
        Action::ReplaceCipher(cipher).turns(before, after) <==> after.ciphers@
            == before.ciphers@.filter(
            |stored: Cipher| stored.uuid.0@ != cipher.uuid.0@,
        ).push(cipher) && keeps_all_but_ciphers(before, after),
{
    assert((|stored: Cipher| stored.uuid@ != cipher.uuid@) =~= (|stored: Cipher|
        stored.uuid.0@ != cipher.uuid.0@));
}

/// Updating a cipher puts it, whole, in the place of what is stored under its identifier, and
/// adds nothing.
pub proof fn law_updated_cipher(cipher: Cipher, before: &Tables, after: &Tables, i: int)
    requires
        Action::UpdateCipher(cipher).turns(before, after),
    ensures
        after.ciphers@.len() == before.ciphers@.len(),
        0 <= i < before.ciphers@.len() ==> after.ciphers@[i] == if before.ciphers@[i].uuid.0@
            == cipher.uuid.0@ {
            cipher
        } else {
            before.ciphers@[i]
        },
        keeps_all_but_ciphers(before, after),
{
}

/// Saving with an upsert updates the cipher where one is stored under its identifier, and adds
/// it at the end where none is.
pub proof fn law_upserted_cipher(cipher: Cipher, before: &Tables, after: &Tables, i: int)
    requires
        Action::UpsertCipher(cipher).turns(before, after),
        0 <= i < before.ciphers@.len(),
    ensures
        after.ciphers@[i] == if before.ciphers@[i].uuid.0@ == cipher.uuid.0@ {
            cipher
        } else {
            before.ciphers@[i]
        },
        before.ciphers@[i].uuid.0@ == cipher.uuid.0@ ==> after.ciphers@.len()
            == before.ciphers@.len(),
        keeps_all_but_ciphers(before, after),
{
    assert(before.ciphers@[i].uuid@ == before.ciphers@[i].uuid.0@);
}

/// An upsert of a cipher under whose identifier none is stored adds it at the end.
pub proof fn law_upsert_of_a_new_cipher(cipher: Cipher, before: &Tables, after: &Tables)
    requires
        forall|i: int|
            0 <= i < before.ciphers@.len() ==> (#[trigger] before.ciphers@[i]).uuid.0@
                != cipher.uuid.0@,
    ensures
        Action::UpsertCipher(cipher).turns(before, after) <==> after.ciphers@
            == before.ciphers@.push(cipher) && keeps_all_but_ciphers(before, after),
{
    assert forall|i: int| 0 <= i < before.ciphers@.len() implies (#[trigger]
    before.ciphers@[i]).uuid@ != cipher.uuid@ by {
        assert(before.ciphers@[i].uuid.0@ != cipher.uuid.0@);
    }
}

/// Deleting a cipher removes what is stored under its identifier; the other ciphers stay, in
/// their order.
pub proof fn law_deleted_cipher(uuid: CipherId, before: &Tables, after: &Tables)
    ensures
        Action::DeleteCipher(uuid).turns(before, after) <==> after.ciphers@
            == before.ciphers@.filter(|stored: Cipher| stored.uuid.0@ != uuid.0@)
            && keeps_all_but_ciphers(before, after),
{
    assert((|stored: Cipher| stored.uuid@ != uuid@) =~= (|stored: Cipher|
        stored.uuid.0@ != uuid.0@));
}

/// Taking a cipher out of all folders removes its records, of whichever folder, and no others.
pub proof fn law_deleted_folder_links(uuid: CipherId, before: &Tables, after: &Tables)
    ensures
        Action::DeleteFolderLinks(uuid).turns(before, after) <==> after.folders_ciphers@
            == before.folders_ciphers@.filter(
            |record: FolderCipher| record.cipher_uuid.0@ != uuid.0@,
        ) && keeps_all_but_filings(before, after),
{
    assert((|record: FolderCipher| record.cipher_uuid@ != uuid@) =~= (|record: FolderCipher|
        record.cipher_uuid.0@ != uuid.0@));
}

/// Taking a cipher out of all collections removes its links, to whichever collection, and no
/// others.
pub proof fn law_deleted_collection_links(uuid: CipherId, before: &Tables, after: &Tables)
    ensures
        Action::DeleteCollectionLinks(uuid).turns(before, after) <==> {
            &&& after.ciphers_collections@ == before.ciphers_collections@.filter(
                |link: CollectionCipher| link.cipher_uuid.0@ != uuid.0@,
            )
            &&& after.ciphers@ == before.ciphers@
            &&& after.folders_ciphers@ == before.folders_ciphers@
            &&& after.attachments@ == before.attachments@
            &&& after.favorites@ == before.favorites@
            &&& keeps_members(before, after)
        },
{
    assert((|link: CollectionCipher| link.cipher_uuid@ != uuid@) =~= (|link: CollectionCipher|
        link.cipher_uuid.0@ != uuid.0@));
}

/// Deleting the attachments of a cipher deletes all of them, and no others.
pub proof fn law_deleted_attachments(uuid: CipherId, before: &Tables, after: &Tables)
    ensures
        Action::DeleteAttachments(uuid).turns(before, after) <==> {
            &&& after.attachments@ == before.attachments@.filter(
                |attachment: Attachment| attachment.cipher_uuid.0@ != uuid.0@,
            )
            &&& after.ciphers@ == before.ciphers@
            &&& after.ciphers_collections@ == before.ciphers_collections@
            &&& after.folders_ciphers@ == before.folders_ciphers@
            &&& after.favorites@ == before.favorites@
            &&& keeps_members(before, after)
        },
{
    assert((|attachment: Attachment| attachment.cipher_uuid@ != uuid@) =~= (
    |attachment: Attachment| attachment.cipher_uuid.0@ != uuid.0@));
}

/// Making a cipher nobody's favorite removes all marks on it, whoever set them, and no others.
pub proof fn law_deleted_favorites(uuid: CipherId, before: &Tables, after: &Tables)
    ensures
        Action::DeleteFavorites(uuid).turns(before, after) <==> after.favorites@
            == before.favorites@.filter(|mark: Favorite| mark.cipher_uuid.0@ != uuid.0@)
            && keeps_all_but_favorites(before, after),
{
    assert((|favorite: Favorite| favorite.cipher_uuid@ != uuid@) =~= (|mark: Favorite|
        mark.cipher_uuid.0@ != uuid.0@));
}

/// Putting a cipher into a folder adds one record at the end, and removes none but the same one;
/// taking it out removes the records of that cipher in that folder, and no others.
pub proof fn law_folder_link(folder: FolderId, cipher: CipherId, before: &Tables, after: &Tables)
    ensures
        Action::SaveFolderLink(folder, cipher).turns(before, after) <==> after.folders_ciphers@
            == before.folders_ciphers@.filter(
            |record: FolderCipher|
                record.folder_uuid.0@ != folder.0@ || record.cipher_uuid.0@ != cipher.0@,
        ).push(FolderCipher { cipher_uuid: cipher, folder_uuid: folder })
            && keeps_all_but_filings(before, after),
        Action::DeleteFolderLink(folder, cipher).turns(before, after) <==> after.folders_ciphers@
            == before.folders_ciphers@.filter(
            |record: FolderCipher|
                record.folder_uuid.0@ != folder.0@ || record.cipher_uuid.0@ != cipher.0@,
        ) && keeps_all_but_filings(before, after),
{
    assert((|record: FolderCipher|
        !(record.folder_uuid@ == folder@ && record.cipher_uuid@ == cipher@)) =~= (
    |record: FolderCipher|
        record.folder_uuid.0@ != folder.0@ || record.cipher_uuid.0@ != cipher.0@));
}

/// Marking a cipher as a user's favorite adds one mark at the end, and removes none but the same
/// one; unmarking it removes the user's marks on the cipher, and no others.
pub proof fn law_favorite_mark(cipher: CipherId, user: UserId, before: &Tables, after: &Tables)
    ensures
        Action::SetFavorite(true, cipher, user).turns(before, after) <==> after.favorites@
            == before.favorites@.filter(
            |mark: Favorite| mark.cipher_uuid.0@ != cipher.0@ || mark.user_uuid.0@ != user.0@,
        ).push(Favorite { user_uuid: user, cipher_uuid: cipher })
            && keeps_all_but_favorites(before, after),
        Action::SetFavorite(false, cipher, user).turns(before, after) <==> after.favorites@
            == before.favorites@.filter(
            |mark: Favorite| mark.cipher_uuid.0@ != cipher.0@ || mark.user_uuid.0@ != user.0@,
        ) && keeps_all_but_favorites(before, after),
{
    assert((|favorite: Favorite|
        !(favorite.cipher_uuid@ == cipher@ && favorite.user_uuid@ == user@)) =~= (
    |mark: Favorite| mark.cipher_uuid.0@ != cipher.0@ || mark.user_uuid.0@ != user.0@));
}

/// A change to a cipher with an owner concerns the owner alone, even where it names an
/// organization, too; one of an organization concerns the users of its collections and, with
/// groups, after them those of its groups; one of nobody concerns nobody.
pub proof fn law_whom_a_change_concerns(cipher: Cipher, concerned: &Concerned)
    ensures
        cipher.user_uuid is Some ==> affected_users(cipher, concerned, true)
            == seq![cipher.user_uuid.unwrap()] && affected_users(cipher, concerned, false)
            == seq![cipher.user_uuid.unwrap()],
        cipher.user_uuid is None && cipher.organization_uuid is Some ==> affected_users(
            cipher,
            concerned,
            true,
        ) == concerned.collection_users@ + concerned.group_users@,
        cipher.user_uuid is None && cipher.organization_uuid is Some ==> affected_users(
            cipher,
            concerned,
            false,
        ) == concerned.collection_users@,
        cipher.user_uuid is None && cipher.organization_uuid is None ==> affected_users(
            cipher,
            concerned,
            true,
        ).len() == 0 && affected_users(cipher, concerned, false).len() == 0,
{
}

/// The revision of every user is updated, once for each time that the user is listed, in the
/// order of the list; whether that fails does not matter.
pub proof fn law_revisions_of_users(users: Seq<UserId>, i: int)
    ensures
        revision_steps(users).len() == users.len(),
        0 <= i < users.len() ==> {
            let step = revision_steps(users)[i];
            &&& step.action == Action::UpdateRevision(users[i])
            &&& step.fallback is None
            &&& step.on_failure == OnFailure::Ignore
            &&& revision_step(users[i]) == step
        },
{
}

/// How a cipher is saved: with an upsert in PostgreSQL, and elsewhere by replacing it, or, where
/// that would break a reference, by updating it. A failure is reported as one of saving.
pub proof fn law_step_of_saving(cipher: Cipher)
    ensures
        save_step(cipher, Backend::Postgresql).action == Action::UpsertCipher(cipher),
        save_step(cipher, Backend::Postgresql).fallback is None,
        save_step(cipher, Backend::Sqlite).action == Action::ReplaceCipher(cipher),
        save_step(cipher, Backend::Sqlite).fallback == Some(Action::UpdateCipher(cipher)),
        save_step(cipher, Backend::Mysql).action == Action::ReplaceCipher(cipher),
        save_step(cipher, Backend::Mysql).fallback == Some(Action::UpdateCipher(cipher)),
        forall|backend: Backend| (#[trigger] save_step(cipher, backend)).on_failure
            == OnFailure::Say(Complaint::Saving),
{
}

/// A cipher is deleted in five changes, none of which has a fallback: its records in folders,
/// its links to collections, its attachments, the marks on it and at last the cipher. The error
/// of one of the first four is passed on, that of the last is reported as one of deleting.
pub proof fn law_steps_of_deleting(uuid: CipherId)
    ensures
        delete_steps(uuid).len() == 5,
        delete_steps(uuid)[0].action == Action::DeleteFolderLinks(uuid),
        delete_steps(uuid)[1].action == Action::DeleteCollectionLinks(uuid),
        delete_steps(uuid)[2].action == Action::DeleteAttachments(uuid),
        delete_steps(uuid)[3].action == Action::DeleteFavorites(uuid),
        delete_steps(uuid)[4].action == Action::DeleteCipher(uuid),
        forall|i: int|
            0 <= i < 5 ==> (#[trigger] delete_steps(uuid)[i]).fallback is None
                && delete_steps(uuid)[i].on_failure == if i < 4 {
                OnFailure::Pass
            } else {
                OnFailure::Say(Complaint::Deleting)
            },
{
}

/// How a cipher is moved: not at all where it is in the folder already or in none and none is
/// asked for; else it is first taken out of the old folder, where it is there, and then put into
/// the new one, where one is asked for.
pub proof fn law_steps_of_moving(cipher: CipherId, from: FolderId, to: FolderId, linked: bool)
    ensures
        move_steps(cipher, None, None, linked).len() == 0,
        move_steps(cipher, None, Some(to), linked) == seq![
            (Step {
                action: Action::SaveFolderLink(to, cipher),
                fallback: None,
                on_failure: OnFailure::Pass,
            }),
        ],
        move_steps(cipher, Some(from), None, true) == seq![
            (Step {
                action: Action::DeleteFolderLink(from, cipher),
                fallback: None,
                on_failure: OnFailure::Pass,
            }),
        ],
        move_steps(cipher, Some(from), None, false).len() == 0,
        from.0@ == to.0@ ==> move_steps(cipher, Some(from), Some(to), linked).len() == 0,
        from.0@ != to.0@ ==> move_steps(cipher, Some(from), Some(to), true) == seq![
            (Step {
                action: Action::DeleteFolderLink(from, cipher),
                fallback: None,
                on_failure: OnFailure::Pass,
            }),
            (Step {
                action: Action::SaveFolderLink(to, cipher),
                fallback: None,
                on_failure: OnFailure::Pass,
            }),
        ],
        from.0@ != to.0@ ==> move_steps(cipher, Some(from), Some(to), false) == seq![
            (Step {
                action: Action::SaveFolderLink(to, cipher),
                fallback: None,
                on_failure: OnFailure::Pass,
            }),
        ],
        stays(Some(from), Some(to)) <==> from.0@ == to.0@,
        stays(None, None) && !stays(None, Some(to)) && !stays(Some(from), None),
{
}

/// A move fails for want of the old folder exactly where the cipher should only leave a folder
/// that it is not in.
pub proof fn law_verdict_of_a_move(
    old_folder: Option<FolderId>,
    new_folder: Option<FolderId>,
    linked: bool,
)
    ensures
        move_verdict(old_folder, new_folder, linked) == if old_folder is Some && new_folder is None
            && !linked {
            Some(Complaint::LostFolder)
        } else {
            None::<Complaint>
        },
{
}

/// A cipher is in a folder where a record says so: of that folder and of that cipher.
pub proof fn law_filing(t: &Tables, folder: Seq<char>, cipher: Seq<char>)
    ensures
        is_filed(t, folder, cipher) <==> exists|i: int|
            0 <= i < t.folders_ciphers@.len() && (#[trigger] t.folders_ciphers@[i]).folder_uuid.0@
                == folder && t.folders_ciphers@[i].cipher_uuid.0@ == cipher,
{
    let records = t.folders_ciphers@;
    if is_filed(t, folder, cipher) {
        let i = choose|i: int|
            0 <= i < records.len() && (#[trigger] records[i]).folder_uuid@ == folder
                && records[i].cipher_uuid@ == cipher;
        assert(records[i].folder_uuid.0@ == folder);
    }
    if exists|i: int|
        0 <= i < records.len() && (#[trigger] records[i]).folder_uuid.0@ == folder
            && records[i].cipher_uuid.0@ == cipher {
        let i = choose|i: int|
            0 <= i < records.len() && (#[trigger] records[i]).folder_uuid.0@ == folder
                && records[i].cipher_uuid.0@ == cipher;
        assert(records[i].folder_uuid@ == folder);
    }
}

/// A purge goes over the stored ciphers that were deleted more than so many days of 86400 seconds
/// before the time, from the first, and passes over those that cannot be deleted.
pub proof fn law_purge(t: &Tables, time: Timestamp, days: i64, cutoff: Timestamp, sweep: Sweep)
    requires
        cutoff.secs == time.secs - days * 86400,
        cutoff.nanos == time.nanos,
        -8334601228800 <= cutoff.secs <= 8210266876799,
    ensures
        !purges(t, time, days, None),
        purges(t, time, days, Some(sweep)) <==> {
            &&& sweep.ciphers@ == t.ciphers@.filter(
                |cipher: Cipher|
                    cipher.deleted_at is Some && (cipher.deleted_at.unwrap().secs < cutoff.secs || (
                    cipher.deleted_at.unwrap().secs == cutoff.secs
                        && cipher.deleted_at.unwrap().nanos < cutoff.nanos)),
            )
            &&& sweep.done == 0
            &&& sweep.tolerant
            &&& sweep.error is None
        },
{
    law_days_before(time, days, cutoff);
    law_selection_by_deletion(t, cutoff);
}

/// Nothing is purged where the calendar does not reach back so many days.
pub proof fn law_no_purge_beyond_the_calendar(
    t: &Tables,
    time: Timestamp,
    days: i64,
    sweep: Option<Sweep>,
)
    requires
        !(-8334601228800 <= time.secs - days * 86400 <= 8210266876799),
    ensures
        purges(t, time, days, sweep) <==> sweep is None,
{
    match days_before_spec(time, days) {
        Some(earlier) => law_days_before(time, days, earlier),
        None => {},
    }
}

/// What failed operations say.
pub proof fn law_words_of_complaints()
    ensures
        Complaint::Saving.spec_message() == "Error saving cipher"@,
        Complaint::Deleting.spec_message() == "Error deleting cipher"@,
        Complaint::LostFolder.spec_message() == "Couldn't move from previous folder"@,
{
}

/// An operation that has not begun has made no change, is not falling back and has no error.
pub proof fn law_begun_run(run: &Run, steps: Seq<Step>, verdict: Option<Complaint>)
    ensures
        run.is_fresh(steps, verdict) <==> {
            &&& run.steps@ == steps
            &&& run.done == 0
            &&& run.falling_back == false
            &&& run.verdict == verdict
            &&& run.error is None
        },
{
}

/// The change to make next is that at the position reached, or its fallback; there is none after
/// an error and after the last.
pub proof fn law_upcoming_change(run: &Run)
    ensures
        run.error is Some ==> run.upcoming() is None,
        run.done >= run.steps@.len() ==> run.upcoming() is None,
        run.error is None && run.done < run.steps@.len() && !run.falling_back ==> run.upcoming()
            == Some(run.steps@[run.done as int].action),
        run.error is None && run.done < run.steps@.len() && run.falling_back ==> run.upcoming()
            == run.steps@[run.done as int].fallback,
{
}

/// Whatever comes of a change, the operation stays the same but for how far it has got.
pub proof fn law_operation_stays_the_same(
    run: &Run,
    outcome: Result<(), Failure>,
    next: &Run,
)
    requires
        run.reacts(outcome, next),
    ensures
        next.steps@ == run.steps@,
        next.verdict == run.verdict,
        run.done <= next.done <= run.done + 1,
{
}

/// A change that succeeds, be it a fallback or not, is behind, and the next one is to be made.
pub proof fn law_successful_change(run: &Run, next: &Run)
    requires
        run.reacts(Ok(()), next),
    ensures
        next.done == run.done + 1,
        !next.falling_back,
        next.error is None,
{
}

/// A change that breaks a reference is made up for by its fallback, where it has one and was not
/// the fallback itself; nothing else is.
pub proof fn law_fallback(run: &Run, error: Error, next: &Run)
    requires
        run.done < run.steps@.len(),
        run.steps@[run.done as int].fallback is Some,
        !run.falling_back,
        run.reacts(Err(Failure::ForeignKeyViolation(error)), next),
    ensures
        next.done == run.done,
        next.falling_back,
        next.error is None,
{
}

/// A failed change that is not made up for leaves the operation going where failures are ignored,
/// and otherwise ends it: with its own error, or with its error under other words.
pub proof fn law_failed_change(run: &Run, failure: Failure, error: Error, next: &Run)
    requires
        run.done < run.steps@.len(),
        failure == Failure::Other(error) || (failure == Failure::ForeignKeyViolation(error) && (
        run.steps@[run.done as int].fallback is None || run.falling_back)),
        run.reacts(Err(failure), next),
    ensures
        match run.steps@[run.done as int].on_failure {
            OnFailure::Ignore => next.done == run.done + 1 && next.error is None
                && !next.falling_back,
            OnFailure::Pass => next.done == run.done && next.error == Some(error),
            OnFailure::Say(complaint) => {
                &&& next.done == run.done
                &&& next.error is Some
                &&& next.error.unwrap().message@ == match complaint {
                    Complaint::Saving => "Error saving cipher"@,
                    Complaint::Deleting => "Error deleting cipher"@,
                    Complaint::LostFolder => "Couldn't move from previous folder"@,
                }
                &&& next.error.unwrap().detail == error.detail
            },
        },
{
}

/// A sweep that has not begun has all its ciphers before it and no error.
pub proof fn law_begun_sweep(sweep: &Sweep, ciphers: Seq<Cipher>, tolerant: bool)
    ensures
        sweep.is_fresh(ciphers, tolerant) <==> {
            &&& sweep.ciphers@ == ciphers
            &&& sweep.done == 0
            &&& sweep.tolerant == tolerant
            &&& sweep.error is None
        },
        sweep.error is Some || sweep.done >= sweep.ciphers@.len() ==> sweep.upcoming() is None,
        sweep.error is None && sweep.done < sweep.ciphers@.len() ==> sweep.upcoming() == Some(
            sweep.ciphers@[sweep.done as int],
        ),
{
}

/// A cipher that cannot be deleted ends a sweep that does not pass over it, with that error; any
/// other outcome brings the next cipher.
pub proof fn law_swept_cipher(sweep: &Sweep, error: Error, next: &Sweep)
    ensures
        sweep.reacts(Ok(()), next) <==> {
            &&& next.ciphers@ == sweep.ciphers@
            &&& next.tolerant == sweep.tolerant
            &&& next.done == sweep.done + 1
            &&& next.error is None
        },
        sweep.tolerant ==> (sweep.reacts(Err(error), next) <==> {
            &&& next.ciphers@ == sweep.ciphers@
            &&& next.tolerant == sweep.tolerant
            &&& next.done == sweep.done + 1
            &&& next.error is None
        }),
        !sweep.tolerant ==> (sweep.reacts(Err(error), next) <==> {
            &&& next.ciphers@ == sweep.ciphers@
            &&& next.tolerant == sweep.tolerant
            &&& next.done == sweep.done
            &&& next.error == Some(error)
        }),
{
}

} // verus!
