//! Operations that change ciphers: as runs of changes to the store.

use crate::actions::Action;
use crate::cipher::Cipher;
use crate::dates::{days_before, days_before_spec, now, Timestamp};
use crate::finders::{folder_of, selected, Criterion};
use crate::ids::{CipherId, FolderId, OrganizationId, UserId};
use crate::runs::{Complaint, OnFailure, Run, Step, Sweep};
use crate::tables::Tables;
use vstd::prelude::*;

verus! {

/// The members of an organization that a cipher of the organization concerns.
#[derive(Debug)]
pub struct Concerned {
    /// Those with access to a collection that the cipher is in.
    pub collection_users: Vec<UserId>,
    /// Those in a group with access to a collection that the cipher is in.
    pub group_users: Vec<UserId>,
}

/// The database that holds the store.
#[derive(Clone, Copy, Debug, PartialEq, Eq, Structural)]
pub enum Backend {
    Sqlite,
    Mysql,
    Postgresql,
}

/// The users whose revision a change to the cipher updates: the owner, or else the members of
/// its organization that it concerns, those through groups after the others.
pub open spec fn affected_users(cipher: Cipher, concerned: &Concerned, groups: bool) -> Seq<
    UserId,
> {
    match cipher.user_uuid {
        Some(user) => seq![user],
        None => if cipher.organization_uuid is None {
            Seq::empty()
        } else if groups {
            concerned.collection_users@ + concerned.group_users@
        } else {
            concerned.collection_users@
        },
    }
}

/// The change that updates a user's revision. That it fails does not matter.
pub open spec fn revision_step(user: UserId) -> Step {
    Step {
        action: Action::UpdateRevision(user),
        fallback: None,
        on_failure: OnFailure::Ignore,
    }
}

/// The changes that update the revisions of users.
pub open spec fn revision_steps(users: Seq<UserId>) -> Seq<Step> {
    users.map_values(|user: UserId| revision_step(user))
}

/// The change that stores the cipher. Where replacing it would leave a reference to a deleted
/// row, it is overwritten instead.
pub open spec fn save_step(cipher: Cipher, backend: Backend) -> Step {
    match backend {
        Backend::Postgresql => Step {
            action: Action::UpsertCipher(cipher),
            fallback: None,
            on_failure: OnFailure::Say(Complaint::Saving),
        },
        _ => Step {
            action: Action::ReplaceCipher(cipher),
            fallback: Some(Action::UpdateCipher(cipher)),
            on_failure: OnFailure::Say(Complaint::Saving),
        },
    }
}

/// A change whose failure ends the operation.
pub open spec fn plain_step(action: Action) -> Step {
    Step { action, fallback: None, on_failure: OnFailure::Pass }
}

/// The changes that delete the cipher with all that refers to it.
pub open spec fn delete_steps(uuid: CipherId) -> Seq<Step> {
    seq![
        plain_step(Action::DeleteFolderLinks(uuid)),
        plain_step(Action::DeleteCollectionLinks(uuid)),
        plain_step(Action::DeleteAttachments(uuid)),
        plain_step(Action::DeleteFavorites(uuid)),
        Step {
            action: Action::DeleteCipher(uuid),
            fallback: None,
            on_failure: OnFailure::Say(Complaint::Deleting),
        },
    ]
}

/// Whether the cipher stays in the folder where it is.
pub open spec fn stays(old_folder: Option<FolderId>, new_folder: Option<FolderId>) -> bool {
    match (old_folder, new_folder) {
        (None, None) => true,
        (Some(from), Some(to)) => from@ == to@,
        _ => false,
    }
}

/// The changes that take the cipher from one folder to another.
pub open spec fn move_steps(
    cipher: CipherId,
    old_folder: Option<FolderId>,
    new_folder: Option<FolderId>,
    is_linked: bool,
) -> Seq<Step> {
    let out = match old_folder {
        Some(from) if is_linked => seq![plain_step(Action::DeleteFolderLink(from, cipher))],
        _ => Seq::empty(),
    };
    let into = match new_folder {
        Some(to) => seq![plain_step(Action::SaveFolderLink(to, cipher))],
        None => Seq::empty(),
    };
    if stays(old_folder, new_folder) {
        Seq::empty()
    } else {
        out + into
    }
}

/// What a move comes to: a cipher that should only leave its folder must be in it.
pub open spec fn move_verdict(
    old_folder: Option<FolderId>,
    new_folder: Option<FolderId>,
    is_linked: bool,
) -> Option<Complaint> {
    if old_folder is Some && new_folder is None && !is_linked {
        Some(Complaint::LostFolder)
    } else {
        None
    }
}

/// Whether `sweep` purges what was deleted more than so many days before `time`; there is none
/// where the calendar does not reach back so far.
pub open spec fn purges(t: &Tables, time: Timestamp, days: i64, sweep: Option<Sweep>) -> bool {
    match (days_before_spec(time, days), sweep) {
        (Some(cutoff), Some(sweep)) => sweep.is_fresh(
            selected(t, Criterion::DeletedBefore(&cutoff)),
            true,
        ),
        (None, None) => true,
        _ => false,
    }
}

/// Whether the cipher is in the folder.
pub open spec fn is_filed(t: &Tables, folder: Seq<char>, cipher: Seq<char>) -> bool {
    exists|i: int|
        0 <= i < t.folders_ciphers@.len() && (#[trigger] t.folders_ciphers@[i]).folder_uuid@
            == folder && t.folders_ciphers@[i].cipher_uuid@ == cipher
}

/// Whether the cipher is in the folder.
fn has_filing(t: &Tables, folder: &FolderId, cipher: &CipherId) -> (yes: bool)
    ensures
        yes == is_filed(t, folder@, cipher@),
{
    let mut i: usize = 0;
    while i < t.folders_ciphers.len()
        invariant
            i <= t.folders_ciphers@.len(),
            forall|j: int|
                0 <= j < i ==> !((#[trigger] t.folders_ciphers@[j]).folder_uuid@ == folder@
                    && t.folders_ciphers@[j].cipher_uuid@ == cipher@),
        decreases t.folders_ciphers@.len() - i,
    {
        let record = &t.folders_ciphers[i];
        if record.folder_uuid == *folder && record.cipher_uuid == *cipher {
            return true;
        }
        i = i + 1;
    }
    false
}

/// The changes that update the revisions of users.
fn revision_updates(users: &Vec<UserId>) -> (steps: Vec<Step>)
    ensures
        steps@ == revision_steps(users@),
{
    let mut steps: Vec<Step> = Vec::new();
    let mut i: usize = 0;
    while i < users.len()
        invariant
            i <= users@.len(),
            steps@.len() == i,
            forall|j: int| 0 <= j < i ==> #[trigger] steps@[j] == revision_step(users@[j]),
        decreases users@.len() - i,
    {
        steps.push(
            Step {
                action: Action::UpdateRevision(users[i].clone()),
                fallback: None,
                on_failure: OnFailure::Ignore,
            },
        );
        i = i + 1;
    }
    assert(steps@ =~= revision_steps(users@));
    steps
}

/// A change whose failure ends the operation.
fn step(action: Action) -> (step: Step)
    ensures
        step == plain_step(action),
{
    Step { action, fallback: None, on_failure: OnFailure::Pass }
}

/// Adds equal identifiers to a list.
fn add_users(users: &mut Vec<UserId>, more: &Vec<UserId>)
    ensures
        final(users)@ == old(users)@ + more@,
{
    let ghost before = users@;
    let mut i: usize = 0;
    while i < more.len()
        invariant
            i <= more@.len(),
            users@ == before + more@.take(i as int),
        decreases more@.len() - i,
    {
        users.push(more[i].clone());
        assert(more@.take(i + 1) =~= more@.take(i as int).push(more@[i as int]));
        assert(users@ =~= before + more@.take(i + 1));
        i = i + 1;
    }
    assert(more@.take(more@.len() as int) =~= more@);
}

impl Cipher {
    /// The users whose revision a change to this cipher updates, in the order in which that
    /// happens. A user who is concerned in several ways is listed as often.
    pub fn update_users_revision(
        &self,
        concerned: &Concerned,
        org_groups_enabled: bool,
    ) -> (users: Vec<UserId>)
        ensures
            users@ == affected_users(*self, concerned, org_groups_enabled),
    {
        let mut users: Vec<UserId> = Vec::new();
        match &self.user_uuid {
            Some(user) => {
                users.push(user.clone());
                assert(users@ =~= seq![*user]);
            },
            None => if self.organization_uuid.is_some() {
                add_users(&mut users, &concerned.collection_users);
                if org_groups_enabled {
                    add_users(&mut users, &concerned.group_users);
                }
                assert(users@ =~= affected_users(*self, concerned, org_groups_enabled));
            },
        }
        users
    }

    /// Begins to update the revision of the users whom a change to this cipher concerns.
    pub fn revise_users(&self, concerned: &Concerned, org_groups_enabled: bool) -> (run: Run)
        ensures
            run.valid(),
            run.is_fresh(
                revision_steps(affected_users(*self, concerned, org_groups_enabled)),
                None,
            ),
    {
        let users = self.update_users_revision(concerned, org_groups_enabled);
        Run::new(revision_updates(&users), None)
    }

    /// Begins to save this cipher, which is changed at the given time.
    pub fn save_at(
        &mut self,
        time: Timestamp,
        backend: Backend,
        concerned: &Concerned,
        org_groups_enabled: bool,
    ) -> (run: Run)
        ensures
            *final(self) == (Cipher { updated_at: time, ..*old(self) }),
            run.valid(),
            run.is_fresh(
                revision_steps(affected_users(*old(self), concerned, org_groups_enabled)).push(
                    save_step(*final(self), backend),
                ),
                None,
            ),
    {
        let users = self.update_users_revision(concerned, org_groups_enabled);
        let mut steps = revision_updates(&users);
        self.updated_at = time;
        let last = match backend {
            Backend::Postgresql => Step {
                action: Action::UpsertCipher(self.clone()),
                fallback: None,
                on_failure: OnFailure::Say(Complaint::Saving),
            },
            _ => Step {
                action: Action::ReplaceCipher(self.clone()),
                fallback: Some(Action::UpdateCipher(self.clone())),
                on_failure: OnFailure::Say(Complaint::Saving),
            },
        };
        steps.push(last);
        Run::new(steps, None)
    }

    /// Begins to save this cipher, which is changed now.
    pub fn save(
        &mut self,
        backend: Backend,
        concerned: &Concerned,
        org_groups_enabled: bool,
    ) -> (run: Run)
        ensures
            final(self).updated_at.is_reading(),
            *final(self) == (Cipher { updated_at: final(self).updated_at, ..*old(self) }),
            run.valid(),
            run.is_fresh(
                revision_steps(affected_users(*old(self), concerned, org_groups_enabled)).push(
                    save_step(*final(self), backend),
                ),
                None,
            ),
    {
        let time = now();
        self.save_at(time, backend, concerned, org_groups_enabled)
    }

    /// Begins to delete this cipher with all that refers to it.
    pub fn delete(&self, concerned: &Concerned, org_groups_enabled: bool) -> (run: Run)
        ensures
            run.valid(),
            run.is_fresh(
                revision_steps(affected_users(*self, concerned, org_groups_enabled))
                    + delete_steps(self.uuid),
                None,
            ),
    {
        let users = self.update_users_revision(concerned, org_groups_enabled);
        let mut steps = revision_updates(&users);
        steps.push(step(Action::DeleteFolderLinks(self.uuid.clone())));
        steps.push(step(Action::DeleteCollectionLinks(self.uuid.clone())));
        steps.push(step(Action::DeleteAttachments(self.uuid.clone())));
        steps.push(step(Action::DeleteFavorites(self.uuid.clone())));
        steps.push(
            Step {
                action: Action::DeleteCipher(self.uuid.clone()),
                fallback: None,
                on_failure: OnFailure::Say(Complaint::Deleting),
            },
        );
        assert(steps@ =~= revision_steps(users@) + delete_steps(self.uuid));
        Run::new(steps, None)
    }

    /// Begins to delete all ciphers of the organization. The first that cannot be deleted ends
    /// the sweep.
    pub fn delete_all_by_organization(org_uuid: &OrganizationId, tables: &Tables) -> (sweep:
        Sweep)
        ensures
            sweep.valid(),
            sweep.is_fresh(selected(tables, Criterion::Org(org_uuid)), false),
    {
        Sweep::new(Cipher::find_by_org(org_uuid, tables), false)
    }

    /// Begins to delete all ciphers that the user owns directly. The first that cannot be
    /// deleted ends the sweep.
    pub fn delete_all_by_user(user_uuid: &UserId, tables: &Tables) -> (sweep: Sweep)
        ensures
            sweep.valid(),
            sweep.is_fresh(selected(tables, Criterion::UserAlone(user_uuid)), false),
    {
        Sweep::new(Cipher::find_owned_by_user(user_uuid, tables), false)
    }

    /// Begins to purge all ciphers that were deleted before a point in time. One that cannot be
    /// deleted is passed over.
    pub fn purge_before(cutoff: &Timestamp, tables: &Tables) -> (sweep: Sweep)
        ensures
            sweep.valid(),
            sweep.is_fresh(selected(tables, Criterion::DeletedBefore(cutoff)), true),
    {
        Sweep::new(Cipher::find_deleted_before(cutoff, tables), true)
    }

    /// Begins to purge all ciphers that at the given time are old enough to be auto-deleted.
    pub fn purge_trash_at(
        time: Timestamp,
        trash_auto_delete_days: Option<i64>,
        tables: &Tables,
    ) -> (sweep: Sweep)
        requires
            time.is_reading(),
            trash_auto_delete_days matches Some(days) ==> days_before_spec(time, days) is Some,
        ensures
            sweep.valid(),
            match trash_auto_delete_days {
                Some(days) => sweep.is_fresh(
                    selected(tables, Criterion::DeletedBefore(&days_before_spec(time, days)->0)),
                    true,
                ),
                None => sweep.is_fresh(Seq::empty(), true),
            },
    {
        match trash_auto_delete_days {
            Some(days) => match days_before(time, days) {
                Some(cutoff) => Cipher::purge_before(&cutoff, tables),
                None => {
                    assert(false);
                    Sweep::new(Vec::new(), true)
                },
            },
            None => Sweep::new(Vec::new(), true),
        }
    }

    /// Begins to purge all ciphers that are old enough to be auto-deleted. There is no sweep
    /// where the calendar does not reach back that many days.
    pub fn purge_trash(trash_auto_delete_days: Option<i64>, tables: &Tables) -> (sweep: Option<
        Sweep,
    >)
        ensures
            match trash_auto_delete_days {
                Some(days) => exists|time: Timestamp| #[trigger]
                    time.is_reading() && purges(tables, time, days, sweep),
                None => sweep is Some && sweep->0.is_fresh(Seq::empty(), true),
            },
            sweep matches Some(sweep) ==> sweep.valid(),
    {
        let time = now();
        match trash_auto_delete_days {
            Some(days) => match days_before(time, days) {
                Some(_) => Some(Cipher::purge_trash_at(time, Some(days), tables)),
                None => None,
            },
            None => Some(Sweep::new(Vec::new(), true)),
        }
    }

    /// Begins to move this cipher, which is in the user's folder `old_folder`, to another
    /// folder of the user, or out of it. `is_linked` is whether the record of the old folder
    /// was found.
    pub fn move_between(
        &self,
        old_folder: Option<FolderId>,
        new_folder: Option<FolderId>,
        is_linked: bool,
        user_uuid: &UserId,
    ) -> (run: Run)
        ensures
            run.valid(),
            run.is_fresh(
                seq![revision_step(*user_uuid)] + move_steps(
                    self.uuid,
                    old_folder,
                    new_folder,
                    is_linked,
                ),
                move_verdict(old_folder, new_folder, is_linked),
            ),
    {
        let mut steps: Vec<Step> = Vec::new();
        steps.push(
            Step {
                action: Action::UpdateRevision(user_uuid.clone()),
                fallback: None,
                on_failure: OnFailure::Ignore,
            },
        );
        let ghost expected = seq![revision_step(*user_uuid)] + move_steps(
            self.uuid,
            old_folder,
            new_folder,
            is_linked,
        );
        match (old_folder, new_folder) {
            // No changes
            (None, None) => {
                assert(steps@ =~= expected);
                Run::new(steps, None)
            },
            // Add to folder
            (None, Some(to)) => {
                steps.push(step(Action::SaveFolderLink(to, self.uuid.clone())));
                assert(steps@ =~= expected);
                Run::new(steps, None)
            },
            // Remove from folder
            (Some(from), None) => {
                if is_linked {
                    steps.push(step(Action::DeleteFolderLink(from, self.uuid.clone())));
                    assert(steps@ =~= expected);
                    Run::new(steps, None)
                } else {
                    assert(steps@ =~= expected);
                    Run::new(steps, Some(Complaint::LostFolder))
                }
            },
            // Move to another folder
            (Some(from), Some(to)) => {
                if !(from == to) {
                    if is_linked {
                        steps.push(step(Action::DeleteFolderLink(from, self.uuid.clone())));
                    }
                    steps.push(step(Action::SaveFolderLink(to, self.uuid.clone())));
                }
                assert(steps@ =~= expected);
                Run::new(steps, None)
            },
        }
    }

    /// Begins to move this cipher to a folder of the user, or out of its folder.
    pub fn move_to_folder(
        &self,
        folder_uuid: Option<FolderId>,
        user_uuid: &UserId,
        tables: &Tables,
    ) -> (run: Run)
        ensures
            run.valid(),
            ({
                let old_folder = folder_of(tables, user_uuid@, self.uuid@);
                let is_linked = old_folder matches Some(from) && is_filed(
                    tables,
                    from@,
                    self.uuid@,
                );
                run.is_fresh(
                    seq![revision_step(*user_uuid)] + move_steps(
                        self.uuid,
                        old_folder,
                        folder_uuid,
                        is_linked,
                    ),
                    move_verdict(old_folder, folder_uuid, is_linked),
                )
            }),
    {
        let old_folder = self.get_folder_uuid(user_uuid, tables);
        let is_linked = match &old_folder {
            Some(from) => has_filing(tables, from, &self.uuid),
            None => false,
        };
        self.move_between(old_folder, folder_uuid, is_linked, user_uuid)
    }

    /// Begins to set whether this cipher is a favorite of the specified user.
    pub fn set_favorite(&self, favorite: Option<bool>, user_uuid: &UserId) -> (run: Run)
        ensures
            run.valid(),
            run.is_fresh(
                match favorite {
                    Some(status) => seq![
                        plain_step(Action::SetFavorite(status, self.uuid, *user_uuid)),
                    ],
                    None => Seq::empty(),
                },
                None,
            ),
    {
        let mut steps: Vec<Step> = Vec::new();
        match favorite {
            // No change requested.
            None => {},
            Some(status) => {
                steps.push(
                    step(Action::SetFavorite(status, self.uuid.clone(), user_uuid.clone())),
                );
                assert(steps@ =~= seq![
                    plain_step(Action::SetFavorite(status, self.uuid, *user_uuid)),
                ]);
            },
        }
        Run::new(steps, None)
    }
}

} // verus!
