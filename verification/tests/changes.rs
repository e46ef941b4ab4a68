use vault_cipher::actions::Action;
use vault_cipher::changes::{Backend, Concerned};
use vault_cipher::cipher::Cipher;
use vault_cipher::dates::Timestamp;
use vault_cipher::error::{Detail, Error};
use vault_cipher::ids::{
    AttachmentId, CipherId, CollectionId, FolderId, OrganizationId, UserId,
};
use vault_cipher::runs::{Failure, Run, Sweep};
use vault_cipher::tables::{
    Attachment, CollectionCipher, Favorite, Folder, FolderCipher, Tables,
};

fn user(name: &str) -> UserId {
    UserId(name.to_string())
}

fn cipher(uuid: &str, owner: Option<&str>, org: Option<&str>) -> Cipher {
    let time = Timestamp { secs: 10, nanos: 0 };
    let mut cipher = Cipher::new_at(CipherId(uuid.to_string()), time, 1, "name".to_string());
    cipher.user_uuid = owner.map(user);
    cipher.organization_uuid = org.map(|org| OrganizationId(org.to_string()));
    cipher
}

fn filing(cipher: &str, folder: &str) -> FolderCipher {
    FolderCipher {
        cipher_uuid: CipherId(cipher.to_string()),
        folder_uuid: FolderId(folder.to_string()),
    }
}

fn vault() -> Tables {
    let mut tables = Tables {
        ciphers: vec![cipher("a", Some("ann"), None), cipher("b", None, Some("org"))],
        ciphers_collections: Vec::new(),
        users_organizations: Vec::new(),
        users_collections: Vec::new(),
        groups_users: Vec::new(),
        groups: Vec::new(),
        collections_groups: Vec::new(),
        collections: Vec::new(),
        folders: vec![
            Folder { uuid: FolderId("f1".to_string()), user_uuid: user("ann") },
            Folder { uuid: FolderId("f2".to_string()), user_uuid: user("ann") },
            Folder { uuid: FolderId("g1".to_string()), user_uuid: user("bob") },
        ],
        folders_ciphers: vec![filing("a", "f1"), filing("a", "g1"), filing("b", "f1")],
        favorites: Vec::new(),
        attachments: Vec::new(),
    };
    for uuid in ["a", "b"] {
        tables.ciphers_collections.push(CollectionCipher {
            cipher_uuid: CipherId(uuid.to_string()),
            collection_uuid: CollectionId("red".to_string()),
        });
        tables.attachments.push(Attachment {
            id: AttachmentId(format!("att-{}", uuid)),
            cipher_uuid: CipherId(uuid.to_string()),
        });
        tables
            .favorites
            .push(Favorite { user_uuid: user("bob"), cipher_uuid: CipherId(uuid.to_string()) });
    }
    tables
}

fn nobody() -> Concerned {
    Concerned { collection_users: Vec::new(), group_users: Vec::new() }
}

fn error(message: &str) -> Error {
    Error { message: message.to_string(), detail: Detail::Cause("why".to_string()) }
}

fn name(action: &Action) -> String {
    match action {
        Action::UpdateRevision(user) => format!("revision {}", user.0),
        Action::ReplaceCipher(cipher) => format!("replace {}", cipher.uuid.0),
        Action::UpdateCipher(cipher) => format!("update {}", cipher.uuid.0),
        Action::UpsertCipher(cipher) => format!("upsert {}", cipher.uuid.0),
        Action::DeleteFolderLinks(uuid) => format!("unfile {}", uuid.0),
        Action::DeleteCollectionLinks(uuid) => format!("unlink {}", uuid.0),
        Action::DeleteAttachments(uuid) => format!("detach {}", uuid.0),
        Action::DeleteFavorites(uuid) => format!("unmark {}", uuid.0),
        Action::DeleteCipher(uuid) => format!("delete {}", uuid.0),
        Action::SaveFolderLink(folder, uuid) => format!("file {} {}", folder.0, uuid.0),
        Action::DeleteFolderLink(folder, uuid) => format!("remove {} {}", folder.0, uuid.0),
        Action::SetFavorite(status, uuid, user) => format!("mark {} {} {}", status, uuid.0, user.0),
    }
}

/// Runs an operation on the tables; changes of the given names fail.
fn carry_out(
    mut run: Run,
    tables: &mut Tables,
    failing: &[(&str, bool)],
) -> (Result<(), Error>, Vec<String>) {
    let mut names = Vec::new();
    loop {
        let outcome = match run.next() {
            None => break,
            Some(action) => {
                let called = name(action);
                let failure = failing.iter().find(|(failing, _)| *failing == called);
                names.push(called);
                match failure {
                    Some((_, true)) => Err(Failure::ForeignKeyViolation(error("violated"))),
                    Some((_, false)) => Err(Failure::Other(error("broken"))),
                    None => {
                        action.apply(tables);
                        Ok(())
                    }
                }
            }
        };
        run.report(outcome);
    }
    (run.finish(), names)
}

fn folder(name: &str) -> Option<FolderId> {
    Some(FolderId(name.to_string()))
}

#[test]
fn affected_users_are_the_owner_or_the_members() {
    let concerned = Concerned {
        collection_users: vec![user("x"), user("y")],
        group_users: vec![user("y"), user("z")],
    };
    let names = |cipher: &Cipher, groups: bool| {
        cipher
            .update_users_revision(&concerned, groups)
            .into_iter()
            .map(|user| user.0)
            .collect::<Vec<_>>()
            .join(" ")
    };
    assert_eq!(names(&cipher("a", Some("ann"), Some("org")), true), "ann");
    assert_eq!(names(&cipher("a", None, Some("org")), false), "x y");
    assert_eq!(names(&cipher("a", None, Some("org")), true), "x y y z");
    assert_eq!(names(&cipher("a", None, None), true), "");
}

#[test]
fn revisions_are_updated_one_by_one() {
    let concerned = Concerned {
        collection_users: vec![user("x"), user("y")],
        group_users: vec![user("z")],
    };
    let run = cipher("b", None, Some("org")).revise_users(&concerned, true);
    let (result, names) = carry_out(run, &mut vault(), &[("revision y", false)]);
    assert!(result.is_ok());
    assert_eq!(names.join(", "), "revision x, revision y, revision z");
}

#[test]
fn saved_ciphers_are_found() {
    for backend in [Backend::Sqlite, Backend::Mysql, Backend::Postgresql] {
        for uuid in ["a", "new"] {
            let mut tables = vault();
            let mut changed = cipher(uuid, Some("ann"), None);
            changed.name = "changed".to_string();
            let time = Timestamp { secs: 77, nanos: 1 };
            let run = changed.save_at(time, backend, &nobody(), false);
            assert_eq!(changed.updated_at, time);
            let (result, _) = carry_out(run, &mut tables, &[]);
            assert!(result.is_ok());
            let found = Cipher::find_by_uuid(&CipherId(uuid.to_string()), &tables).unwrap();
            assert_eq!(found.name, "changed");
            assert_eq!(found.updated_at, time);
            assert_eq!(tables.ciphers.len(), if uuid == "a" { 2 } else { 3 });
            assert_eq!(tables.folders_ciphers.len(), 3);
        }
    }
}

#[test]
fn saving_reads_the_clock() {
    let mut changed = cipher("a", Some("ann"), None);
    let run = changed.save(Backend::Sqlite, &nobody(), false);
    assert!(changed.updated_at.secs > 1_600_000_000);
    let (result, names) = carry_out(run, &mut vault(), &[]);
    assert!(result.is_ok());
    assert_eq!(names, vec!["revision ann".to_string(), "replace a".to_string()]);
}

#[test]
fn violated_key_falls_back_to_an_update() {
    let mut tables = vault();
    let mut changed = cipher("a", Some("ann"), None);
    changed.name = "changed".to_string();
    let time = Timestamp { secs: 77, nanos: 1 };
    let run = changed.save_at(time, Backend::Mysql, &nobody(), false);
    let (result, names) = carry_out(run, &mut tables, &[("replace a", true)]);
    assert!(result.is_ok());
    assert_eq!(names.join(", "), "revision ann, replace a, update a");
    assert_eq!(
        Cipher::find_by_uuid(&CipherId("a".to_string()), &tables).unwrap().name,
        "changed"
    );
}

#[test]
fn failed_saves_say_so() {
    let time = Timestamp { secs: 77, nanos: 1 };
    let mut changed = cipher("a", Some("ann"), None);
    let run = changed.save_at(time, Backend::Sqlite, &nobody(), false);
    let (result, names) = carry_out(run, &mut vault(), &[("replace a", false)]);
    let error = result.unwrap_err();
    assert_eq!(error.message, "Error saving cipher");
    assert!(matches!(error.detail, Detail::Cause(cause) if cause == "why"));
    assert_eq!(names.join(", "), "revision ann, replace a");
    let run = changed.save_at(time, Backend::Sqlite, &nobody(), false);
    let failing = [("replace a", true), ("update a", true)];
    let (result, _) = carry_out(run, &mut vault(), &failing);
    assert_eq!(result.unwrap_err().message, "Error saving cipher");
    let run = changed.save_at(time, Backend::Postgresql, &nobody(), false);
    let (result, names) = carry_out(run, &mut vault(), &[("upsert a", true)]);
    assert_eq!(result.unwrap_err().message, "Error saving cipher");
    assert_eq!(names.join(", "), "revision ann, upsert a");
}

#[test]
fn failed_revisions_do_not_matter() {
    let mut tables = vault();
    let run = cipher("a", Some("ann"), None).delete(&nobody(), false);
    let (result, _) = carry_out(run, &mut tables, &[("revision ann", false)]);
    assert!(result.is_ok());
    assert_eq!(tables.ciphers.len(), 1);
}

#[test]
fn deleting_removes_all_that_refers_to_a_cipher() {
    let mut tables = vault();
    let run = cipher("a", Some("ann"), None).delete(&nobody(), false);
    let (result, names) = carry_out(run, &mut tables, &[]);
    assert!(result.is_ok());
    assert_eq!(names.join(", "), "revision ann, unfile a, unlink a, detach a, unmark a, delete a");
    assert!(Cipher::find_by_uuid(&CipherId("a".to_string()), &tables).is_none());
    assert!(Cipher::find_by_uuid(&CipherId("b".to_string()), &tables).is_some());
    assert_eq!(tables.folders_ciphers.len(), 1);
    assert_eq!(tables.ciphers_collections.len(), 1);
    assert_eq!(tables.attachments.len(), 1);
    assert_eq!(tables.attachments[0].id.0, "att-b");
    assert_eq!(tables.favorites.len(), 1);
}

#[test]
fn deleting_stops_at_the_first_error() {
    let doomed = cipher("a", Some("ann"), None);
    let mut tables = vault();
    let run = doomed.delete(&nobody(), false);
    let (result, names) = carry_out(run, &mut tables, &[("unlink a", false)]);
    assert_eq!(result.unwrap_err().message, "broken");
    assert_eq!(names.join(", "), "revision ann, unfile a, unlink a");
    assert_eq!(tables.ciphers.len(), 2);
    let run = doomed.delete(&nobody(), false);
    let (result, _) = carry_out(run, &mut tables, &[("delete a", false)]);
    assert_eq!(result.unwrap_err().message, "Error deleting cipher");
}

fn sweep_all(mut sweep: Sweep, tables: &mut Tables, failing: &[(&str, bool)]) -> Result<(), Error> {
    loop {
        let outcome = match sweep.next() {
            None => break,
            Some(cipher) => carry_out(cipher.delete(&nobody(), false), tables, failing).0,
        };
        sweep.report(outcome);
    }
    sweep.finish()
}

#[test]
fn organizations_are_swept_until_an_error() {
    let org = OrganizationId("org".to_string());
    let mut tables = vault();
    tables.ciphers.push(cipher("c", None, Some("org")));
    let sweep = Cipher::delete_all_by_organization(&org, &tables);
    let error = sweep_all(sweep, &mut tables, &[("delete b", false)]).unwrap_err();
    assert_eq!(error.message, "Error deleting cipher");
    assert_eq!(Cipher::count_by_org(&org, &tables), 2);
    let sweep = Cipher::delete_all_by_organization(&org, &tables);
    assert!(sweep_all(sweep, &mut tables, &[]).is_ok());
    assert_eq!(Cipher::count_by_org(&org, &tables), 0);
    assert_eq!(tables.ciphers.len(), 1);
}

#[test]
fn users_are_swept_without_their_shared_ciphers() {
    let mut tables = vault();
    tables.ciphers.push(cipher("c", Some("ann"), Some("org")));
    let sweep = Cipher::delete_all_by_user(&user("ann"), &tables);
    assert!(sweep_all(sweep, &mut tables, &[]).is_ok());
    let left: Vec<String> = tables.ciphers.iter().map(|cipher| cipher.uuid.0.clone()).collect();
    assert_eq!(left, vec!["b".to_string(), "c".to_string()]);
}

#[test]
fn purging_passes_over_what_cannot_be_deleted() {
    let day = 86_400;
    let now = Timestamp { secs: 100 * day, nanos: 7 };
    let mut tables = vault();
    tables.ciphers.push(cipher("c", None, None));
    tables.ciphers[0].deleted_at = Some(Timestamp { secs: 70 * day, nanos: 6 });
    tables.ciphers[1].deleted_at = Some(Timestamp { secs: 70 * day, nanos: 7 });
    tables.ciphers[2].deleted_at = Some(Timestamp { secs: 3, nanos: 0 });
    let sweep = Cipher::purge_trash_at(now, None, &tables);
    assert!(sweep.next().is_none());
    let sweep = Cipher::purge_trash_at(now, Some(30), &tables);
    assert_eq!(sweep.ciphers.len(), 2);
    assert!(sweep_all(sweep, &mut tables, &[("delete a", false)]).is_ok());
    let left: Vec<String> = tables.ciphers.iter().map(|cipher| cipher.uuid.0.clone()).collect();
    assert_eq!(left, vec!["a".to_string(), "b".to_string()]);
}

#[test]
fn purging_goes_by_the_clock() {
    let mut tables = vault();
    tables.ciphers[0].deleted_at = Some(Timestamp { secs: 3, nanos: 0 });
    tables.ciphers[1].deleted_at = Some(Timestamp { secs: 8_000_000_000_000, nanos: 0 });
    let sweep = Cipher::purge_trash(Some(30), &tables).unwrap();
    assert_eq!(sweep.ciphers.len(), 1);
    assert_eq!(sweep.ciphers[0].uuid.0, "a");
    assert!(Cipher::purge_trash(None, &tables).unwrap().next().is_none());
    assert!(Cipher::purge_trash(Some(i64::MAX), &tables).is_none());
    assert!(Cipher::purge_trash(Some(96_465_291), &tables).is_some());
}

#[test]
fn moved_ciphers_are_in_the_folder() {
    let a = cipher("a", Some("ann"), None);
    for target in [None, folder("f1"), folder("f2")] {
        let mut tables = vault();
        let wanted = target.as_ref().map(|folder| folder.0.clone());
        let run = a.move_to_folder(target, &user("ann"), &tables);
        let (result, _) = carry_out(run, &mut tables, &[]);
        assert!(result.is_ok());
        let now_in = a.get_folder_uuid(&user("ann"), &tables).map(|folder| folder.0);
        assert_eq!(now_in, wanted);
        assert_eq!(a.get_folder_uuid(&user("bob"), &tables).unwrap().0, "g1");
        let b = cipher("b", None, Some("org"));
        assert_eq!(b.get_folder_uuid(&user("ann"), &tables).unwrap().0, "f1");
    }
}

#[test]
fn moves_take_the_steps_they_need() {
    let a = cipher("a", Some("ann"), None);
    let steps = |old: Option<FolderId>, new: Option<FolderId>, is_linked: bool| {
        let run = a.move_between(old, new, is_linked, &user("ann"));
        let (result, names) = carry_out(run, &mut vault(), &[]);
        (result.map_err(|error| error.message), names.join(", "))
    };
    assert_eq!(steps(None, None, false), (Ok(()), "revision ann".to_string()));
    assert_eq!(steps(folder("x"), folder("x"), true), (Ok(()), "revision ann".to_string()));
    assert_eq!(steps(None, folder("x"), false), (Ok(()), "revision ann, file x a".to_string()));
    assert_eq!(
        steps(folder("x"), None, true),
        (Ok(()), "revision ann, remove x a".to_string())
    );
    assert_eq!(
        steps(folder("x"), None, false),
        (Err("Couldn't move from previous folder".to_string()), "revision ann".to_string())
    );
    assert_eq!(
        steps(folder("x"), folder("y"), true),
        (Ok(()), "revision ann, remove x a, file y a".to_string())
    );
    assert_eq!(
        steps(folder("x"), folder("y"), false),
        (Ok(()), "revision ann, file y a".to_string())
    );
}

#[test]
fn failed_move_does_not_go_on() {
    let a = cipher("a", Some("ann"), None);
    let mut tables = vault();
    let run = a.move_to_folder(folder("f2"), &user("ann"), &tables);
    let (result, names) = carry_out(run, &mut tables, &[("remove f1 a", false)]);
    assert_eq!(result.unwrap_err().message, "broken");
    assert_eq!(names.join(", "), "revision ann, remove f1 a");
    assert_eq!(a.get_folder_uuid(&user("ann"), &tables).unwrap().0, "f1");
}

#[test]
fn favorites_are_set_as_asked() {
    let a = cipher("a", Some("ann"), None);
    let mut tables = vault();
    let (result, names) = carry_out(a.set_favorite(None, &user("ann")), &mut tables, &[]);
    assert!(result.is_ok());
    assert_eq!(names.len(), 0);
    assert!(!a.is_favorite(&user("ann"), &tables));
    for status in [true, true, false, false, true] {
        let run = a.set_favorite(Some(status), &user("ann"));
        let (result, names) = carry_out(run, &mut tables, &[]);
        assert!(result.is_ok());
        assert_eq!(names, vec![format!("mark {} a ann", status)]);
        assert_eq!(a.is_favorite(&user("ann"), &tables), status);
        assert!(a.is_favorite(&user("bob"), &tables));
    }
    let run = a.set_favorite(Some(false), &user("ann"));
    let (result, _) = carry_out(run, &mut tables, &[("mark false a ann", false)]);
    assert_eq!(result.unwrap_err().message, "broken");
}
