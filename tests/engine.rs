use ocean_drive::errors::DriveError;
use ocean_drive::google_drive::{Client, Session};
use ocean_drive::local::{
    content_hash, copy_path_now, file_collision, forget_path, plan_file_upload, plan_file_upload_hashed, plan_rename,
    record_remote, Collision, RenamePlan, UploadPlan,
};
use ocean_drive::paths::timestamped_copy_name;
use ocean_drive::remote::{folder_unchanged, reconcile_children, ChildAction};
use ocean_drive::sync::{after_cycle, after_refresh, CycleStep};
use ocean_drive::types::{File, FOLDER_MIME_TYPE};
use ocean_drive::versions::{Version, Versions, VersionsList};

const ROOT: &str = "/home/u/ocean";
const ROOT_ID: &str = "root";
const HI_MD5: &str = "49f68a5c8493ec2c0bf489821c21fc3b";

fn s(x: &str) -> String {
    x.to_string()
}

fn folder(id: &str, name: &str, version: &str) -> File {
    File {
        id: Some(s(id)),
        name: Some(s(name)),
        trashed: Some(false),
        mime_type: Some(s(FOLDER_MIME_TYPE)),
        md5: None,
        version: Some(s(version)),
        parents: None,
    }
}

fn file(id: &str, name: &str, version: &str, md5: &str) -> File {
    File {
        id: Some(s(id)),
        name: Some(s(name)),
        trashed: Some(false),
        mime_type: Some(s("text/plain")),
        md5: Some(s(md5)),
        version: Some(s(version)),
        parents: None,
    }
}

/// State after the first cycle over a remote holding `docs/a.txt`.
fn fresh_state() -> (VersionsList, Vec<ChildAction>, Vec<ChildAction>) {
    let mut list = VersionsList::new();
    let top = reconcile_children(&mut list, &s(ROOT_ID), &s(ROOT), &vec![folder("d1", "docs", "1")]);
    let below = reconcile_children(
        &mut list,
        &s("d1"),
        &s("/home/u/ocean/docs"),
        &vec![file("a1", "a.txt", "1", HI_MD5)],
    );
    (list, top, below)
}

#[test]
fn fresh_remote_empty_local() {
    let (list, top, below) = fresh_state();
    match &top[0] {
        ChildAction::SyncFolder { id, path, rename_from } => {
            assert_eq!(id, "d1");
            assert_eq!(path, "/home/u/ocean/docs");
            assert!(rename_from.is_none());
        }
        other => panic!("unexpected {:?}", other),
    }
    match &below[0] {
        ChildAction::SyncFile { id, path, download, rename_from } => {
            assert_eq!(id, "a1");
            assert_eq!(path, "/home/u/ocean/docs/a.txt");
            assert!(*download);
            assert!(rename_from.is_none());
        }
        other => panic!("unexpected {:?}", other),
    }
    assert_eq!(list.entries().len(), 2);
    let d = list.get(&s("d1")).unwrap();
    assert!(d.is_folder);
    assert_eq!(d.md5, None);
    assert_eq!(d.parent_id, ROOT_ID);
    let a = list.get(&s("a1")).unwrap();
    assert!(!a.is_folder);
    assert_eq!(a.md5.as_deref(), Some(HI_MD5));
    assert_eq!(a.parent_id, "d1");
    assert_eq!(content_hash(&b"hi".to_vec()), HI_MD5);
}

#[test]
fn remote_rename_of_folder() {
    let (mut list, _, _) = fresh_state();
    let top = reconcile_children(&mut list, &s(ROOT_ID), &s(ROOT), &vec![folder("d1", "notes", "2")]);
    match &top[0] {
        ChildAction::SyncFolder { path, rename_from, .. } => {
            assert_eq!(path, "/home/u/ocean/notes");
            assert_eq!(rename_from.as_deref(), Some("/home/u/ocean/docs"));
        }
        other => panic!("unexpected {:?}", other),
    }
    let below = reconcile_children(
        &mut list,
        &s("d1"),
        &s("/home/u/ocean/notes"),
        &vec![file("a1", "a.txt", "1", HI_MD5)],
    );
    assert!(matches!(below[0], ChildAction::Nothing));
    let a = list.get(&s("a1")).unwrap();
    assert_eq!(a.path, "/home/u/ocean/notes/a.txt");
    assert_eq!(a.md5.as_deref(), Some(HI_MD5));
}

#[test]
fn local_create_collides_with_remote() {
    let mut list = VersionsList::new();
    reconcile_children(&mut list, &s(ROOT_ID), &s(ROOT), &vec![]);
    let notes = Version {
        is_folder: true,
        parent_id: s(ROOT_ID),
        version: s("3"),
        path: s("/home/u/ocean/notes"),
        md5: None,
    };
    list.insert(s("n1"), notes);
    let local_bytes = b"local".to_vec();
    let remote_md5 = content_hash(&b"remote".to_vec());
    let (plan, hash) = plan_file_upload(
        &list,
        &s("/home/u/ocean/notes/b.txt"),
        &s("/home/u/ocean/notes"),
        &s(ROOT_ID),
        &local_bytes,
    );
    match &plan {
        UploadPlan::Upload { name, parent_id, prior_id } => {
            assert_eq!(name, "b.txt");
            assert_eq!(parent_id, "n1");
            assert!(prior_id.is_none());
        }
        other => panic!("unexpected {:?}", other),
    }
    let remote = Some(file("b1", "b.txt", "1", &remote_md5));
    assert_eq!(file_collision(&remote, &hash, &None), Collision::CopyFirst);
    let copy = timestamped_copy_name("/home/u/ocean/notes/b.txt", "[01.02.03 04:05:06] ").unwrap();
    assert_eq!(copy, "/home/u/ocean/notes/[01.02.03 04:05:06] b.txt");
    let now = copy_path_now(&s("/home/u/ocean/notes/b.txt")).unwrap();
    assert!(now.starts_with("/home/u/ocean/notes/["));
    assert!(now.ends_with("] b.txt"));
    assert_eq!(now.len(), "/home/u/ocean/notes/".len() + 20 + "b.txt".len());
    // The next remote walk brings the untouched remote file to the old name.
    let below = reconcile_children(&mut list, &s("n1"), &s("/home/u/ocean/notes"), &vec![file("b1", "b.txt", "1", &remote_md5)]);
    match &below[0] {
        ChildAction::SyncFile { path, download, .. } => {
            assert_eq!(path, "/home/u/ocean/notes/b.txt");
            assert!(*download);
        }
        other => panic!("unexpected {:?}", other),
    }
}

#[test]
fn local_delete() {
    let (mut list, _, _) = fresh_state();
    let id = forget_path(&mut list, &s("/home/u/ocean/docs/a.txt"));
    assert_eq!(id.as_deref(), Some("a1"));
    assert!(!list.contains(&s("a1")));
    assert!(list.contains(&s("d1")));
    assert_eq!(forget_path(&mut list, &s("/home/u/ocean/docs/a.txt")), None);
}

#[test]
fn local_rename_across_parents() {
    let (mut list, _, _) = fresh_state();
    list.insert(
        s("o1"),
        Version { is_folder: true, parent_id: s(ROOT_ID), version: s("1"), path: s("/home/u/ocean/other"), md5: None },
    );
    let plan = plan_rename(
        &mut list,
        &s(ROOT),
        &s("/home/u/ocean/docs/a.txt"),
        &s("/home/u/ocean/other/a.txt"),
        &s("/home/u/ocean/other"),
        &s(ROOT_ID),
    );
    let (id, parent_id, is_folder) = match plan {
        RenamePlan::Rename { id, name, parent_id, is_folder } => {
            assert_eq!(name, "a.txt");
            (id, parent_id, is_folder)
        }
        other => panic!("unexpected {:?}", other),
    };
    assert_eq!(id, "a1");
    assert_eq!(parent_id, "o1");
    assert!(!list.contains(&s("a1")));
    let updated = file("a1", "a.txt", "7", HI_MD5);
    assert!(record_remote(&mut list, &None, &updated, &s("/home/u/ocean/other/a.txt"), &parent_id, is_folder));
    let a = list.get(&s("a1")).unwrap();
    assert_eq!(a.path, "/home/u/ocean/other/a.txt");
    assert_eq!(a.version, "7");
    assert_eq!(a.parent_id, "o1");
}

#[test]
fn token_expiry_mid_cycle() {
    assert_eq!(after_cycle(&Err(DriveError::Unauthorized)), CycleStep::Refresh);
    let mut client = Client::new(s("id"), s("secret"), s("http://localhost:8080"));
    assert_eq!(client.access_token().unwrap_err(), DriveError::Unauthorized);
    client.set_session(Session { access_token: s("old"), refresh_token: Some(s("rt")) });
    let rt = client.refresh_token_to_send().unwrap();
    assert_eq!(rt, "rt");
    let new = client.accept_refreshed(Session { access_token: s("fresh"), refresh_token: None }, rt);
    assert_eq!(new.access_token, "fresh");
    assert_eq!(new.refresh_token.as_deref(), Some("rt"));
    assert_eq!(client.access_token().unwrap(), "fresh");
    assert_eq!(after_refresh(true), CycleStep::Skip);
    assert_eq!(after_cycle(&Ok(())), CycleStep::Save);
}

#[test]
fn refresh_failure_is_fatal() {
    assert_eq!(after_refresh(false), CycleStep::Fatal);
    let mut client = Client::new(s("id"), s("secret"), s("r"));
    client.set_session(Session { access_token: s("a"), refresh_token: None });
    assert_eq!(client.refresh_token_to_send().unwrap_err(), DriveError::Unauthorized);
    assert_eq!(after_cycle(&Err(DriveError::Transport)), CycleStep::Skip);
}

#[test]
fn second_walk_over_unchanged_remote_does_nothing() {
    let (mut list, _, _) = fresh_state();
    let before = list.entries().len();
    let top = reconcile_children(&mut list, &s(ROOT_ID), &s(ROOT), &vec![folder("d1", "docs", "1")]);
    let below = reconcile_children(&mut list, &s("d1"), &s("/home/u/ocean/docs"), &vec![file("a1", "a.txt", "1", HI_MD5)]);
    assert!(matches!(top[0], ChildAction::Nothing));
    assert!(matches!(below[0], ChildAction::Nothing));
    assert_eq!(list.entries().len(), before);
    assert!(folder_unchanged(&list, &s("d1"), &folder("d1", "docs", "1")));
    assert!(!folder_unchanged(&list, &s("d1"), &folder("d1", "docs", "2")));
}

#[test]
fn trashed_remote_file_is_removed() {
    let (mut list, _, _) = fresh_state();
    let mut gone = file("a1", "a.txt", "2", HI_MD5);
    gone.trashed = Some(true);
    let below = reconcile_children(&mut list, &s("d1"), &s("/home/u/ocean/docs"), &vec![gone]);
    match &below[0] {
        ChildAction::RemoveLocal { path, is_folder } => {
            assert_eq!(path, "/home/u/ocean/docs/a.txt");
            assert!(!is_folder);
        }
        other => panic!("unexpected {:?}", other),
    }
    assert!(!list.contains(&s("a1")));
}

#[test]
fn rename_out_of_root_is_removal() {
    let (mut list, _, _) = fresh_state();
    let plan = plan_rename(
        &mut list,
        &s(ROOT),
        &s("/home/u/ocean/docs/a.txt"),
        &s("/tmp/a.txt"),
        &s("/tmp"),
        &s(ROOT_ID),
    );
    match plan {
        RenamePlan::Delete { id } => assert_eq!(id.as_deref(), Some("a1")),
        other => panic!("unexpected {:?}", other),
    }
    assert!(!list.contains(&s("a1")));
}

#[test]
fn rename_of_unknown_file_is_creation() {
    let (mut list, _, _) = fresh_state();
    let plan = plan_rename(&mut list, &s(ROOT), &s("/home/u/ocean/x"), &s("/home/u/ocean/y"), &s(ROOT), &s(ROOT_ID));
    assert!(matches!(plan, RenamePlan::Create));
    assert_eq!(list.entries().len(), 2);
}

#[test]
fn write_echo_is_suppressed() {
    let (list, _, _) = fresh_state();
    let plan = plan_file_upload_hashed(
        &list,
        &s("/home/u/ocean/docs/a.txt"),
        &s("/home/u/ocean/docs"),
        &s(ROOT_ID),
        &s(HI_MD5),
    );
    assert!(matches!(plan, UploadPlan::Skip));
    let (plan, _) = plan_file_upload(
        &list,
        &s("/home/u/ocean/docs/a.txt"),
        &s("/home/u/ocean/docs"),
        &s(ROOT_ID),
        &b"changed".to_vec(),
    );
    match plan {
        UploadPlan::Upload { prior_id, parent_id, .. } => {
            assert_eq!(prior_id.as_deref(), Some("a1"));
            assert_eq!(parent_id, "d1");
        }
        other => panic!("unexpected {:?}", other),
    }
}

#[test]
fn collision_outcomes() {
    let hash = s(HI_MD5);
    let same = Some(file("x", "a.txt", "1", HI_MD5));
    assert_eq!(file_collision(&same, &hash, &None), Collision::AlreadyPresent);
    let other = Some(file("x", "a.txt", "1", "ffff"));
    assert_eq!(file_collision(&other, &hash, &Some(s("x"))), Collision::Proceed);
    assert_eq!(file_collision(&None, &hash, &None), Collision::Proceed);
    let mut no_hash = file("x", "a.txt", "1", "ffff");
    no_hash.md5 = None;
    assert_eq!(file_collision(&Some(no_hash.clone()), &hash, &None), Collision::CopyFirst);
    assert_eq!(file_collision(&Some(no_hash), &hash, &Some(s("x"))), Collision::Proceed);
    let mut trashed = file("x", "a.txt", "1", "ffff");
    trashed.trashed = Some(true);
    assert_eq!(file_collision(&Some(trashed), &hash, &None), Collision::Proceed);
}

#[test]
fn empty_document_is_empty_log() {
    let mut v = Versions::new(s("/home/u/.config/ocean-drive/versions.json"));
    let l = v.list("", None);
    assert_eq!(l.entries().len(), 0);
    assert!(!v.is_locked());
    let mut parsed = VersionsList::new();
    parsed.insert(s("k"), Version { is_folder: false, parent_id: s("p"), version: s("1"), path: s("/x"), md5: None });
    let l = v.list("  \n", Some(parsed));
    assert_eq!(l.entries().len(), 0);
    let mut parsed = VersionsList::new();
    parsed.insert(s("k"), Version { is_folder: false, parent_id: s("p"), version: s("1"), path: s("/x"), md5: None });
    let l = v.list("{\"k\":{}}", Some(parsed));
    assert_eq!(l.entries().len(), 1);
    assert!(v.is_locked());
    v.unlock();
    assert!(!v.is_locked());
}

#[test]
fn insert_keeps_paths_unique() {
    let mut l = VersionsList::new();
    l.insert(s("a"), Version { is_folder: false, parent_id: s("p"), version: s("1"), path: s("/x"), md5: None });
    l.insert(s("b"), Version { is_folder: false, parent_id: s("p"), version: s("1"), path: s("/y"), md5: None });
    l.insert(s("c"), Version { is_folder: false, parent_id: s("p"), version: s("1"), path: s("/x"), md5: None });
    assert!(!l.contains(&s("a")));
    assert!(l.contains(&s("b")));
    assert!(l.contains(&s("c")));
    let found = Versions::find_item_by_path(&s("/x"), &l).unwrap();
    assert_eq!(found.0, "c");
    l.remove(&s("b"));
    assert_eq!(l.entries().len(), 1);
    assert!(Versions::find_item_by_path(&s("/y"), &l).is_none());
}

#[test]
fn uploaded_file_is_not_downloaded_back() {
    let mut list = VersionsList::new();
    let bytes = b"hi".to_vec();
    let (plan, hash) = plan_file_upload(&list, &s("/home/u/ocean/a.txt"), &s(ROOT), &s(ROOT_ID), &bytes);
    let parent_id = match plan {
        UploadPlan::Upload { name, parent_id, prior_id } => {
            assert_eq!(name, "a.txt");
            assert!(prior_id.is_none());
            parent_id
        }
        other => panic!("unexpected {:?}", other),
    };
    assert_eq!(parent_id, ROOT_ID);
    let returned = file("a9", "a.txt", "5", &hash);
    assert!(record_remote(&mut list, &None, &returned, &s("/home/u/ocean/a.txt"), &parent_id, false));
    let walk = reconcile_children(&mut list, &s(ROOT_ID), &s(ROOT), &vec![file("a9", "a.txt", "5", &hash)]);
    assert!(matches!(walk[0], ChildAction::Nothing));
    let a = list.get(&s("a9")).unwrap();
    assert_eq!(a.md5.as_deref(), Some(HI_MD5));
    assert_eq!(a.path, "/home/u/ocean/a.txt");
    // A later write of the same bytes is an echo.
    let (again, _) = plan_file_upload(&list, &s("/home/u/ocean/a.txt"), &s(ROOT), &s(ROOT_ID), &bytes);
    assert!(matches!(again, UploadPlan::Skip));
}

#[test]
fn trashed_child_without_name_is_removed() {
    let (mut list, _, _) = fresh_state();
    let mut gone = file("a1", "a.txt", "2", HI_MD5);
    gone.trashed = Some(true);
    gone.name = None;
    let below = reconcile_children(&mut list, &s("d1"), &s("/home/u/ocean/docs"), &vec![gone.clone()]);
    match &below[0] {
        ChildAction::RemoveLocal { path, is_folder } => {
            assert_eq!(path, "/home/u/ocean/docs/a.txt");
            assert!(!is_folder);
        }
        other => panic!("unexpected {:?}", other),
    }
    assert!(!list.contains(&s("a1")));
    let again = reconcile_children(&mut list, &s("d1"), &s("/home/u/ocean/docs"), &vec![gone]);
    assert!(matches!(again[0], ChildAction::Nothing));
    let mut nameless = file("d1", "docs", "9", HI_MD5);
    nameless.name = None;
    let top = reconcile_children(&mut list, &s(ROOT_ID), &s(ROOT), &vec![nameless]);
    assert!(matches!(top[0], ChildAction::Nothing));
    assert!(list.contains(&s("d1")));
}
