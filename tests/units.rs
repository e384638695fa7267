use ocean_drive::errors::DriveError;
use ocean_drive::google_drive::{
    authorization_url_from, by_name_query, children_query, file_body, folder_body, found_or_none, first_match,
    lookup_status_error, name_query, status_error, upload_succeeded, Client,
};
use ocean_drive::local::{copy_path_now, folder_collision, plan_dir_upload, resolve_parent_id, DirPlan};
use ocean_drive::log::{error, info, log_line};
use ocean_drive::parse_url::{get_query, query_pairs, query_value, QueryError};
use ocean_drive::paths::{file_name, is_within, join_path, starts_with_text, timestamped_copy_name};
use ocean_drive::readline::{answer_of, binary_answer, binary_prompt, promt_default};
use ocean_drive::sync::{pick_remote_root, RootError};
use ocean_drive::types::{File, FileList, FOLDER_MIME_TYPE};
use ocean_drive::versions::{blank_document, Version, VersionsList};

fn s(x: &str) -> String {
    x.to_string()
}

fn record(id: Option<&str>, name: &str, mime: &str) -> File {
    File {
        id: id.map(s),
        name: Some(s(name)),
        trashed: Some(false),
        mime_type: Some(s(mime)),
        md5: None,
        version: Some(s("4")),
        parents: None,
    }
}

#[test]
fn join_adds_one_separator() {
    assert_eq!(join_path("/a", "b"), "/a/b");
    assert_eq!(join_path("/a/", "b"), "/a/b");
    assert_eq!(join_path("", "b"), "/b");
}

#[test]
fn within_goes_by_component() {
    assert!(is_within("/a/b", "/a"));
    assert!(is_within("/a", "/a"));
    assert!(is_within("/a/b", "/a/"));
    assert!(!is_within("/ab", "/a"));
    assert!(!is_within("/a", "/a/b"));
    assert!(starts_with_text("/ab", "/a"));
    assert!(!starts_with_text("/b", "/a"));
}

#[test]
fn base_names() {
    assert_eq!(file_name("/a/b.txt").as_deref(), Some("b.txt"));
    assert_eq!(file_name("b.txt").as_deref(), Some("b.txt"));
    assert_eq!(file_name("/a/b/").as_deref(), Some("b"));
    assert_eq!(file_name("/a/b//").as_deref(), Some("b"));
    assert_eq!(file_name("a/.").as_deref(), Some("a"));
    assert_eq!(file_name("a/./").as_deref(), Some("a"));
    assert_eq!(file_name("/a/.."), None);
    assert_eq!(file_name("."), None);
    assert_eq!(file_name("./"), None);
    assert_eq!(file_name("/"), None);
    assert_eq!(file_name(""), None);
}

#[test]
fn copy_names() {
    assert_eq!(timestamped_copy_name("/a/b.txt", "[x] ").as_deref(), Some("/a/[x] b.txt"));
    assert_eq!(timestamped_copy_name("/b.txt", "[x] ").as_deref(), Some("/[x] b.txt"));
    assert_eq!(timestamped_copy_name("b.txt", "[x] ").as_deref(), Some("[x] b.txt"));
    assert_eq!(timestamped_copy_name("/a/b/", "[x] ").as_deref(), Some("/a/[x] b"));
    assert_eq!(timestamped_copy_name("/", "[x] "), None);
    let c = copy_path_now(&s("/home/u/ocean/b.txt")).unwrap();
    assert!(c.ends_with("] b.txt"));
    let tag: Vec<char> = c["/home/u/ocean/".len()..].chars().take(20).collect();
    assert_eq!(tag.len(), 20);
    for (i, ch) in tag.iter().enumerate() {
        match i {
            0 => assert_eq!(*ch, '['),
            3 | 6 => assert_eq!(*ch, '.'),
            9 | 19 => assert_eq!(*ch, ' '),
            12 | 15 => assert_eq!(*ch, ':'),
            18 => assert_eq!(*ch, ']'),
            _ => assert!(ch.is_ascii_digit()),
        }
    }
}

#[test]
fn query_strings() {
    assert_eq!(by_name_query("a.txt", Some(s("parent7"))), "name = 'a.txt' and 'parent7' in parents");
    assert_eq!(by_name_query("a.txt", None), "name = 'a.txt' and '' in parents");
    assert_eq!(children_query("D"), "'D' in parents");
    assert_eq!(name_query("ocean"), "name = 'ocean'");
}

#[test]
fn authorization_url() {
    assert_eq!(
        authorization_url_from("id", "r", "s"),
        "https://accounts.google.com/o/oauth2/v2/auth?client_id=id&response_type=code&redirect_uri=r&scope=s&access_type=offline"
    );
    let c = Client::new(s("my id"), s("secret"), s("http://localhost:8080"));
    let url = c.get_user_authorization_url("https://www.googleapis.com/auth/drive", "http://localhost:8080");
    assert_eq!(
        url,
        "https://accounts.google.com/o/oauth2/v2/auth?client_id=my%20id&response_type=code&redirect_uri=http%3A%2F%2Flocalhost%3A8080&scope=https%3A%2F%2Fwww.googleapis.com%2Fauth%2Fdrive&access_type=offline"
    );
}

#[test]
fn token_request_fields() {
    let c = Client::new(s("i"), s("x"), s("r"));
    let p = c.token_params(true, None, Some(s("rt")));
    let want: Vec<(String, String)> = vec![
        (s("client_id"), s("i")),
        (s("client_secret"), s("x")),
        (s("redirect_uri"), s("r")),
        (s("refresh_token"), s("rt")),
        (s("grant_type"), s("refresh_token")),
    ];
    assert_eq!(p, want);
    let p = c.token_params(false, Some(s("code1")), None);
    assert_eq!(p[3], (s("code"), s("code1")));
    assert_eq!(p[4], (s("grant_type"), s("authorization_code")));
}

#[test]
fn status_mapping() {
    assert_eq!(status_error(401), Some(DriveError::Unauthorized));
    assert_eq!(status_error(404), None);
    assert_eq!(lookup_status_error(404), Some(DriveError::NotFound));
    assert_eq!(lookup_status_error(401), Some(DriveError::Unauthorized));
    assert_eq!(lookup_status_error(200), None);
    assert!(upload_succeeded(200));
    assert!(upload_succeeded(201));
    assert!(!upload_succeeded(204));
    assert!(matches!(found_or_none(Err(DriveError::NotFound)), Ok(None)));
    assert!(matches!(found_or_none(Err(DriveError::Transport)), Err(DriveError::Transport)));
    assert!(matches!(found_or_none(Ok(record(Some("a"), "n", "m"))), Ok(Some(_))));
}

#[test]
fn first_of_listing() {
    assert!(first_match(FileList { files: vec![] }).is_none());
    let f = first_match(FileList { files: vec![record(Some("a"), "n", "m"), record(Some("b"), "n", "m")] }).unwrap();
    assert_eq!(f.id.as_deref(), Some("a"));
}

#[test]
fn request_bodies() {
    let b = folder_body("docs", s("P"));
    assert_eq!(b.name, "docs");
    assert_eq!(b.parents, vec![s("P")]);
    assert_eq!(b.mime_type.as_deref(), Some(FOLDER_MIME_TYPE));
    assert_eq!(file_body("a", s("P")).mime_type, None);
}

#[test]
fn remote_root_choice() {
    let folder = FOLDER_MIME_TYPE;
    assert_eq!(pick_remote_root(&FileList { files: vec![] }), Err(RootError::NotFound));
    assert_eq!(
        pick_remote_root(&FileList { files: vec![record(Some("a"), "o", folder), record(Some("b"), "o", folder)] }),
        Err(RootError::Ambiguous)
    );
    assert_eq!(pick_remote_root(&FileList { files: vec![record(Some("a"), "o", "text/plain")] }), Err(RootError::NotAFolder));
    assert_eq!(pick_remote_root(&FileList { files: vec![record(None, "o", folder)] }), Err(RootError::NotFound));
    assert_eq!(pick_remote_root(&FileList { files: vec![record(Some("a"), "o", folder)] }), Ok(s("a")));
}

#[test]
fn prompts() {
    assert_eq!(promt_default(None, "ocean"), "ocean");
    assert_eq!(promt_default(Some(s("x")), "ocean"), "x");
    assert_eq!(binary_prompt(None), Some(true));
    assert_eq!(binary_prompt(Some(s("Y"))), Some(true));
    assert_eq!(binary_prompt(Some(s("N"))), Some(false));
    assert_eq!(binary_prompt(Some(s("maybe"))), None);
    assert_eq!(binary_answer(Some("n")), Some(false));
    assert_eq!(answer_of("  yes \n").as_deref(), Some("yes"));
    assert_eq!(answer_of(" \n"), None);
    assert_eq!(answer_of(""), None);
}

#[test]
fn log_lines() {
    assert_eq!(log_line("[INFO]", "hello"), "[INFO] hello");
    assert!(info(s("hello")).ends_with(" hello"));
    assert!(info(s("hello")).contains("[INFO]"));
    assert!(error(s("bad")).contains("[ERROR]"));
}

#[test]
fn blank_documents() {
    assert!(blank_document(""));
    assert!(blank_document(" \n\t"));
    assert!(!blank_document("{}"));
}

#[test]
fn folder_uploads() {
    let mut l = VersionsList::new();
    l.insert(s("n1"), Version { is_folder: true, parent_id: s("root"), version: s("2"), path: s("/r/notes"), md5: None });
    assert_eq!(resolve_parent_id(&l, &s("/r/notes"), &s("root")), "n1");
    assert_eq!(resolve_parent_id(&l, &s("/r/other"), &s("root")), "root");
    assert!(matches!(plan_dir_upload(&l, &s("/r/notes"), &s("/r"), &s("root")), DirPlan::AlreadyTracked));
    match plan_dir_upload(&l, &s("/r/notes/sub"), &s("/r/notes"), &s("root")) {
        DirPlan::Create { name, parent_id } => {
            assert_eq!(name, "sub");
            assert_eq!(parent_id, "n1");
        }
        other => panic!("unexpected {:?}", other),
    }
    let remote = Some(record(Some("z"), "sub", FOLDER_MIME_TYPE));
    assert!(folder_collision(&l, &s("/r/notes/sub"), &remote));
    assert!(!folder_collision(&l, &s("/r/notes/sub"), &None));
    let same = Some(record(Some("n1"), "notes", FOLDER_MIME_TYPE));
    assert!(folder_collision(&l, &s("/r/notes"), &same));
    let mut at_version = record(Some("n1"), "notes", FOLDER_MIME_TYPE);
    at_version.version = Some(s("2"));
    assert!(!folder_collision(&l, &s("/r/notes"), &Some(at_version)));
}

#[test]
fn callback_query() {
    let q = get_query(s("http://localhost:8080/?code=4%2F0Ab&scope=drive")).unwrap();
    assert_eq!(q, vec![(s("code"), s("4/0Ab")), (s("scope"), s("drive"))]);
    assert_eq!(query_value(&q, "code").as_deref(), Some("4/0Ab"));
    assert_eq!(query_value(&q, "state"), None);
    assert_eq!(get_query(s("http://h/?code")), Err(QueryError::Malformed));
    assert_eq!(query_pairs("a=1=2"), Err(QueryError::Malformed));
    assert_eq!(query_pairs("a=%FF"), Err(QueryError::Undecodable));
    assert_eq!(get_query(s("code=7")).unwrap(), vec![(s("code"), s("7"))]);
    assert_eq!(get_query(s("http://h/?x=1?code=9")).unwrap(), vec![(s("code"), s("9"))]);
    let dup = query_pairs("a=1&a=2").unwrap();
    assert_eq!(query_value(&dup, "a").as_deref(), Some("2"));
}
