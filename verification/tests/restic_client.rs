use restic_viewer::client::{
    entries_in, entry_kind_of, ls_arguments, run_outcome, same_text, snapshots_arguments, LsLine,
    NodeLine, RealResticClient,
};
use restic_viewer::fake::FakeResticClient;
use restic_viewer::keyring::{attributes, backend_secret_label, password_label, CredentialKind};
use restic_viewer::types::{
    Backend, Entry, EntryKind, RepositoryConnection, ResticError, RestoreOutcome, RestoreRequest,
    Snapshot,
};

fn connection() -> RepositoryConnection {
    RepositoryConnection {
        backend: Backend::Local {
            path: "/tmp/repo".into(),
        },
        password: "pw".to_string(),
        backend_secret: None,
    }
}

fn s3(secret: Option<&str>) -> RepositoryConnection {
    RepositoryConnection {
        backend: Backend::S3 {
            endpoint: "https://s3.example.com".to_string(),
            bucket: "backups".to_string(),
            access_key_id: "AKID".to_string(),
        },
        password: "pw".to_string(),
        backend_secret: secret.map(str::to_string),
    }
}

fn pairs(list: &[(&str, &str)]) -> Vec<(String, String)> {
    list.iter().map(|(k, v)| (k.to_string(), v.to_string())).collect()
}

#[test]
fn fake_returns_the_configured_snapshots() {
    let mut fake = FakeResticClient::new();
    fake.snapshots_response = Some(Ok(vec![Snapshot {
        id: "abc123".to_string(),
        time: "2026-01-01T00:00:00Z".to_string(),
        hostname: "host".to_string(),
        tags: vec![],
        paths: vec!["/home".to_string()],
    }]));

    let result = fake.list_snapshots(&connection());

    assert_eq!(result.unwrap()[0].id, "abc123");
}

#[test]
fn fake_hands_each_response_out_once() {
    let mut fake = FakeResticClient::new();
    fake.tree_response = Some(Err(ResticError::Cancelled));
    fake.restore_response = Some(Ok(RestoreOutcome {
        files_restored: 3,
        bytes_restored: 30,
    }));
    assert_eq!(
        fake.list_tree(&connection(), "abc", "/home"),
        Err(ResticError::Cancelled)
    );
    assert!(fake.tree_response.is_none());
    let request = RestoreRequest {
        snapshot_id: "abc".to_string(),
        include_paths: vec![],
        target: "/tmp/out".to_string(),
    };
    assert_eq!(
        fake.restore(&connection(), &request),
        Ok(RestoreOutcome {
            files_restored: 3,
            bytes_restored: 30
        })
    );
    assert!(fake.restore_response.is_none());
    assert!(fake.snapshots_response.is_none());
}

#[test]
fn repository_argument_names_each_backend() {
    assert_eq!(connection().repository_argument(), "/tmp/repo");
    let sftp = RepositoryConnection {
        backend: Backend::Sftp {
            host: "nas".to_string(),
            path: "/srv/restic".to_string(),
            user: "alice".to_string(),
        },
        password: "pw".to_string(),
        backend_secret: None,
    };
    assert_eq!(sftp.repository_argument(), "sftp:alice@nas:/srv/restic");
    assert_eq!(s3(None).repository_argument(), "s3:https://s3.example.com/backups");
}

#[test]
fn environment_carries_the_password_and_s3_keys() {
    assert_eq!(connection().environment(), pairs(&[("RESTIC_PASSWORD", "pw")]));
    assert_eq!(
        s3(None).environment(),
        pairs(&[("RESTIC_PASSWORD", "pw"), ("AWS_ACCESS_KEY_ID", "AKID")])
    );
    assert_eq!(
        s3(Some("s3cr3t")).environment(),
        pairs(&[
            ("RESTIC_PASSWORD", "pw"),
            ("AWS_ACCESS_KEY_ID", "AKID"),
            ("AWS_SECRET_ACCESS_KEY", "s3cr3t")
        ])
    );
}

#[test]
fn the_launch_environment_ends_with_the_repository() {
    assert_eq!(
        s3(Some("k")).launch_environment(),
        pairs(&[
            ("RESTIC_PASSWORD", "pw"),
            ("AWS_ACCESS_KEY_ID", "AKID"),
            ("AWS_SECRET_ACCESS_KEY", "k"),
            ("RESTIC_REPOSITORY", "s3:https://s3.example.com/backups")
        ])
    );
}

#[test]
fn the_command_line_starts_with_the_binary() {
    let client = RealResticClient::system();
    assert_eq!(client.binary(), "restic");
    assert_eq!(
        client.command_line(&snapshots_arguments()),
        vec!["restic", "snapshots", "--json"]
    );
    let custom = RealResticClient::new("/app/bin/restic".to_string());
    assert_eq!(
        custom.command_line(&ls_arguments("abc123")),
        vec!["/app/bin/restic", "ls", "abc123", "--json"]
    );
}

#[test]
fn a_call_that_exits_zero_gives_its_output() {
    assert_eq!(run_outcome(0, Some("[]".to_string()), Some("warn".to_string())), Ok("[]".to_string()));
    assert_eq!(run_outcome(0, None, None), Ok(String::new()));
}

#[test]
fn a_call_that_fails_gives_its_status_and_stderr() {
    assert_eq!(
        run_outcome(12, Some("x".to_string()), Some("wrong password".to_string())),
        Err(ResticError::NonZeroExit {
            code: Some(12),
            stderr: "wrong password".to_string()
        })
    );
    assert_eq!(
        run_outcome(1, None, None),
        Err(ResticError::NonZeroExit {
            code: Some(1),
            stderr: String::new()
        })
    );
}

#[test]
fn node_types_map_to_entry_kinds() {
    assert_eq!(entry_kind_of("dir"), EntryKind::Directory);
    assert_eq!(entry_kind_of("symlink"), EntryKind::Symlink);
    assert_eq!(entry_kind_of("file"), EntryKind::File);
    assert_eq!(entry_kind_of("fifo"), EntryKind::File);
    assert!(same_text("abc", "abc"));
    assert!(!same_text("abc", "abd"));
}

fn node(name: &str, kind: &str, path: &str, size: Option<u64>) -> LsLine {
    LsLine::Message {
        message_type: Some("node".to_string()),
        node: Ok(NodeLine {
            name: name.to_string(),
            kind: kind.to_string(),
            path: path.to_string(),
            size,
            mtime: "2026-01-01T10:00:00.123+00:00".to_string(),
        }),
    }
}

fn snapshot_line() -> LsLine {
    LsLine::Message {
        message_type: Some("snapshot".to_string()),
        node: Err("missing field `name`".to_string()),
    }
}

#[test]
fn lists_only_the_direct_children_of_a_directory() {
    let lines = vec![
        snapshot_line(),
        node("tmp", "dir", "/tmp", None),
        node("source", "dir", "/tmp/source", None),
        node("file1.txt", "file", "/tmp/source/file1.txt", Some(5)),
        node("subdir", "dir", "/tmp/source/subdir", None),
        node("file2.txt", "file", "/tmp/source/subdir/file2.txt", Some(5)),
        node("link", "symlink", "/tmp/source/link", Some(0)),
    ];
    let entries = entries_in(&lines, "/tmp/source").unwrap();
    let names: Vec<&str> = entries.iter().map(|e| e.name.as_str()).collect();
    assert_eq!(names, vec!["file1.txt", "subdir", "link"]);
    assert_eq!(
        entries[0],
        Entry {
            name: "file1.txt".to_string(),
            path: "/tmp/source/file1.txt".to_string(),
            kind: EntryKind::File,
            size: Some(5),
            mtime: "2026-01-01T10:00:00.123+00:00".to_string(),
        }
    );
    assert_eq!(entries[1].kind, EntryKind::Directory);
    assert_eq!(entries[2].kind, EntryKind::Symlink);
    // The directory may be given with a trailing slash; the filesystem root lists its
    // top-level nodes.
    assert_eq!(entries_in(&lines, "/tmp/source/").unwrap().len(), 3);
    let top = entries_in(&lines, "/").unwrap();
    assert_eq!(top.len(), 1);
    assert_eq!(top[0].name, "tmp");
}

#[test]
fn an_unreadable_line_stops_the_listing() {
    let lines = vec![
        node("a", "file", "/x/a", Some(1)),
        LsLine::Unreadable("expected value at line 1 column 1".to_string()),
        node("b", "file", "/x/b", Some(1)),
    ];
    assert_eq!(
        entries_in(&lines, "/x"),
        Err(ResticError::Parse("expected value at line 1 column 1".to_string()))
    );
}

#[test]
fn a_malformed_node_stops_the_listing_but_other_messages_do_not() {
    let lines = vec![
        snapshot_line(),
        LsLine::Message {
            message_type: None,
            node: Err("missing field `name`".to_string()),
        },
        LsLine::Message {
            message_type: Some("node".to_string()),
            node: Err("missing field `mtime`".to_string()),
        },
    ];
    assert_eq!(
        entries_in(&lines, "/x"),
        Err(ResticError::Parse("missing field `mtime`".to_string()))
    );
    assert_eq!(entries_in(&lines[..2].iter().map(|_| snapshot_line()).collect(), "/x"), Ok(vec![]));
}

#[test]
fn credentials_are_found_by_repository_and_kind() {
    assert_eq!(CredentialKind::Password.as_str(), "password");
    assert_eq!(CredentialKind::BackendSecret.as_str(), "backend-secret");
    assert_eq!(
        attributes("repo-1", CredentialKind::BackendSecret),
        pairs(&[("repository-id", "repo-1"), ("kind", "backend-secret")])
    );
    assert_eq!(
        attributes("repo-1", CredentialKind::Password),
        pairs(&[("repository-id", "repo-1"), ("kind", "password")])
    );
}

#[test]
fn keyring_labels_name_the_repository() {
    assert_eq!(password_label("Home"), "Restic Viewer: Home Repository password");
    assert_eq!(backend_secret_label("Home"), "Restic Viewer: Home Backend secret");
}
