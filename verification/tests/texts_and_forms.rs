use restic_viewer::detail::{
    backend_subtitle, needs_backend_secret, removal_message, snapshot_subtitle, snapshot_title,
    DetailLoads, DetailPage,
};
use restic_viewer::entry_tree::{format_meta, root_entry, root_name, selected_paths, ChildLoad};
use restic_viewer::forms::{
    progress_text, restore_ready, restore_report, restore_target, AddRepositoryForm, RestoreReport,
    BACKEND_LOCAL, BACKEND_S3, BACKEND_SFTP,
};
use restic_viewer::text::{decimal_text, join_with, leading_timestamp, signed_decimal_text};
use restic_viewer::types::{Backend, Entry, EntryKind, ResticError, RestoreOutcome, Snapshot};

#[test]
fn numbers_are_written_in_decimal() {
    assert_eq!(decimal_text(0), "0");
    assert_eq!(decimal_text(7), "7");
    assert_eq!(decimal_text(10), "10");
    assert_eq!(decimal_text(1234567890), "1234567890");
    assert_eq!(decimal_text(u64::MAX), u64::MAX.to_string());
    assert_eq!(signed_decimal_text(-12), "-12");
    assert_eq!(signed_decimal_text(i32::MIN), i32::MIN.to_string());
    assert_eq!(signed_decimal_text(42), "42");
}

#[test]
fn timestamps_are_cut_to_the_second() {
    assert_eq!(leading_timestamp("2026-01-01T10:20:30.123456+02:00"), "2026-01-01T10:20:30");
    assert_eq!(leading_timestamp("2026-01-01"), "2026-01-01");
    assert_eq!(leading_timestamp(""), "");
    // Byte 19 falls inside the two-byte 'é': the whole text is kept, as `str::get` does.
    let odd = "2026-01-01T10:20:3é0";
    assert_eq!(leading_timestamp(odd), odd.get(..19).unwrap_or(odd));
    let fits = "2026-01-01T10:2é:30x";
    assert_eq!(leading_timestamp(fits), fits.get(..19).unwrap_or(fits));
}

#[test]
fn lists_are_joined_with_the_separator() {
    let tags = vec!["daily".to_string(), "home".to_string(), "laptop".to_string()];
    assert_eq!(join_with(&tags, ", "), "daily, home, laptop");
    assert_eq!(join_with(&vec!["one".to_string()], ", "), "one");
    assert_eq!(join_with(&vec![], ", "), "");
}

#[test]
fn errors_read_like_the_original_messages() {
    assert_eq!(
        ResticError::NonZeroExit {
            code: Some(12),
            stderr: "wrong password".to_string()
        }
        .message(),
        "restic exited with Some(12): wrong password"
    );
    assert_eq!(
        ResticError::NonZeroExit {
            code: None,
            stderr: String::new()
        }
        .message(),
        "restic exited with None: "
    );
    assert_eq!(ResticError::Cancelled.message(), "restore was cancelled");
    assert_eq!(ResticError::Parse("eof".to_string()).message(), "failed to parse restic output: eof");
    assert_eq!(
        ResticError::Spawn("No such file".to_string()).message(),
        "failed to spawn restic: No such file"
    );
}

#[test]
fn root_rows_are_named_after_their_last_piece() {
    for path in ["/home/user", "/home/user/", "/", "", "relative", "a//b//", "//", "/é/ü"] {
        let expected = path.rsplit('/').find(|s| !s.is_empty()).unwrap_or(path);
        assert_eq!(root_name(path), expected, "path {path:?}");
    }
    let entry = root_entry("/home/user".to_string());
    assert_eq!(
        entry,
        Entry {
            name: "user".to_string(),
            path: "/home/user".to_string(),
            kind: EntryKind::Directory,
            size: None,
            mtime: String::new(),
        }
    );
}

#[test]
fn entry_rows_show_size_and_time() {
    let mut entry = Entry {
        name: "file1.txt".to_string(),
        path: "/tmp/file1.txt".to_string(),
        kind: EntryKind::File,
        size: Some(5),
        mtime: "2026-01-01T10:20:30.5+00:00".to_string(),
    };
    assert_eq!(format_meta(&entry), "5 B · 2026-01-01T10:20:30");
    entry.size = None;
    assert_eq!(format_meta(&entry), "2026-01-01T10:20:30");
}

#[test]
fn only_selected_rows_are_restored() {
    let rows = vec![
        (true, "/a".to_string()),
        (false, "/b".to_string()),
        (true, "/c".to_string()),
    ];
    assert_eq!(selected_paths(&rows), vec!["/a", "/c"]);
    assert!(selected_paths(&vec![(false, "/x".to_string())]).is_empty());
}

#[test]
fn children_are_fetched_once_on_first_expansion() {
    let mut load = ChildLoad::new();
    assert!(!load.on_expanded(false));
    assert!(load.on_expanded(true));
    assert!(!load.on_expanded(true));
    assert!(!load.on_expanded(false));
    assert!(!load.on_expanded(true));
}

fn snapshot(tags: &[&str]) -> Snapshot {
    Snapshot {
        id: "abc".to_string(),
        time: "2026-03-04T05:06:07.89+01:00".to_string(),
        hostname: "laptop".to_string(),
        tags: tags.iter().map(|t| t.to_string()).collect(),
        paths: vec!["/home".to_string()],
    }
}

#[test]
fn snapshot_rows_show_time_host_and_tags() {
    assert_eq!(snapshot_title(&snapshot(&[])), "2026-03-04T05:06:07");
    assert_eq!(snapshot_subtitle(&snapshot(&[])), "laptop");
    assert_eq!(snapshot_subtitle(&snapshot(&["daily", "home"])), "laptop · daily, home");
}

#[test]
fn repositories_are_described_by_where_they_live() {
    assert_eq!(backend_subtitle(&Backend::Local { path: "/mnt/backup".to_string() }), "/mnt/backup");
    let sftp = Backend::Sftp {
        host: "nas".to_string(),
        path: "/srv".to_string(),
        user: "bob".to_string(),
    };
    assert_eq!(backend_subtitle(&sftp), "sftp:nas:/srv");
    let s3 = Backend::S3 {
        endpoint: "minio:9000".to_string(),
        bucket: "b".to_string(),
        access_key_id: "k".to_string(),
    };
    assert_eq!(backend_subtitle(&s3), "s3:minio:9000/b");
    assert!(needs_backend_secret(&s3));
    assert!(!needs_backend_secret(&sftp));
    assert_eq!(
        removal_message("Home"),
        "\"Home\" will be removed from Restic Viewer. The Repository itself and its data are not affected."
    );
}

#[test]
fn the_detail_pane_follows_the_latest_listing() {
    let mut loads = DetailLoads::new();
    let first = loads.start();
    let second = loads.start();
    assert!(!loads.is_current(first));
    assert!(loads.is_current(second));
    assert_eq!(loads.page_after_listing(first, None), None);
    assert_eq!(loads.page_after_listing(second, None), Some(DetailPage::Snapshots));
    let wrong = ResticError::NonZeroExit {
        code: Some(12),
        stderr: "wrong password".to_string(),
    };
    assert_eq!(loads.page_after_listing(second, Some(&wrong)), Some(DetailPage::Unlock));
    let other = ResticError::NonZeroExit {
        code: Some(1),
        stderr: "unreachable".to_string(),
    };
    assert_eq!(
        loads.page_after_listing(second, Some(&other)),
        Some(DetailPage::Error("restic exited with Some(1): unreachable".to_string()))
    );
    assert_eq!(loads.page_without_password(second), Some(DetailPage::Unlock));
    loads.clear();
    assert_eq!(loads.page_without_password(second), None);
}

fn form(backend: u32) -> AddRepositoryForm {
    AddRepositoryForm {
        name: "Home".to_string(),
        password: "pw".to_string(),
        backend,
        chosen_path: None,
        host: String::new(),
        sftp_path: String::new(),
        user: String::new(),
        endpoint: String::new(),
        bucket: String::new(),
        access_key_id: String::new(),
        secret_access_key: String::new(),
    }
}

#[test]
fn the_add_form_needs_every_field_of_its_backend() {
    let mut local = form(BACKEND_LOCAL);
    assert!(!local.is_ready());
    assert_eq!(local.backend_choice(), None);
    local.chosen_path = Some("/mnt/repo".to_string());
    assert!(local.is_ready());
    assert_eq!(
        local.backend_choice(),
        Some((Backend::Local { path: "/mnt/repo".to_string() }, None))
    );
    local.password = String::new();
    assert!(!local.is_ready());

    let mut sftp = form(BACKEND_SFTP);
    sftp.host = "nas".to_string();
    sftp.sftp_path = "/srv".to_string();
    assert!(!sftp.is_ready());
    sftp.user = "bob".to_string();
    assert!(sftp.is_ready());
    assert_eq!(
        sftp.backend_choice(),
        Some((
            Backend::Sftp {
                host: "nas".to_string(),
                path: "/srv".to_string(),
                user: "bob".to_string()
            },
            None
        ))
    );

    let mut s3 = form(BACKEND_S3);
    s3.endpoint = "e".to_string();
    s3.bucket = "b".to_string();
    s3.access_key_id = "k".to_string();
    assert!(!s3.is_ready());
    s3.secret_access_key = "s".to_string();
    assert!(s3.is_ready());
    assert_eq!(
        s3.backend_choice(),
        Some((
            Backend::S3 {
                endpoint: "e".to_string(),
                bucket: "b".to_string(),
                access_key_id: "k".to_string()
            },
            Some("s".to_string())
        ))
    );
}

#[test]
fn a_restore_needs_a_target() {
    assert!(!restore_ready(false, &None));
    assert!(restore_ready(true, &None));
    assert!(restore_ready(false, &Some("/tmp/t".to_string())));
    assert_eq!(restore_target(true, &Some("/tmp/t".to_string())), Some("/".to_string()));
    assert_eq!(restore_target(false, &Some("/tmp/t".to_string())), Some("/tmp/t".to_string()));
    assert_eq!(restore_target(false, &None), None);
}

#[test]
fn restores_are_reported_in_words() {
    assert_eq!(progress_text(3, 10), "3 of 10 files restored");
    assert_eq!(
        restore_report(&Ok(RestoreOutcome {
            files_restored: 6,
            bytes_restored: 11
        })),
        RestoreReport::Done("Restored 6 files.".to_string())
    );
    assert_eq!(
        restore_report(&Err(ResticError::Cancelled)),
        RestoreReport::Cancelled("Restore cancelled.".to_string())
    );
    assert_eq!(
        restore_report(&Err(ResticError::Parse("bad".to_string()))),
        RestoreReport::Failed("failed to parse restic output: bad".to_string())
    );
}
