use std::path::Path;

use restic_viewer::paths::{components, is_direct_child_of, Component};
use restic_viewer::restore::{restore_arguments, strip_leading_slash, RestoreLine, RestoreRun};
use restic_viewer::types::{ResticError, RestoreOutcome, RestoreRequest};

fn std_says_direct_child(path: &str, dir: &str) -> bool {
    Path::new(path).parent() == Some(Path::new(dir))
}

#[test]
fn components_split_like_std_paths() {
    assert_eq!(
        components("/home//user/./docs/"),
        vec![
            Component::RootDir,
            Component::Normal("home".to_string()),
            Component::Normal("user".to_string()),
            Component::Normal("docs".to_string()),
        ]
    );
    assert_eq!(
        components("./a/../b"),
        vec![
            Component::CurDir,
            Component::Normal("a".to_string()),
            Component::ParentDir,
            Component::Normal("b".to_string()),
        ]
    );
    assert_eq!(components(""), vec![]);
    assert_eq!(components("."), vec![Component::CurDir]);
    assert_eq!(components(".hidden"), vec![Component::Normal(".hidden".to_string())]);
    assert_eq!(components("//"), vec![Component::RootDir]);
}

#[test]
fn direct_children_agree_with_std_paths() {
    let samples = [
        "", "/", "//", ".", "./", "..", "a", "a/", "/a", "/a/", "/a/b", "/a/b/", "/a//b",
        "/a/./b", "/a/b/c", "./a", "./a/b", "a/b", "a/./b", "../a", "/a/..", "/a/b/..", ".a",
        "/.a/b", "/tmp/source", "/tmp/source/file1.txt", "/tmp/source/subdir/file2.txt",
        "/héllo/wörld", "/héllo",
    ];
    for path in samples {
        for dir in samples {
            assert_eq!(
                is_direct_child_of(path, dir),
                std_says_direct_child(path, dir),
                "path {path:?} dir {dir:?}"
            );
        }
    }
}

#[test]
fn a_name_under_a_directory_is_its_direct_child() {
    assert!(is_direct_child_of("/tmp/source/file1.txt", "/tmp/source"));
    assert!(is_direct_child_of("/tmp/source/file1.txt", "/tmp/source/"));
    assert!(!is_direct_child_of("/tmp/source/subdir/file2.txt", "/tmp/source"));
    assert!(!is_direct_child_of("/", "/"));
    assert!(is_direct_child_of("/tmp", "/"));
}

#[test]
fn include_patterns_lose_one_leading_slash() {
    assert_eq!(strip_leading_slash("/tmp/source/subdir/file2.txt"), "tmp/source/subdir/file2.txt");
    assert_eq!(strip_leading_slash("relative"), "relative");
    assert_eq!(strip_leading_slash("//double"), "/double");
    assert_eq!(strip_leading_slash(""), "");
}

#[test]
fn restore_arguments_restore_the_whole_snapshot_without_includes() {
    let request = RestoreRequest {
        snapshot_id: "abc123".to_string(),
        include_paths: vec![],
        target: "/tmp/target".to_string(),
    };
    assert_eq!(
        restore_arguments(&request),
        vec!["restore", "abc123", "--target", "/tmp/target", "--json"]
    );
}

#[test]
fn restore_arguments_include_each_selected_path() {
    let request = RestoreRequest {
        snapshot_id: "abc123".to_string(),
        include_paths: vec!["/tmp/source/subdir/file2.txt".to_string(), "/etc".to_string()],
        target: "/".to_string(),
    };
    assert_eq!(
        restore_arguments(&request),
        vec![
            "restore",
            "abc123",
            "--target",
            "/",
            "--json",
            "--include",
            "tmp/source/subdir/file2.txt",
            "--include",
            "etc"
        ]
    );
}

fn json(message_type: &str) -> RestoreLine {
    RestoreLine::Json {
        message_type: Some(message_type.to_string()),
        status: false,
        summary: None,
        error_message: None,
        message: None,
    }
}

#[test]
fn cancelling_before_it_starts_means_restic_is_never_run() {
    assert_eq!(RestoreRun::begin(true).unwrap_err(), ResticError::Cancelled);
    let run = RestoreRun::begin(false).unwrap();
    assert_eq!(run.outcome(), RestoreOutcome::default());
    assert_eq!(run.diagnostics(), "");
}

#[test]
fn status_lines_are_progress_and_summaries_are_the_outcome() {
    let mut run = RestoreRun::begin(false).unwrap();
    let status = RestoreLine::Json {
        message_type: Some("status".to_string()),
        status: true,
        summary: None,
        error_message: None,
        message: None,
    };
    assert!(run.on_line(&status));
    assert!(!run.on_line(&json("status")));
    let summary = RestoreLine::Json {
        message_type: Some("summary".to_string()),
        status: false,
        summary: Some(RestoreOutcome {
            files_restored: 6,
            bytes_restored: 10,
        }),
        error_message: None,
        message: None,
    };
    assert!(!run.on_line(&summary));
    assert!(!run.on_line(&json("summary")));
    assert_eq!(
        run.outcome(),
        RestoreOutcome {
            files_restored: 6,
            bytes_restored: 10
        }
    );
    assert_eq!(run.diagnostics(), "");
    assert_eq!(
        run.finish(false, 0),
        Ok(RestoreOutcome {
            files_restored: 6,
            bytes_restored: 10
        })
    );
}

#[test]
fn errors_and_plain_text_become_the_diagnostics() {
    let mut run = RestoreRun::begin(false).unwrap();
    run.on_line(&RestoreLine::Text("Fatal: unable to open".to_string()));
    run.on_line(&RestoreLine::Json {
        message_type: Some("error".to_string()),
        status: false,
        summary: None,
        error_message: Some("mkdir /t: permission denied".to_string()),
        message: Some("ignored".to_string()),
    });
    run.on_line(&RestoreLine::Json {
        message_type: Some("exit_error".to_string()),
        status: false,
        summary: None,
        error_message: None,
        message: Some("exiting".to_string()),
    });
    run.on_line(&json("error"));
    run.on_line(&json("verbose_status"));
    assert_eq!(
        run.diagnostics(),
        "Fatal: unable to open\nmkdir /t: permission denied\nexiting\n"
    );
    assert_eq!(
        run.finish(false, 1),
        Err(ResticError::NonZeroExit {
            code: Some(1),
            stderr: "Fatal: unable to open\nmkdir /t: permission denied\nexiting\n".to_string()
        })
    );
}

#[test]
fn a_cancelled_restore_is_cancelled_whatever_restic_did() {
    let run = RestoreRun::begin(false).unwrap();
    assert_eq!(run.finish(true, 0), Err(ResticError::Cancelled));
    let mut run = RestoreRun::begin(false).unwrap();
    run.on_line(&RestoreLine::Text("killed".to_string()));
    assert_eq!(run.finish(true, 137), Err(ResticError::Cancelled));
}
