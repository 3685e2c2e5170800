//! Running a Restore: the restic arguments it takes, and what restic's stream of
//! JSON lines (status updates, then a final summary, or errors) amounts to.
//!
//! restic reports a Restore one line per event, with its standard error merged into
//! the same stream. The application starts the process, reads each line as it
//! arrives and decodes it into a [`RestoreLine`]; a [`RestoreRun`] decides what each
//! line means and how the Restore ended.

use vstd::prelude::*;

use crate::client::same_text;
use crate::types::{strings_view, ResticError, RestoreOutcome, RestoreRequest};

verus! {

/// `path` without one leading `/`, when it has one.
pub open spec fn spec_strip_leading_slash(path: Seq<char>) -> Seq<char> {
    if path.len() > 0 && path[0] == '/' {
        path.skip(1)
    } else {
        path
    }
}

/// `path` without one leading `/`, when it has one.
///
/// restic's `--include` only matches a directory node exactly (no descendants) when
/// the pattern has no leading `/`, even though `restic ls` always reports paths with
/// one.
pub fn strip_leading_slash(path: &str) -> (stripped: String)
    ensures
        stripped@ == spec_strip_leading_slash(path@),
{
    let n = path.unicode_len();
    if n > 0 && path.get_char(0) == '/' {
        path.substring_char(1, n).to_owned()
    } else {
        path.to_owned()
    }
}

/// `--include` and the pattern of each path, in order.
pub open spec fn include_arguments(paths: Seq<Seq<char>>) -> Seq<Seq<char>>
    decreases paths.len(),
{
    if paths.len() == 0 {
        Seq::empty()
    } else {
        include_arguments(paths.drop_last()) + seq![
            "--include"@,
            spec_strip_leading_slash(paths.last()),
        ]
    }
}

/// The arguments of a Restore of `snapshot_id` into `target`, limited to
/// `include_paths` when there are any.
pub open spec fn spec_restore_arguments(
    snapshot_id: Seq<char>,
    target: Seq<char>,
    include_paths: Seq<Seq<char>>,
) -> Seq<Seq<char>> {
    seq!["restore"@, snapshot_id, "--target"@, target, "--json"@] + include_arguments(include_paths)
}

/// The restic arguments that carry out `request`.
pub fn restore_arguments(request: &RestoreRequest) -> (args: Vec<String>)
    ensures
        strings_view(args@) == spec_restore_arguments(
            request.snapshot_id@,
            request.target@,
            strings_view(request.include_paths@),
        ),
{
    let mut args: Vec<String> = Vec::new();
    args.push(String::from_str("restore"));
    args.push(request.snapshot_id.clone());
    args.push(String::from_str("--target"));
    args.push(request.target.clone());
    args.push(String::from_str("--json"));
    let ghost head = strings_view(args@);
    assert(head =~= seq!["restore"@, request.snapshot_id@, "--target"@, request.target@, "--json"@]);
    let includes = &request.include_paths;
    let mut i: usize = 0;
    while i < includes.len()
        invariant
            i <= includes@.len(),
            strings_view(args@) == head + include_arguments(strings_view(includes@.take(i as int))),
        decreases includes@.len() - i,
    {
        let ghost before = strings_view(args@);
        args.push(String::from_str("--include"));
        args.push(strip_leading_slash(includes[i].as_str()));
        let ghost done = strings_view(includes@.take(i + 1));
        assert(done =~= strings_view(includes@.take(i as int)).push(includes@[i as int]@));
        assert(done.drop_last() =~= strings_view(includes@.take(i as int)));
        assert(strings_view(args@) =~= before + seq![
            "--include"@,
            spec_strip_leading_slash(includes@[i as int]@),
        ]);
        assert(strings_view(args@) =~= head + include_arguments(done));
        i = i + 1;
    }
    assert(includes@.take(i as int) =~= includes@);
    args
}

/// One line of a Restore's output, as far as it could be decoded.
#[derive(Debug, Clone, PartialEq, Eq)]
pub enum RestoreLine {
    /// A line that is not JSON — restic's standard error, merged into the stream.
    Text(String),
    /// A JSON message.
    Json {
        /// Its `message_type`, when that is a string.
        message_type: Option<String>,
        /// Whether it decodes as a status update.
        status: bool,
        /// The counts it holds, when it decodes as a summary.
        summary: Option<RestoreOutcome>,
        /// Its `error.message`, when that is a string.
        error_message: Option<String>,
        /// Its `message`, when that is a string.
        message: Option<String>,
    },
}

/// `t` is the message type `kind`.
pub open spec fn is_type(t: Option<String>, kind: Seq<char>) -> bool {
    t matches Some(s) && s@ == kind
}

/// What `line` adds to the diagnostics kept for an error report: a non-JSON line
/// itself, the message of an `error` or `exit_error` message, each followed by a
/// newline; nothing for anything else.
pub open spec fn line_note(line: RestoreLine) -> Seq<char> {
    match line {
        RestoreLine::Text(text) => text@ + "\n"@,
        RestoreLine::Json { message_type, error_message, message, .. } => {
            if is_type(message_type, "error"@) && error_message is Some {
                error_message->0@ + "\n"@
            } else if is_type(message_type, "exit_error"@) && message is Some {
                message->0@ + "\n"@
            } else {
                Seq::empty()
            }
        },
    }
}

/// The counts `line` reports, when it is a well-formed `summary` message.
pub open spec fn line_summary(line: RestoreLine) -> Option<RestoreOutcome> {
    match line {
        RestoreLine::Json { message_type, summary, .. } => if is_type(message_type, "summary"@) {
            summary
        } else {
            None
        },
        _ => None,
    }
}

/// Whether `line` is a well-formed `status` message, to be shown as progress.
pub open spec fn line_reports_progress(line: RestoreLine) -> bool {
    match line {
        RestoreLine::Json { message_type, status, .. } => is_type(message_type, "status"@)
            && status,
        _ => false,
    }
}

/// The diagnostics gathered from `lines`, in order.
pub open spec fn notes_of(lines: Seq<RestoreLine>) -> Seq<char>
    decreases lines.len(),
{
    if lines.len() == 0 {
        Seq::empty()
    } else {
        notes_of(lines.drop_last()) + line_note(lines.last())
    }
}

/// The outcome reported by `lines`: that of the last well-formed summary, or
/// `start` when there is none.
pub open spec fn outcome_of(start: RestoreOutcome, lines: Seq<RestoreLine>) -> RestoreOutcome
    decreases lines.len(),
{
    if lines.len() == 0 {
        start
    } else {
        match line_summary(lines.last()) {
            Some(o) => o,
            None => outcome_of(start, lines.drop_last()),
        }
    }
}

/// What a line does: the text it adds to the diagnostics (without the newline that
/// follows it), the outcome it reports, and whether it is progress to show.
fn line_effect(line: &RestoreLine) -> (effect: (Option<&str>, Option<RestoreOutcome>, bool))
    ensures
        match effect.0 {
            Some(text) => line_note(*line) == text@ + "\n"@,
            None => line_note(*line) == Seq::<char>::empty(),
        },
        effect.1 == line_summary(*line),
        effect.2 == line_reports_progress(*line),
{
    proof {
        reveal_strlit("status");
        reveal_strlit("summary");
        reveal_strlit("error");
        reveal_strlit("exit_error");
        assert("status"@.len() == 6);
        assert("summary"@.len() == 7);
        assert("error"@.len() == 5);
        assert("exit_error"@.len() == 10);
    }
    match line {
        RestoreLine::Text(text) => (Some(text.as_str()), None, false),
        RestoreLine::Json { message_type, status, summary, error_message, message } => {
            match message_type {
                None => (None, None, false),
                Some(t) => {
                    let kind = t.as_str();
                    if same_text(kind, "status") {
                        (None, None, *status)
                    } else if same_text(kind, "summary") {
                        (None, *summary, false)
                    } else if same_text(kind, "error") {
                        match error_message {
                            Some(text) => (Some(text.as_str()), None, false),
                            None => (None, None, false),
                        }
                    } else if same_text(kind, "exit_error") {
                        match message {
                            Some(text) => (Some(text.as_str()), None, false),
                            None => (None, None, false),
                        }
                    } else {
                        (None, None, false)
                    }
                },
            }
        },
    }
}

/// A Restore in progress: the outcome reported so far and the diagnostics gathered
/// for an error report.
#[derive(Debug)]
pub struct RestoreRun {
    outcome: RestoreOutcome,
    diagnostics: String,
}

impl RestoreRun {
    /// The outcome reported so far.
    pub closed spec fn spec_outcome(&self) -> RestoreOutcome {
        self.outcome
    }

    /// The diagnostics gathered so far.
    pub closed spec fn spec_diagnostics(&self) -> Seq<char> {
        self.diagnostics@
    }

    /// Starts a Restore, unless it was cancelled before restic was started: then it is
    /// [`ResticError::Cancelled`] and restic must not be started at all.
    pub fn begin(cancelled: bool) -> (run: Result<RestoreRun, ResticError>)
        ensures
            cancelled ==> run == Err::<RestoreRun, ResticError>(ResticError::Cancelled),
            !cancelled ==> (run matches Ok(r) && r.spec_outcome() == RestoreOutcome {
                files_restored: 0,
                bytes_restored: 0,
            } && r.spec_diagnostics() == Seq::<char>::empty()),
    {
        if cancelled {
            Err(ResticError::Cancelled)
        } else {
            Ok(RestoreRun { outcome: RestoreOutcome::default(), diagnostics: String::new() })
        }
    }

    /// The outcome reported so far.
    pub fn outcome(&self) -> (outcome: RestoreOutcome)
        ensures
            outcome == self.spec_outcome(),
    {
        self.outcome
    }

    /// The diagnostics gathered so far.
    pub fn diagnostics(&self) -> (diagnostics: &str)
        ensures
            diagnostics@ == self.spec_diagnostics(),
    {
        self.diagnostics.as_str()
    }

    /// Takes in the next line of restic's output. Returns whether it is a status
    /// update to show as progress. A well-formed summary replaces the outcome; other
    /// lines leave it alone.
    pub fn on_line(&mut self, line: &RestoreLine) -> (progress: bool)
        ensures
            progress == line_reports_progress(*line),
            final(self).spec_diagnostics() == old(self).spec_diagnostics() + line_note(*line),
            final(self).spec_outcome() == match line_summary(*line) {
                Some(o) => o,
                None => old(self).spec_outcome(),
            },
    {
        let (note, summary, progress) = line_effect(line);
        if let Some(text) = note {
            self.diagnostics.append(text);
            self.diagnostics.append("\n");
        } else {
            assert(self.diagnostics@ =~= self.diagnostics@ + Seq::<char>::empty());
        }
        if let Some(counts) = summary {
            self.outcome = counts;
        }
        progress
    }

    /// How the Restore ended, once restic has exited with `exit_status`: cancelled
    /// when the user cancelled it (whatever restic did), otherwise a
    /// [`ResticError::NonZeroExit`] carrying the diagnostics when restic failed, and the
    /// reported outcome when it succeeded.
    pub fn finish(self, cancelled: bool, exit_status: i32) -> (result: Result<
        RestoreOutcome,
        ResticError,
    >)
        ensures
            cancelled ==> result == Err::<RestoreOutcome, ResticError>(ResticError::Cancelled),
            !cancelled && exit_status != 0 ==> (result matches Err(
                ResticError::NonZeroExit { code, stderr },
            ) && code == Some(exit_status) && stderr@ == self.spec_diagnostics()),
            !cancelled && exit_status == 0 ==> result == Ok::<RestoreOutcome, ResticError>(
                self.spec_outcome(),
            ),
    {
        if cancelled {
            return Err(ResticError::Cancelled);
        }
        if exit_status != 0 {
            return Err(ResticError::NonZeroExit { code: Some(exit_status), stderr: self.diagnostics });
        }
        Ok(self.outcome)
    }
}

/// Diagnostics gathered from two stretches of output read one after the other are
/// those of the first stretch followed by those of the second: reading restic's
/// stream in any number of pieces gathers the same text.
pub proof fn lemma_notes_concatenate(first: Seq<RestoreLine>, second: Seq<RestoreLine>)
    ensures
        notes_of(first + second) == notes_of(first) + notes_of(second),
    decreases second.len(),
{
    if second.len() == 0 {
        assert(first + second =~= first);
        assert(notes_of(first) + notes_of(second) =~= notes_of(first));
    } else {
        let shorter = second.drop_last();
        lemma_notes_concatenate(first, shorter);
        assert((first + second).drop_last() =~= first + shorter);
        assert(notes_of(first + second) =~= notes_of(first) + notes_of(second));
    }
}

/// The outcome after two stretches of output is the outcome the second stretch
/// reports when started from the outcome of the first: only the last well-formed
/// summary counts.
pub proof fn lemma_outcome_follows_last_summary(
    start: RestoreOutcome,
    first: Seq<RestoreLine>,
    second: Seq<RestoreLine>,
)
    ensures
        outcome_of(start, first + second) == outcome_of(outcome_of(start, first), second),
    decreases second.len(),
{
    if second.len() == 0 {
        assert(first + second =~= first);
    } else {
        let shorter = second.drop_last();
        lemma_outcome_follows_last_summary(start, first, shorter);
        assert((first + second).drop_last() =~= first + shorter);
    }
}

/// Status updates and lines of unknown type neither add to the diagnostics nor
/// change the outcome.
pub proof fn lemma_quiet_lines_change_nothing(line: RestoreLine)
    requires
        line matches RestoreLine::Json { message_type, .. } && (is_type(message_type, "status"@)
            || message_type is None),
    ensures
        line_note(line) == Seq::<char>::empty(),
        line_summary(line) is None,
{
    reveal_strlit("status");
    reveal_strlit("summary");
    reveal_strlit("error");
    reveal_strlit("exit_error");
    assert("status"@.len() == 6);
    assert("summary"@.len() == 7);
    assert("error"@.len() == 5);
    assert("exit_error"@.len() == 10);
}

/// A request with no include paths restores the whole Snapshot: its arguments are
/// exactly `restore <id> --target <target> --json`.
pub proof fn lemma_no_includes_restore_everything(snapshot_id: Seq<char>, target: Seq<char>)
    ensures
        spec_restore_arguments(snapshot_id, target, Seq::empty()) == seq![
            "restore"@,
            snapshot_id,
            "--target"@,
            target,
            "--json"@,
        ],
{
    assert(spec_restore_arguments(snapshot_id, target, Seq::empty()) =~= seq![
        "restore"@,
        snapshot_id,
        "--target"@,
        target,
        "--json"@,
    ]);
}

/// Whether the `k`-th include path appears, as `--include` and its pattern, at
/// positions `2k` and `2k + 1` of `args`.
pub open spec fn include_at(args: Seq<Seq<char>>, paths: Seq<Seq<char>>, k: int) -> bool {
    args[2 * k] == "--include"@ && args[2 * k + 1] == spec_strip_leading_slash(paths[k])
}

/// Each include path adds exactly one `--include` and its pattern, in order: the
/// `k`-th path becomes the pattern after the `k`-th `--include`.
pub proof fn lemma_each_include_becomes_a_pattern(paths: Seq<Seq<char>>)
    ensures
        include_arguments(paths).len() == 2 * paths.len(),
        forall|k: int| 0 <= k < paths.len() ==> #[trigger] include_at(include_arguments(paths), paths, k),
    decreases paths.len(),
{
    if paths.len() > 0 {
        let shorter = paths.drop_last();
        lemma_each_include_becomes_a_pattern(shorter);
        assert forall|k: int| 0 <= k < paths.len() implies #[trigger] include_at(
            include_arguments(paths),
            paths,
            k,
        ) by {
            if k < shorter.len() {
                assert(include_at(include_arguments(shorter), shorter, k));
                assert(shorter[k] == paths[k]);
            }
        }
    }
}

/// The restore arguments of any request: the five head arguments, then exactly one
/// `--include` and one pattern per include path, in order, each pattern being the
/// path without one leading slash. So a request with include paths never restores
/// the whole Snapshot.
pub proof fn lemma_restore_arguments_shape(
    snapshot_id: Seq<char>,
    target: Seq<char>,
    paths: Seq<Seq<char>>,
)
    ensures
        spec_restore_arguments(snapshot_id, target, paths).len() == 5 + 2 * paths.len(),
        spec_restore_arguments(snapshot_id, target, paths).take(5) == seq![
            "restore"@,
            snapshot_id,
            "--target"@,
            target,
            "--json"@,
        ],
        forall|k: int|
            #![trigger paths[k]]
            #![trigger spec_restore_arguments(snapshot_id, target, paths)[5 + 2 * k]]
            0 <= k < paths.len() ==> spec_restore_arguments(snapshot_id, target, paths)[5 + 2 * k]
                == "--include"@ && spec_restore_arguments(snapshot_id, target, paths)[6 + 2 * k]
                == (if paths[k].len() > 0 && paths[k][0] == '/' {
                paths[k].skip(1)
            } else {
                paths[k]
            }),
{
    let head = seq!["restore"@, snapshot_id, "--target"@, target, "--json"@];
    let tail = include_arguments(paths);
    lemma_each_include_becomes_a_pattern(paths);
    assert(spec_restore_arguments(snapshot_id, target, paths).take(5) =~= head);
    assert forall|k: int|
        #![trigger paths[k]]
            #![trigger spec_restore_arguments(snapshot_id, target, paths)[5 + 2 * k]]
        0 <= k < paths.len() implies spec_restore_arguments(snapshot_id, target, paths)[5 + 2 * k]
            == "--include"@ && spec_restore_arguments(snapshot_id, target, paths)[6 + 2 * k] == (
        if paths[k].len() > 0 && paths[k][0] == '/' {
            paths[k].skip(1)
        } else {
            paths[k]
        }) by {
        assert(include_at(tail, paths, k));
        assert(spec_restore_arguments(snapshot_id, target, paths)[5 + 2 * k] == tail[2 * k]);
        assert(spec_restore_arguments(snapshot_id, target, paths)[6 + 2 * k] == tail[2 * k + 1]);
    }
}

/// What each line of a Restore's output means: a non-JSON line is kept in the
/// diagnostics as it is; an `error` message keeps its error's message and an
/// `exit_error` message its message; a `summary` message reports its counts; only a
/// `status` message is progress; and nothing else is kept or reported.
pub proof fn lemma_what_each_line_means(line: RestoreLine)
    ensures
        line matches RestoreLine::Text(text) ==> line_note(line) == text@ + "\n"@ && line_summary(
            line,
        ) is None && !line_reports_progress(line),
        line matches RestoreLine::Json { message_type, status, summary, error_message, message }
            ==> {
            &&& line_reports_progress(line) <==> (message_type matches Some(t) && t@ == "status"@
                && status)
            &&& line_summary(line) == (if message_type matches Some(t) && t@ == "summary"@ {
                summary
            } else {
                None
            })
            &&& (message_type matches Some(t) && t@ == "error"@) ==> line_note(line) == (
            match error_message {
                Some(m) => m@ + "\n"@,
                None => Seq::<char>::empty(),
            })
            &&& (message_type matches Some(t) && t@ == "exit_error"@) ==> line_note(line) == (
            match message {
                Some(m) => m@ + "\n"@,
                None => Seq::<char>::empty(),
            })
            &&& !(message_type matches Some(t) && (t@ == "error"@ || t@ == "exit_error"@))
                ==> line_note(line) == Seq::<char>::empty()
        },
{
    reveal_strlit("error");
    reveal_strlit("exit_error");
    assert("error"@.len() == 5);
    assert("exit_error"@.len() == 10);
}

} // verus!
