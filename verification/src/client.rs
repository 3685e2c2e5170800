//! How the app calls restic and reads what it answers: the command line and
//! environment of a call, the verdict on how a call ended, and the Entries of one
//! directory picked out of `restic ls --json`.
//!
//! Starting the process and decoding each JSON line happen in the application; the
//! decisions about them are made here.

use vstd::prelude::*;

use crate::paths::{is_direct_child, is_direct_child_of};
use crate::types::{
    pairs_view, spec_environment, spec_repository_argument, strings_view, Entry, EntryKind,
    RepositoryConnection, ResticError,
};

verus! {

/// Whether two strings hold the same characters.
pub fn same_text(a: &str, b: &str) -> (same: bool)
    ensures
        same == (a@ == b@),
{
    let a = a.to_owned();
    let b = b.to_owned();
    a == b
}

/// Runs restic subcommands through the restic binary at a given path (or the one
/// found on `$PATH`).
#[derive(Debug, Clone, PartialEq, Eq)]
pub struct RealResticClient {
    binary: String,
}

impl RealResticClient {
    /// The restic binary this client runs.
    pub closed spec fn spec_binary(&self) -> Seq<char> {
        self.binary@
    }

    /// A client that runs the restic binary at `binary`.
    pub fn new(binary: String) -> (client: RealResticClient)
        ensures
            client.spec_binary() == binary@,
    {
        RealResticClient { binary }
    }

    /// Uses whatever `restic` is resolved on `$PATH`. Inside the Flatpak sandbox this
    /// resolves to the bundled `/app/bin/restic`.
    pub fn system() -> (client: RealResticClient)
        ensures
            client.spec_binary() == "restic"@,
    {
        RealResticClient::new(String::from_str("restic"))
    }

    /// The restic binary this client runs.
    pub fn binary(&self) -> (binary: &str)
        ensures
            binary@ == self.spec_binary(),
    {
        self.binary.as_str()
    }

    /// The full command line of a call with `args`: the binary, then the arguments.
    pub fn command_line(&self, args: &Vec<String>) -> (argv: Vec<String>)
        ensures
            strings_view(argv@) == seq![self.spec_binary()] + strings_view(args@),
    {
        let mut argv: Vec<String> = Vec::new();
        argv.push(self.binary.clone());
        let mut i: usize = 0;
        while i < args.len()
            invariant
                i <= args@.len(),
                strings_view(argv@) == seq![self.binary@] + strings_view(args@.take(i as int)),
            decreases args@.len() - i,
        {
            let ghost before = argv@;
            argv.push(args[i].clone());
            assert(strings_view(argv@) =~= strings_view(before).push(args@[i as int]@));
            assert(args@.take(i + 1) =~= args@.take(i as int).push(args@[i as int]));
            assert(strings_view(args@.take(i + 1)) =~= strings_view(args@.take(i as int)).push(
                args@[i as int]@,
            ));
            assert(strings_view(argv@) =~= seq![self.binary@] + strings_view(args@.take(i + 1)));
            i = i + 1;
        }
        assert(args@.take(i as int) =~= args@);
        argv
    }
}

impl RepositoryConnection {
    /// Every environment variable restic is started with for this connection: those of
    /// [`RepositoryConnection::environment`], then `RESTIC_REPOSITORY`.
    pub fn launch_environment(&self) -> (env: Vec<(String, String)>)
        ensures
            pairs_view(env@) == spec_environment(*self).push(
                ("RESTIC_REPOSITORY"@, spec_repository_argument(self.backend)),
            ),
    {
        let mut env = self.environment();
        let ghost before = env@;
        env.push((String::from_str("RESTIC_REPOSITORY"), self.repository_argument()));
        assert(pairs_view(env@) =~= pairs_view(before).push(
            ("RESTIC_REPOSITORY"@, spec_repository_argument(self.backend)),
        ));
        env
    }
}

/// The arguments that list a Repository's Snapshots.
pub fn snapshots_arguments() -> (args: Vec<String>)
    ensures
        strings_view(args@) == seq!["snapshots"@, "--json"@],
{
    let args = vec![String::from_str("snapshots"), String::from_str("--json")];
    assert(strings_view(args@) =~= seq!["snapshots"@, "--json"@]);
    args
}

/// The arguments that list the whole tree of a Snapshot.
pub fn ls_arguments(snapshot_id: &str) -> (args: Vec<String>)
    ensures
        strings_view(args@) == seq!["ls"@, snapshot_id@, "--json"@],
{
    let args = vec![String::from_str("ls"), snapshot_id.to_owned(), String::from_str("--json")];
    assert(strings_view(args@) =~= seq!["ls"@, snapshot_id@, "--json"@]);
    args
}

/// The characters of `text`, or none when it is missing.
pub open spec fn text_or_empty(text: Option<String>) -> Seq<char> {
    match text {
        Some(s) => s@,
        None => Seq::empty(),
    }
}

/// How a finished restic call ends: its standard output when it exited with status
/// 0, otherwise a [`ResticError::NonZeroExit`] with the status and its standard error.
/// Missing output counts as empty.
pub fn run_outcome(exit_status: i32, stdout: Option<String>, stderr: Option<String>) -> (outcome:
    Result<String, ResticError>)
    ensures
        exit_status == 0 ==> (outcome matches Ok(out) && out@ == text_or_empty(stdout)),
        exit_status != 0 ==> (outcome matches Err(ResticError::NonZeroExit { code, stderr: text })
            && code == Some(exit_status) && text@ == text_or_empty(stderr)),
{
    if exit_status != 0 {
        let text = match stderr {
            Some(s) => s,
            None => String::new(),
        };
        return Err(ResticError::NonZeroExit { code: Some(exit_status), stderr: text });
    }
    match stdout {
        Some(s) => Ok(s),
        None => Ok(String::new()),
    }
}

/// The kind of Entry a node `type` of `restic ls` stands for.
pub open spec fn spec_entry_kind(node_type: Seq<char>) -> EntryKind {
    if node_type == "dir"@ {
        EntryKind::Directory
    } else if node_type == "symlink"@ {
        EntryKind::Symlink
    } else {
        EntryKind::File
    }
}

/// The kind of Entry a node `type` of `restic ls` stands for: `dir` and `symlink`
/// are themselves, anything else is a file.
pub fn entry_kind_of(node_type: &str) -> (kind: EntryKind)
    ensures
        kind == spec_entry_kind(node_type@),
{
    if same_text(node_type, "dir") {
        EntryKind::Directory
    } else if same_text(node_type, "symlink") {
        EntryKind::Symlink
    } else {
        EntryKind::File
    }
}

/// A `node` line of `restic ls --json`, decoded.
#[derive(Debug, Clone, PartialEq, Eq)]
pub struct NodeLine {
    pub name: String,
    /// restic's node type: `file`, `dir`, `symlink`, ...
    pub kind: String,
    pub path: String,
    pub size: Option<u64>,
    pub mtime: String,
}

/// One line of `restic ls --json`, as far as it could be decoded.
#[derive(Debug, PartialEq, Eq)]
pub enum LsLine {
    /// The line is not JSON; the text says why.
    Unreadable(String),
    /// A JSON message: its `message_type` when that is a string, and the line decoded
    /// as a node, or why it is not one.
    Message { message_type: Option<String>, node: Result<NodeLine, String> },
}

/// The Entry a node stands for.
pub open spec fn node_entry(node: NodeLine) -> Entry {
    Entry {
        name: node.name,
        path: node.path,
        kind: spec_entry_kind(node.kind@),
        size: node.size,
        mtime: node.mtime,
    }
}

/// Reading the lines of `restic ls --json` in order for the direct children of
/// `dir`: the first line that is not JSON, or that is a `node` message that does not
/// decode as a node, stops the reading with its text; other messages are passed
/// over; each node directly inside `dir` gives an Entry, in order.
pub open spec fn ls_children(lines: Seq<LsLine>, dir: Seq<char>) -> Result<Seq<Entry>, Seq<char>>
    decreases lines.len(),
{
    if lines.len() == 0 {
        Ok(Seq::empty())
    } else {
        match ls_children(lines.drop_last(), dir) {
            Err(why) => Err(why),
            Ok(found) => match lines.last() {
                LsLine::Unreadable(why) => Err(why@),
                LsLine::Message { message_type, node } => {
                    if message_type matches Some(t) && t@ == "node"@ {
                        match node {
                            Err(why) => Err(why@),
                            Ok(n) => if is_direct_child(n.path@, dir) {
                                Ok(found.push(node_entry(n)))
                            } else {
                                Ok(found)
                            },
                        }
                    } else {
                        Ok(found)
                    }
                },
            },
        }
    }
}

/// The Entries directly inside the directory `dir`, from the lines of
/// `restic ls --json`, or a [`ResticError::Parse`] for the first line that could not be
/// read (see [`ls_children`]).
pub fn entries_in(lines: &Vec<LsLine>, dir: &str) -> (entries: Result<Vec<Entry>, ResticError>)
    ensures
        match ls_children(lines@, dir@) {
            Ok(found) => entries matches Ok(v) && v@ == found,
            Err(why) => entries matches Err(ResticError::Parse(text)) && text@ == why,
        },
{
    let mut found: Vec<Entry> = Vec::new();
    let mut i: usize = 0;
    while i < lines.len()
        invariant
            i <= lines@.len(),
            ls_children(lines@.take(i as int), dir@) == Ok::<Seq<Entry>, Seq<char>>(found@),
        decreases lines@.len() - i,
    {
        assert(lines@.take(i + 1).drop_last() =~= lines@.take(i as int));
        assert(lines@.take(i + 1).last() == lines@[i as int]);
        match &lines[i] {
            LsLine::Unreadable(why) => {
                proof { lemma_ls_error_sticks(lines@, dir@, i + 1); }
                return Err(ResticError::Parse(why.clone()));
            },
            LsLine::Message { message_type, node } => {
                let is_node = match message_type {
                    Some(t) => same_text(t.as_str(), "node"),
                    None => false,
                };
                if is_node {
                    match node {
                        Err(why) => {
                            proof { lemma_ls_error_sticks(lines@, dir@, i + 1); }
                            return Err(ResticError::Parse(why.clone()));
                        },
                        Ok(n) => {
                            if is_direct_child_of(n.path.as_str(), dir) {
                                found.push(
                                    Entry {
                                        name: n.name.clone(),
                                        path: n.path.clone(),
                                        kind: entry_kind_of(n.kind.as_str()),
                                        size: n.size,
                                        mtime: n.mtime.clone(),
                                    },
                                );
                            }
                        },
                    }
                }
            },
        }
        i = i + 1;
    }
    assert(lines@.take(i as int) =~= lines@);
    Ok(found)
}

/// Once reading stops at a line, the lines after it change nothing.
proof fn lemma_ls_error_sticks(lines: Seq<LsLine>, dir: Seq<char>, k: int)
    requires
        0 <= k <= lines.len(),
        ls_children(lines.take(k), dir) is Err,
    ensures
        ls_children(lines, dir) == ls_children(lines.take(k), dir),
    decreases lines.len() - k,
{
    if k < lines.len() {
        assert(lines.take(k + 1).drop_last() =~= lines.take(k));
        lemma_ls_error_sticks(lines, dir, k + 1);
    } else {
        assert(lines.take(k) =~= lines);
    }
}

/// Every Entry listed for a directory sits directly inside it, and carries the kind
/// its node type stands for.
pub proof fn lemma_listed_entries_are_children(lines: Seq<LsLine>, dir: Seq<char>)
    ensures
        ls_children(lines, dir) matches Ok(found) ==> forall|i: int|
            0 <= i < found.len() ==> is_direct_child(#[trigger] found[i].path@, dir),
    decreases lines.len(),
{
    if lines.len() > 0 {
        lemma_listed_entries_are_children(lines.drop_last(), dir);
        if let Ok(found) = ls_children(lines, dir) {
            if let Ok(before) = ls_children(lines.drop_last(), dir) {
                assert forall|i: int| 0 <= i < found.len() implies is_direct_child(
                    #[trigger] found[i].path@,
                    dir,
                ) by {
                    if i < before.len() {
                        assert(found[i] == before[i]);
                    }
                }
            }
        }
    }
}

/// Lines that are not node messages (restic's other messages) add nothing to the
/// listing and stop nothing.
pub proof fn lemma_other_messages_are_passed_over(
    lines: Seq<LsLine>,
    line: LsLine,
    dir: Seq<char>,
)
    requires
        line matches LsLine::Message { message_type, .. } && !(message_type matches Some(t) && t@
            == "node"@),
    ensures
        ls_children(lines.push(line), dir) == ls_children(lines, dir),
{
    assert(lines.push(line).drop_last() =~= lines);
}

/// Whether `line` is a `node` message that decodes as the node `n`.
pub open spec fn is_node_line(line: LsLine, n: NodeLine) -> bool {
    line matches LsLine::Message { message_type: Some(t), node: Ok(m) } && t@ == "node"@ && m == n
}

/// The listing is complete: when the output reads without error, every node message
/// whose path sits directly inside `dir` is listed, as an Entry with the node's name,
/// path, kind, size and modification time.
pub proof fn lemma_every_child_node_is_listed(lines: Seq<LsLine>, dir: Seq<char>)
    ensures
        ls_children(lines, dir) matches Ok(found) ==> forall|i: int, n: NodeLine|
            #![trigger is_node_line(lines[i], n)]
            0 <= i < lines.len() && is_node_line(lines[i], n) && is_direct_child(n.path@, dir)
                ==> exists|j: int|
                0 <= j < found.len() && #[trigger] found[j] == (Entry {
                    name: n.name,
                    path: n.path,
                    kind: spec_entry_kind(n.kind@),
                    size: n.size,
                    mtime: n.mtime,
                }),
    decreases lines.len(),
{
    if lines.len() > 0 {
        let rest = lines.drop_last();
        lemma_every_child_node_is_listed(rest, dir);
        if let Ok(found) = ls_children(lines, dir) {
            if let Ok(before) = ls_children(rest, dir) {
                assert(before.len() <= found.len());
                assert forall|j: int| 0 <= j < before.len() implies found[j] == before[j] by {}
                assert forall|i: int, n: NodeLine|
                    #![trigger is_node_line(lines[i], n)]
                    0 <= i < lines.len() && is_node_line(lines[i], n) && is_direct_child(
                        n.path@,
                        dir,
                    ) implies exists|j: int|
                    0 <= j < found.len() && #[trigger] found[j] == (Entry {
                        name: n.name,
                        path: n.path,
                        kind: spec_entry_kind(n.kind@),
                        size: n.size,
                        mtime: n.mtime,
                    }) by {
                    let e = Entry {
                        name: n.name,
                        path: n.path,
                        kind: spec_entry_kind(n.kind@),
                        size: n.size,
                        mtime: n.mtime,
                    };
                    if i < rest.len() {
                        assert(rest[i] == lines[i]);
                        assert(is_node_line(rest[i], n));
                        let j = choose|j: int| 0 <= j < before.len() && #[trigger] before[j] == e;
                        assert(found[j] == e);
                    } else {
                        assert(found[found.len() - 1] == e);
                    }
                }
            }
        }
    }
}

/// The listing fails exactly when some line is not JSON, or is a `node` message that
/// does not decode as a node.
pub open spec fn is_failing_line(line: LsLine) -> bool {
    match line {
        LsLine::Unreadable(_) => true,
        LsLine::Message { message_type: Some(t), node: Err(_) } => t@ == "node"@,
        _ => false,
    }
}

/// Reading fails if and only if one of the lines cannot be read.
pub proof fn lemma_listing_fails_only_on_unreadable_lines(lines: Seq<LsLine>, dir: Seq<char>)
    ensures
        ls_children(lines, dir) is Err <==> exists|i: int|
            0 <= i < lines.len() && #[trigger] is_failing_line(lines[i]),
    decreases lines.len(),
{
    if lines.len() > 0 {
        let rest = lines.drop_last();
        lemma_listing_fails_only_on_unreadable_lines(rest, dir);
        let last = lines.len() - 1;
        assert(lines[last] == lines.last());
        if is_failing_line(lines[last]) {
            assert(exists|i: int| 0 <= i < lines.len() && #[trigger] is_failing_line(lines[i]));
        }
        if exists|i: int| 0 <= i < rest.len() && #[trigger] is_failing_line(rest[i]) {
            let i = choose|i: int| 0 <= i < rest.len() && #[trigger] is_failing_line(rest[i]);
            assert(lines[i] == rest[i]);
        }
        if exists|i: int| 0 <= i < lines.len() && #[trigger] is_failing_line(lines[i]) {
            let i = choose|i: int| 0 <= i < lines.len() && #[trigger] is_failing_line(lines[i]);
            if i < rest.len() {
                assert(rest[i] == lines[i]);
            }
        }
    }
}

/// A node is a directory exactly when restic calls it `dir`, a symlink exactly when
/// it calls it `symlink`, and a file otherwise.
pub proof fn lemma_entry_kind_follows_node_type(node_type: Seq<char>)
    ensures
        (spec_entry_kind(node_type) == EntryKind::Directory) <==> node_type == "dir"@,
        (spec_entry_kind(node_type) == EntryKind::Symlink) <==> (node_type == "symlink"@
            && node_type != "dir"@),
        (spec_entry_kind(node_type) == EntryKind::File) <==> (node_type != "dir"@ && node_type
            != "symlink"@),
{
}

/// Whether `entry` is the Entry of a node message `line` whose path sits directly
/// inside `dir`: same name, path, size and modification time, and the kind its type
/// stands for.
pub open spec fn is_entry_of_child_node(line: LsLine, dir: Seq<char>, entry: Entry) -> bool {
    exists|n: NodeLine|
        #![trigger is_node_line(line, n)]
        is_node_line(line, n) && is_direct_child(n.path@, dir) && entry == (Entry {
            name: n.name,
            path: n.path,
            kind: spec_entry_kind(n.kind@),
            size: n.size,
            mtime: n.mtime,
        })
}

/// Whether `entry` is the Entry of some node message among `lines` whose path sits
/// directly inside `dir`.
pub open spec fn comes_from_child_node(lines: Seq<LsLine>, dir: Seq<char>, entry: Entry) -> bool {
    exists|i: int| 0 <= i < lines.len() && #[trigger] is_entry_of_child_node(lines[i], dir, entry)
}

/// The listing holds nothing else: every listed Entry comes from a node message, in
/// the output, whose path sits directly inside `dir`.
pub proof fn lemma_every_listed_entry_comes_from_a_child_node(lines: Seq<LsLine>, dir: Seq<char>)
    ensures
        ls_children(lines, dir) matches Ok(found) ==> forall|j: int|
            0 <= j < found.len() ==> #[trigger] comes_from_child_node(lines, dir, found[j]),
    decreases lines.len(),
{
    if lines.len() > 0 {
        let rest = lines.drop_last();
        lemma_every_listed_entry_comes_from_a_child_node(rest, dir);
        if let Ok(found) = ls_children(lines, dir) {
            if let Ok(before) = ls_children(rest, dir) {
                assert forall|j: int| 0 <= j < found.len() implies #[trigger] comes_from_child_node(
                    lines,
                    dir,
                    found[j],
                ) by {
                    if j < before.len() {
                        assert(found[j] == before[j]);
                        assert(comes_from_child_node(rest, dir, before[j]));
                        let i = choose|i: int|
                            0 <= i < rest.len() && #[trigger] is_entry_of_child_node(
                                rest[i],
                                dir,
                                before[j],
                            );
                        assert(lines[i] == rest[i]);
                        assert(is_entry_of_child_node(lines[i], dir, found[j]));
                    } else {
                        let last = lines.len() - 1;
                        assert(lines[last] == lines.last());
                        if let LsLine::Message { node: Ok(n), .. } = lines.last() {
                            assert(is_node_line(lines[last], n));
                        }
                        assert(is_entry_of_child_node(lines[last], dir, found[j]));
                    }
                }
            } else {
                assert(false);
            }
        }
    } else {
        assert(ls_children(lines, dir) == Ok::<Seq<Entry>, Seq<char>>(Seq::empty()));
    }
}

/// The listing keeps the order of the output, one Entry per node message: there is a
/// strictly increasing choice of lines, the `j`-th of which is the node message that
/// the `j`-th Entry comes from, and every node message whose path sits directly inside
/// `dir` is one of the chosen lines.
pub proof fn lemma_listing_follows_the_output(lines: Seq<LsLine>, dir: Seq<char>) -> (at: Seq<int>)
    ensures
        ls_children(lines, dir) matches Ok(found) ==> {
            &&& at.len() == found.len()
            &&& forall|j: int, k: int| 0 <= j < k < at.len() ==> #[trigger] at[j] < #[trigger] at[k]
            &&& forall|j: int|
                0 <= j < at.len() ==> 0 <= #[trigger] at[j] < lines.len() && is_entry_of_child_node(
                    lines[at[j]],
                    dir,
                    found[j],
                )
            &&& forall|i: int, n: NodeLine|
                #![trigger is_node_line(lines[i], n)]
                0 <= i < lines.len() && is_node_line(lines[i], n) && is_direct_child(n.path@, dir)
                    ==> exists|j: int| 0 <= j < at.len() && #[trigger] at[j] == i
        },
    decreases lines.len(),
{
    if lines.len() == 0 {
        Seq::empty()
    } else {
        let rest = lines.drop_last();
        let before_at = lemma_listing_follows_the_output(rest, dir);
        let last = lines.len() - 1;
        assert(lines[last] == lines.last());
        match (ls_children(rest, dir), ls_children(lines, dir)) {
            (Ok(before), Ok(found)) => {
                assert forall|i: int, n: NodeLine|
                    #![trigger is_node_line(lines[i], n)]
                    0 <= i < rest.len() && is_node_line(lines[i], n) implies is_node_line(
                        rest[i],
                        n,
                    ) by {
                    assert(rest[i] == lines[i]);
                }
                if found.len() == before.len() {
                    assert forall|j: int| 0 <= j < before_at.len() implies is_entry_of_child_node(
                        lines[before_at[j]],
                        dir,
                        found[j],
                    ) by {
                        assert(rest[before_at[j]] == lines[before_at[j]]);
                    }
                    before_at
                } else {
                    let at = before_at.push(last);
                    if let LsLine::Message { node: Ok(n), .. } = lines.last() {
                        assert(is_node_line(lines[last], n));
                    }
                    assert(at[at.len() - 1] == last);
                    assert forall|j: int| 0 <= j < at.len() implies 0 <= #[trigger] at[j]
                        < lines.len() && is_entry_of_child_node(lines[at[j]], dir, found[j]) by {
                        if j < before_at.len() {
                            assert(at[j] == before_at[j]);
                            assert(rest[before_at[j]] == lines[before_at[j]]);
                            assert(found[j] == before[j]);
                        }
                    }
                    assert forall|i: int, n: NodeLine|
                        #![trigger is_node_line(lines[i], n)]
                        0 <= i < lines.len() && is_node_line(lines[i], n) && is_direct_child(
                            n.path@,
                            dir,
                        ) implies exists|j: int| 0 <= j < at.len() && #[trigger] at[j] == i by {
                        if i < rest.len() {
                            let j = choose|j: int| 0 <= j < before_at.len() && #[trigger] before_at[j] == i;
                            assert(at[j] == before_at[j]);
                        } else {
                            assert(at[at.len() - 1] == i);
                        }
                    }
                    at
                }
            },
            _ => Seq::empty(),
        }
    }
}

/// What a line that stops the reading says about itself: the reason it is not JSON,
/// or the reason it does not decode as a node.
pub open spec fn failure_text(line: LsLine) -> Seq<char> {
    match line {
        LsLine::Unreadable(why) => why@,
        LsLine::Message { node: Err(why), .. } => why@,
        _ => Seq::empty(),
    }
}

/// A failed listing reports the first line that cannot be read, with that line's own
/// reason; the position of that line is returned.
pub proof fn lemma_listing_reports_the_first_bad_line(lines: Seq<LsLine>, dir: Seq<char>) -> (at: int)
    ensures
        ls_children(lines, dir) matches Err(why) ==> {
            &&& 0 <= at < lines.len()
            &&& is_failing_line(lines[at])
            &&& forall|i: int| 0 <= i < at ==> !is_failing_line(#[trigger] lines[i])
            &&& why == failure_text(lines[at])
        },
    decreases lines.len(),
{
    if lines.len() == 0 {
        0
    } else {
        let rest = lines.drop_last();
        let last = lines.len() - 1;
        assert(lines[last] == lines.last());
        if ls_children(rest, dir) is Err {
            let at = lemma_listing_reports_the_first_bad_line(rest, dir);
            assert(lines[at] == rest[at]);
            assert forall|i: int| 0 <= i < at implies !is_failing_line(#[trigger] lines[i]) by {
                assert(lines[i] == rest[i]);
            }
            at
        } else {
            lemma_listing_fails_only_on_unreadable_lines(rest, dir);
            assert forall|i: int| 0 <= i < last implies !is_failing_line(#[trigger] lines[i]) by {
                assert(lines[i] == rest[i]);
                if is_failing_line(rest[i]) {
                    assert(exists|k: int| 0 <= k < rest.len() && #[trigger] is_failing_line(rest[k]));
                }
            }
            last
        }
    }
}

} // verus!
