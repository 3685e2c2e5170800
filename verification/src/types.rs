//! The values exchanged with restic: Backends, connections, Snapshots, Entries and
//! Restore requests and outcomes.

use vstd::prelude::*;

verus! {

/// The storage location type a Repository lives on.
#[derive(Debug, Clone, PartialEq, Eq)]
pub enum Backend {
    Local { path: String },
    Sftp { host: String, path: String, user: String },
    S3 { endpoint: String, bucket: String, access_key_id: String },
}

impl Backend {
    /// A copy of this Backend, field for field.
    pub fn duplicate(&self) -> (copy: Backend)
        ensures
            copy == *self,
    {
        match self {
            Backend::Local { path } => Backend::Local { path: path.clone() },
            Backend::Sftp { host, path, user } => Backend::Sftp {
                host: host.clone(),
                path: path.clone(),
                user: user.clone(),
            },
            Backend::S3 { endpoint, bucket, access_key_id } => Backend::S3 {
                endpoint: endpoint.clone(),
                bucket: bucket.clone(),
                access_key_id: access_key_id.clone(),
            },
        }
    }
}

/// Everything needed to invoke restic against one Repository for a single call.
///
/// Carries secrets in memory only for the duration of the call: callers fetch the
/// Repository Password and any Backend credential from the keyring immediately before
/// building this, and never persist it themselves.
#[derive(Debug, Clone)]
pub struct RepositoryConnection {
    pub backend: Backend,
    pub password: String,
    /// The Backend-specific secret (S3 secret access key). `None` for backends that
    /// authenticate another way (e.g. SFTP via SSH agent/key file).
    pub backend_secret: Option<String>,
}

/// The characters of a list of string pairs.
pub open spec fn pairs_view(pairs: Seq<(String, String)>) -> Seq<(Seq<char>, Seq<char>)> {
    pairs.map_values(|p: (String, String)| (p.0@, p.1@))
}

/// The `RESTIC_REPOSITORY` value that selects `backend`.
pub open spec fn spec_repository_argument(backend: Backend) -> Seq<char> {
    match backend {
        Backend::Local { path } => path@,
        Backend::Sftp { host, path, user } => "sftp:"@ + user@ + "@"@ + host@ + ":"@ + path@,
        Backend::S3 { endpoint, bucket, .. } => "s3:"@ + endpoint@ + "/"@ + bucket@,
    }
}

/// The environment restic needs for `conn`, besides `RESTIC_REPOSITORY`: the
/// Repository Password, then for S3 the access key id and, when known, the secret key.
pub open spec fn spec_environment(conn: RepositoryConnection) -> Seq<(Seq<char>, Seq<char>)> {
    let base = seq![("RESTIC_PASSWORD"@, conn.password@)];
    match conn.backend {
        Backend::S3 { access_key_id, .. } => match conn.backend_secret {
            Some(secret) => base.push(("AWS_ACCESS_KEY_ID"@, access_key_id@)).push(
                ("AWS_SECRET_ACCESS_KEY"@, secret@),
            ),
            None => base.push(("AWS_ACCESS_KEY_ID"@, access_key_id@)),
        },
        _ => base,
    }
}

impl RepositoryConnection {
    /// The value of `RESTIC_REPOSITORY` for this connection's Backend.
    pub fn repository_argument(&self) -> (arg: String)
        ensures
            arg@ == spec_repository_argument(self.backend),
    {
        match &self.backend {
            Backend::Local { path } => path.clone(),
            Backend::Sftp { host, path, user } => {
                let mut arg = String::from_str("sftp:");
                arg.append(user.as_str());
                arg.append("@");
                arg.append(host.as_str());
                arg.append(":");
                arg.append(path.as_str());
                arg
            },
            Backend::S3 { endpoint, bucket, .. } => {
                let mut arg = String::from_str("s3:");
                arg.append(endpoint.as_str());
                arg.append("/");
                arg.append(bucket.as_str());
                arg
            },
        }
    }

    /// The environment variables (name, value) restic is started with, in order.
    pub fn environment(&self) -> (env: Vec<(String, String)>)
        ensures
            pairs_view(env@) == spec_environment(*self),
    {
        let mut env: Vec<(String, String)> = Vec::new();
        env.push((String::from_str("RESTIC_PASSWORD"), self.password.clone()));
        if let Backend::S3 { access_key_id, .. } = &self.backend {
            env.push((String::from_str("AWS_ACCESS_KEY_ID"), access_key_id.clone()));
            if let Some(secret) = &self.backend_secret {
                env.push((String::from_str("AWS_SECRET_ACCESS_KEY"), secret.clone()));
            }
        }
        assert(pairs_view(env@) =~= spec_environment(*self));
        env
    }
}

/// A single point-in-time backup recorded inside a Repository.
#[derive(Debug, Clone, PartialEq, Eq)]
pub struct Snapshot {
    pub id: String,
    pub time: String,
    pub hostname: String,
    pub tags: Vec<String>,
    pub paths: Vec<String>,
}

/// What kind of node an Entry is.
#[derive(Debug, Clone, Copy, PartialEq, Eq, Structural)]
pub enum EntryKind {
    File,
    Directory,
    Symlink,
}

/// A file or directory inside a Snapshot's tree.
#[derive(Debug, Clone, PartialEq, Eq)]
pub struct Entry {
    pub name: String,
    pub path: String,
    pub kind: EntryKind,
    pub size: Option<u64>,
    pub mtime: String,
}

/// A Restore of either a specific set of Entries or an entire Snapshot.
#[derive(Debug, Clone, PartialEq, Eq)]
pub struct RestoreRequest {
    pub snapshot_id: String,
    /// Empty means restore the whole Snapshot.
    pub include_paths: Vec<String>,
    /// The Target Directory.
    pub target: String,
}

/// What a finished Restore reports.
#[derive(Debug, Clone, Copy, PartialEq, Eq, Structural)]
pub struct RestoreOutcome {
    pub files_restored: u64,
    pub bytes_restored: u64,
}

impl Default for RestoreOutcome {
    /// Nothing restored.
    fn default() -> (outcome: RestoreOutcome)
        ensures
            outcome.files_restored == 0,
            outcome.bytes_restored == 0,
    {
        RestoreOutcome { files_restored: 0, bytes_restored: 0 }
    }
}

/// Why a restic call failed.
#[derive(Debug, Clone, PartialEq, Eq)]
pub enum ResticError {
    /// restic could not be started, or its output could not be read; the text says why.
    Spawn(String),
    /// restic ran and exited unsuccessfully, with what it said about it.
    NonZeroExit { code: Option<i32>, stderr: String },
    /// restic's output was not what was expected; the text says why.
    Parse(String),
    /// The Restore was cancelled by the user.
    Cancelled,
}

/// The characters of each string of a list.
pub open spec fn strings_view(strings: Seq<String>) -> Seq<Seq<char>> {
    strings.map_values(|s: String| s@)
}

/// Whatever the Backend, restic is always given the Repository Password, as the first
/// environment variable; only S3 adds anything (its access key id, then the secret
/// key when one is known), and only from the connection itself.
pub proof fn lemma_environment_always_carries_the_password(conn: RepositoryConnection)
    ensures
        spec_environment(conn).len() >= 1,
        spec_environment(conn)[0] == ("RESTIC_PASSWORD"@, conn.password@),
        !(conn.backend is S3) ==> spec_environment(conn).len() == 1,
        conn.backend is S3 ==> spec_environment(conn).len() >= 2 && spec_environment(conn)[1] == (
            "AWS_ACCESS_KEY_ID"@,
            conn.backend->access_key_id@,
        ) && spec_environment(conn).len() == (if conn.backend_secret is Some {
            3int
        } else {
            2int
        }),
        conn.backend is S3 && conn.backend_secret is Some ==> spec_environment(conn)[2] == (
            "AWS_SECRET_ACCESS_KEY"@,
            conn.backend_secret->0@,
        ),
{
}

/// The repository argument of a Local Backend is its path; an SFTP one names user,
/// host and path; an S3 one names endpoint and bucket.
pub proof fn lemma_repository_argument_names_the_location(backend: Backend)
    ensures
        backend matches Backend::Local { path } ==> spec_repository_argument(backend) == path@,
        backend matches Backend::Sftp { host, path, user } ==> spec_repository_argument(backend)
            == "sftp:"@ + user@ + "@"@ + host@ + ":"@ + path@,
        backend matches Backend::S3 { endpoint, bucket, .. } ==> spec_repository_argument(backend)
            == "s3:"@ + endpoint@ + "/"@ + bucket@,
{
}

} // verus!
