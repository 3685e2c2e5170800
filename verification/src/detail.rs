//! The Repository list and the detail pane: how a Repository and its Snapshots are
//! described, and which page the detail pane shows as a Snapshot listing starts and
//! ends — including a stale or missing Repository Password, which re-prompts inline,
//! and answers that arrive after another Repository was selected, which are dropped.

use vstd::prelude::*;

use crate::text::{joined, join_with, leading_timestamp, spec_error_message, spec_leading_timestamp};
use crate::types::{Backend, ResticError, Snapshot};

verus! {

/// The exit status restic uses for a wrong Repository Password.
pub const WRONG_PASSWORD_EXIT: i32 = 12;

/// The subtitle of a Repository in the list: where it lives.
pub open spec fn spec_backend_subtitle(backend: Backend) -> Seq<char> {
    match backend {
        Backend::Local { path } => path@,
        Backend::Sftp { host, path, .. } => "sftp:"@ + host@ + ":"@ + path@,
        Backend::S3 { endpoint, bucket, .. } => "s3:"@ + endpoint@ + "/"@ + bucket@,
    }
}

/// The subtitle of a Repository in the list: where it lives.
pub fn backend_subtitle(backend: &Backend) -> (text: String)
    ensures
        text@ == spec_backend_subtitle(*backend),
{
    match backend {
        Backend::Local { path } => path.clone(),
        Backend::Sftp { host, path, .. } => {
            let mut text = String::from_str("sftp:");
            text.append(host.as_str());
            text.append(":");
            text.append(path.as_str());
            text
        },
        Backend::S3 { endpoint, bucket, .. } => {
            let mut text = String::from_str("s3:");
            text.append(endpoint.as_str());
            text.append("/");
            text.append(bucket.as_str());
            text
        },
    }
}

/// The question asked before a Repository is forgotten.
pub fn removal_message(name: &str) -> (text: String)
    ensures
        text@ == "\""@ + name@
            + "\" will be removed from Restic Viewer. The Repository itself and its data are not affected."@,
{
    let mut text = String::from_str("\"");
    text.append(name);
    text.append(
        "\" will be removed from Restic Viewer. The Repository itself and its data are not affected.",
    );
    text
}

/// Whether the Backend needs a secret from the keyring besides the password.
pub fn needs_backend_secret(backend: &Backend) -> (needed: bool)
    ensures
        needed == (backend is S3),
{
    match backend {
        Backend::S3 { .. } => true,
        _ => false,
    }
}

/// The title of a Snapshot's row: when it was taken, down to the second.
pub fn snapshot_title(snapshot: &Snapshot) -> (title: String)
    ensures
        title@ == spec_leading_timestamp(snapshot.time@),
{
    leading_timestamp(snapshot.time.as_str())
}

/// The subtitle of a Snapshot's row: its host, then its tags when it has any.
pub open spec fn spec_snapshot_subtitle(snapshot: Snapshot) -> Seq<char> {
    if snapshot.tags@.len() == 0 {
        snapshot.hostname@
    } else {
        snapshot.hostname@ + " · "@ + joined(snapshot.tags@.map_values(|t: String| t@), ", "@)
    }
}

/// The subtitle of a Snapshot's row (see [`spec_snapshot_subtitle`]).
pub fn snapshot_subtitle(snapshot: &Snapshot) -> (subtitle: String)
    ensures
        subtitle@ == spec_snapshot_subtitle(*snapshot),
{
    let mut subtitle = snapshot.hostname.clone();
    if snapshot.tags.len() > 0 {
        subtitle.append(" · ");
        subtitle.append(join_with(&snapshot.tags, ", ").as_str());
    }
    subtitle
}

/// Whether a failed listing means the Repository Password was wrong, so the pane
/// asks for it again.
pub open spec fn is_wrong_password(error: ResticError) -> bool {
    error matches ResticError::NonZeroExit { code: Some(c), .. } && c == WRONG_PASSWORD_EXIT
}

/// The page the detail pane shows.
#[derive(Debug, Clone, PartialEq, Eq)]
pub enum DetailPage {
    /// Nothing selected.
    Placeholder,
    /// Listing the Snapshots.
    Loading,
    /// Asking for the Repository Password.
    Unlock,
    /// The Snapshot list.
    Snapshots,
    /// The Repository could not be read; the text says why.
    Error(String),
}

/// Which listing of Snapshots the detail pane is waiting for. Each selection (and
/// each clearing of it) starts a new generation; an answer for an older one is
/// dropped.
#[derive(Debug, Clone, Copy, PartialEq, Eq, Structural)]
pub struct DetailLoads {
    pub generation: u64,
}

impl DetailLoads {
    /// No listing started yet.
    pub fn new() -> (loads: DetailLoads)
        ensures
            loads.generation == 0,
    {
        DetailLoads { generation: 0 }
    }

    /// Starts a listing; returns its ticket. The pane shows [`DetailPage::Loading`].
    pub fn start(&mut self) -> (ticket: u64)
        requires
            old(self).generation < u64::MAX,
        ensures
            final(self).generation == old(self).generation + 1,
            ticket == final(self).generation,
    {
        self.generation = self.generation + 1;
        self.generation
    }

    /// Nothing is selected any more: every listing under way becomes stale. The pane
    /// shows [`DetailPage::Placeholder`].
    pub fn clear(&mut self)
        requires
            old(self).generation < u64::MAX,
        ensures
            final(self).generation == old(self).generation + 1,
    {
        self.generation = self.generation + 1;
    }

    /// Whether `ticket` is the listing the pane waits for.
    pub fn is_current(&self, ticket: u64) -> (current: bool)
        ensures
            current == (ticket == self.generation),
    {
        ticket == self.generation
    }

    /// The page to show when the keyring holds no password for the listing `ticket`:
    /// the password prompt, unless the listing is stale.
    pub fn page_without_password(&self, ticket: u64) -> (page: Option<DetailPage>)
        ensures
            ticket == self.generation ==> page == Some(DetailPage::Unlock),
            ticket != self.generation ==> page is None,
    {
        if ticket == self.generation {
            Some(DetailPage::Unlock)
        } else {
            None
        }
    }

    /// The page to show when the listing `ticket` ends — `failure` is `None` when it
    /// succeeded. Nothing, when the listing is stale; the Snapshot list on success;
    /// the password prompt when the password was wrong; otherwise the error.
    pub fn page_after_listing(&self, ticket: u64, failure: Option<&ResticError>) -> (page: Option<
        DetailPage,
    >)
        ensures
            ticket != self.generation ==> page is None,
            ticket == self.generation && failure is Some ==> (page == Some(DetailPage::Unlock)
                <==> (failure->0 matches ResticError::NonZeroExit { code, .. } && code == Some(
                12i32,
            ))),
            ticket == self.generation ==> match failure {
                None => page == Some(DetailPage::Snapshots),
                Some(e) => if is_wrong_password(*e) {
                    page == Some(DetailPage::Unlock)
                } else {
                    page matches Some(DetailPage::Error(text)) && text@ == spec_error_message(*e)
                },
            },
    {
        if ticket != self.generation {
            return None;
        }
        match failure {
            None => Some(DetailPage::Snapshots),
            Some(e) => {
                let wrong_password = match e {
                    ResticError::NonZeroExit { code: Some(c), .. } => *c == WRONG_PASSWORD_EXIT,
                    _ => false,
                };
                if wrong_password {
                    Some(DetailPage::Unlock)
                } else {
                    Some(DetailPage::Error(e.message()))
                }
            },
        }
    }
}

/// A listing answer is shown only if no other listing or clearing started after it:
/// once a newer listing starts, every older ticket is stale for good.
pub proof fn lemma_older_listings_are_dropped(ticket: u64, before: DetailLoads, after: DetailLoads)
    requires
        ticket <= before.generation,
        after.generation > before.generation,
    ensures
        ticket != after.generation,
{
}

/// After a failed listing the password prompt comes back exactly when restic exited
/// with status 12 (a wrong Repository Password); every other failure — an
/// unreachable Repository, a missing one, a spawn or parse error — is shown as an
/// error.
pub proof fn lemma_only_exit_12_asks_for_the_password(error: ResticError)
    ensures
        is_wrong_password(error) <==> (error matches ResticError::NonZeroExit { code, .. } && code
            == Some(12i32)),
{
}

} // verus!
