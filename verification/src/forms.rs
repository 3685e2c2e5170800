//! The decisions of the app's two forms: adding a Repository (pick a Backend, name
//! it, give its Repository Password) and starting a Restore (pick a Target
//! Directory, or restore to the original location), with the texts a Restore shows.
//!
//! SFTP has no credential field: restic's SFTP backend relies on the system SSH
//! client, with keys or an agent already set up on the host.

use vstd::prelude::*;

use crate::text::{decimal, decimal_text, spec_error_message};
use crate::types::{Backend, ResticError, RestoreOutcome};

verus! {

/// The position of the Local Backend in the Backend choice.
pub const BACKEND_LOCAL: u32 = 0;

/// The position of the SFTP Backend in the Backend choice.
pub const BACKEND_SFTP: u32 = 1;

/// The position of the S3-compatible Backend in the Backend choice.
pub const BACKEND_S3: u32 = 2;

/// What the "Add Repository" form holds.
#[derive(Debug, Clone, PartialEq, Eq)]
pub struct AddRepositoryForm {
    pub name: String,
    pub password: String,
    /// The position of the chosen Backend (any position past SFTP means S3).
    pub backend: u32,
    /// The Local Repository folder, once one was chosen.
    pub chosen_path: Option<String>,
    pub host: String,
    pub sftp_path: String,
    pub user: String,
    pub endpoint: String,
    pub bucket: String,
    pub access_key_id: String,
    pub secret_access_key: String,
}

/// Whether the fields of the chosen Backend are filled in.
pub open spec fn backend_ready(form: AddRepositoryForm) -> bool {
    if form.backend == BACKEND_LOCAL {
        form.chosen_path is Some
    } else if form.backend == BACKEND_SFTP {
        form.host@.len() > 0 && form.sftp_path@.len() > 0 && form.user@.len() > 0
    } else {
        form.endpoint@.len() > 0 && form.bucket@.len() > 0 && form.access_key_id@.len() > 0
            && form.secret_access_key@.len() > 0
    }
}

/// The Backend and Backend secret the form describes, when the chosen Backend's
/// location is known.
pub open spec fn spec_backend_choice(form: AddRepositoryForm) -> Option<(Backend, Option<String>)> {
    if form.backend == BACKEND_LOCAL {
        match form.chosen_path {
            Some(path) => Some((Backend::Local { path }, None)),
            None => None,
        }
    } else if form.backend == BACKEND_SFTP {
        Some((Backend::Sftp { host: form.host, path: form.sftp_path, user: form.user }, None))
    } else {
        Some(
            (
                Backend::S3 {
                    endpoint: form.endpoint,
                    bucket: form.bucket,
                    access_key_id: form.access_key_id,
                },
                Some(form.secret_access_key),
            ),
        )
    }
}

impl AddRepositoryForm {
    /// Whether "Add" can be pressed: a name, a password and the chosen Backend's
    /// fields are all given.
    pub fn is_ready(&self) -> (ready: bool)
        ensures
            ready == (self.name@.len() > 0 && self.password@.len() > 0 && backend_ready(*self)),
    {
        let backend_ready = if self.backend == BACKEND_LOCAL {
            self.chosen_path.is_some()
        } else if self.backend == BACKEND_SFTP {
            !self.host.as_str().is_empty() && !self.sftp_path.as_str().is_empty()
                && !self.user.as_str().is_empty()
        } else {
            !self.endpoint.as_str().is_empty() && !self.bucket.as_str().is_empty()
                && !self.access_key_id.as_str().is_empty()
                && !self.secret_access_key.as_str().is_empty()
        };
        !self.name.as_str().is_empty() && !self.password.as_str().is_empty() && backend_ready
    }

    /// The Backend to attach and the Backend secret to keep in the keyring, or `None`
    /// when the Local Backend is chosen but no folder was picked.
    pub fn backend_choice(&self) -> (choice: Option<(Backend, Option<String>)>)
        ensures
            choice == spec_backend_choice(*self),
    {
        if self.backend == BACKEND_LOCAL {
            match &self.chosen_path {
                Some(path) => Some((Backend::Local { path: path.clone() }, None)),
                None => None,
            }
        } else if self.backend == BACKEND_SFTP {
            Some(
                (
                    Backend::Sftp {
                        host: self.host.clone(),
                        path: self.sftp_path.clone(),
                        user: self.user.clone(),
                    },
                    None,
                ),
            )
        } else {
            Some(
                (
                    Backend::S3 {
                        endpoint: self.endpoint.clone(),
                        bucket: self.bucket.clone(),
                        access_key_id: self.access_key_id.clone(),
                    },
                    Some(self.secret_access_key.clone()),
                ),
            )
        }
    }
}

/// A form that can be submitted always describes a Backend.
pub proof fn lemma_ready_form_has_backend(form: AddRepositoryForm)
    requires
        form.name@.len() > 0 && form.password@.len() > 0 && backend_ready(form),
    ensures
        spec_backend_choice(form) is Some,
{
}

/// Whether "Restore" can be pressed: restoring to the original location, or a Target
/// Directory was chosen.
pub fn restore_ready(original_location: bool, chosen_target: &Option<String>) -> (ready: bool)
    ensures
        ready == (original_location || chosen_target is Some),
{
    original_location || chosen_target.is_some()
}

/// Where the Restore writes: the filesystem root when restoring to the original
/// location (restic recreates the absolute paths under it), else the chosen Target
/// Directory; nothing when neither is given.
pub fn restore_target(original_location: bool, chosen_target: &Option<String>) -> (target: Option<
    String,
>)
    ensures
        original_location ==> (target matches Some(t) && t@ == "/"@),
        !original_location ==> match chosen_target {
            Some(c) => target matches Some(t) && t@ == c@,
            None => target is None,
        },
{
    if original_location {
        Some(String::from_str("/"))
    } else {
        match chosen_target {
            Some(c) => Some(c.clone()),
            None => None,
        }
    }
}

/// The progress line of a running Restore.
pub fn progress_text(files_restored: u64, total_files: u64) -> (text: String)
    ensures
        text@ == decimal(files_restored as nat) + " of "@ + decimal(total_files as nat)
            + " files restored"@,
{
    let mut text = decimal_text(files_restored);
    text.append(" of ");
    text.append(decimal_text(total_files).as_str());
    text.append(" files restored");
    text
}

/// How a finished Restore is reported.
#[derive(Debug, Clone, PartialEq, Eq)]
pub enum RestoreReport {
    /// It succeeded; the status line.
    Done(String),
    /// The user cancelled it; the status line.
    Cancelled(String),
    /// It failed; the error.
    Failed(String),
}

/// How a finished Restore is reported: the number of files restored, its
/// cancellation, or its error.
pub fn restore_report(result: &Result<RestoreOutcome, ResticError>) -> (report: RestoreReport)
    ensures
        match result {
            Ok(outcome) => report matches RestoreReport::Done(t) && t@ == "Restored "@ + decimal(
                outcome.files_restored as nat,
            ) + " files."@,
            Err(ResticError::Cancelled) => report matches RestoreReport::Cancelled(t) && t@
                == "Restore cancelled."@,
            Err(e) => report matches RestoreReport::Failed(t) && t@ == spec_error_message(*e),
        },
{
    match result {
        Ok(outcome) => {
            let mut text = String::from_str("Restored ");
            text.append(decimal_text(outcome.files_restored).as_str());
            text.append(" files.");
            RestoreReport::Done(text)
        },
        Err(ResticError::Cancelled) => RestoreReport::Cancelled(String::from_str("Restore cancelled.")),
        Err(e) => RestoreReport::Failed(e.message()),
    }
}

/// The chosen Backend's fields that must be filled in: a picked folder for Local;
/// host, SFTP path and user for SFTP; endpoint, bucket, access key id and secret key
/// for S3 (any other choice counts as S3).
pub proof fn lemma_backend_ready_needs_every_field(form: AddRepositoryForm)
    ensures
        form.backend == 0 ==> (backend_ready(form) <==> form.chosen_path is Some),
        form.backend == 1 ==> (backend_ready(form) <==> (form.host@.len() > 0
            && form.sftp_path@.len() > 0 && form.user@.len() > 0)),
        form.backend >= 2 ==> (backend_ready(form) <==> (form.endpoint@.len() > 0
            && form.bucket@.len() > 0 && form.access_key_id@.len() > 0
            && form.secret_access_key@.len() > 0)),
{
}

/// The form describes the Backend at the chosen position, built from that Backend's
/// own fields: a Local one from the picked folder (none without one), an SFTP one from
/// host, SFTP path and user, and an S3 one from endpoint, bucket and access key id,
/// whose secret key is the one Backend secret kept.
pub proof fn lemma_backend_choice_uses_the_chosen_fields(form: AddRepositoryForm)
    ensures
        form.backend == 0 ==> match form.chosen_path {
            Some(path) => spec_backend_choice(form) == Some((Backend::Local { path }, None::<String>)),
            None => spec_backend_choice(form) is None,
        },
        form.backend == 1 ==> spec_backend_choice(form) == Some(
            (Backend::Sftp { host: form.host, path: form.sftp_path, user: form.user }, None::<String>),
        ),
        form.backend >= 2 ==> spec_backend_choice(form) == Some(
            (
                Backend::S3 {
                    endpoint: form.endpoint,
                    bucket: form.bucket,
                    access_key_id: form.access_key_id,
                },
                Some(form.secret_access_key),
            ),
        ),
{
}

} // verus!
