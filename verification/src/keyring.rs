//! What the app stores in the system keyring: per Repository, a Repository Password
//! and possibly a Backend secret, told apart by an attribute. The keyring itself is
//! reached from the application.

use vstd::prelude::*;

verus! {

/// Which secret this is, for a given Repository. Both share one schema, distinguished
/// by this attribute, so a Repository can hold a password and a separate Backend
/// credential (S3 secret key) side by side.
#[derive(Debug, Clone, Copy, PartialEq, Eq, Structural)]
pub enum CredentialKind {
    Password,
    BackendSecret,
}

/// The `kind` attribute value of a secret.
pub open spec fn spec_kind_text(kind: CredentialKind) -> Seq<char> {
    match kind {
        CredentialKind::Password => "password"@,
        CredentialKind::BackendSecret => "backend-secret"@,
    }
}

impl CredentialKind {
    /// The `kind` attribute value of this secret.
    pub fn as_str(self) -> (text: &'static str)
        ensures
            text@ == spec_kind_text(self),
    {
        match self {
            CredentialKind::Password => "password",
            CredentialKind::BackendSecret => "backend-secret",
        }
    }
}

/// The attributes (name, value) that find the secret of kind `kind` of the
/// Repository `repository_id`.
pub fn attributes(repository_id: &str, kind: CredentialKind) -> (attrs: Vec<(String, String)>)
    ensures
        crate::types::pairs_view(attrs@) == seq![
            ("repository-id"@, repository_id@),
            ("kind"@, spec_kind_text(kind)),
        ],
{
    let attrs = vec![
        (String::from_str("repository-id"), repository_id.to_owned()),
        (String::from_str("kind"), kind.as_str().to_owned()),
    ];
    assert(crate::types::pairs_view(attrs@) =~= seq![
        ("repository-id"@, repository_id@),
        ("kind"@, spec_kind_text(kind)),
    ]);
    attrs
}

/// The keyring label of a Repository's password.
pub fn password_label(name: &str) -> (label: String)
    ensures
        label@ == "Restic Viewer: "@ + name@ + " Repository password"@,
{
    let mut label = String::from_str("Restic Viewer: ");
    label.append(name);
    label.append(" Repository password");
    label
}

/// The keyring label of a Repository's Backend secret.
pub fn backend_secret_label(name: &str) -> (label: String)
    ensures
        label@ == "Restic Viewer: "@ + name@ + " Backend secret"@,
{
    let mut label = String::from_str("Restic Viewer: ");
    label.append(name);
    label.append(" Backend secret");
    label
}

/// A Repository's password and its Backend secret are stored side by side: secrets of
/// different kinds are found by different attributes, for any Repository.
pub proof fn lemma_kinds_are_told_apart(a: CredentialKind, b: CredentialKind)
    ensures
        a != b ==> spec_kind_text(a) != spec_kind_text(b),
{
    reveal_strlit("password");
    reveal_strlit("backend-secret");
    assert("password"@.len() == 8);
    assert("backend-secret"@.len() == 14);
}

} // verus!
