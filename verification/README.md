# Restic Viewer

A native GNOME (GTK4 + libadwaita) app for browsing and restoring existing restic
Repositories: it attaches to Repositories backed up elsewhere, lists their Snapshots,
walks their file trees and restores what you need. It never runs backups or changes a
Repository.

## Layout

- `src/` — the `restic_viewer` library, verified with Verus. It holds every decision
  the app makes: the arguments and environment of each restic call, how a call ends,
  which Entries of `restic ls` sit in a directory (paths compared by component), how a
  Restore's stream of JSON lines turns into progress, an outcome or an error report,
  how the list of known Repositories changes, the keyring attributes of a secret, and
  the text shown in the interface.
  - `types` — Backends, connections, Snapshots, Entries, Restore requests and errors.
  - `config` — the list of Repositories (add, rename, remove) and its laws.
  - `keyring` — credential kinds, keyring attributes and labels.
  - `paths` — path components and the "directly inside" relation.
  - `client` — command lines, environments, call outcomes and tree listings.
  - `restore` — Restore arguments and the reading of a Restore's output.
  - `entry_tree`, `detail`, `forms` — the decisions of the browser, the detail pane
    and the two dialogs.
  - `text` — decimal numbers, timestamps and joined lists.
  - `fake` — a canned stand-in for restic.
- `tests/` — tests of the library on concrete values.
- `app/` — the GTK application around the library: windows and dialogs, spawning
  restic through GIO, decoding its JSON with serde, the TOML config file and the
  libsecret keyring.
