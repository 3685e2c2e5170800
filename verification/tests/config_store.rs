use restic_viewer::config::{RepositoryEntry, RepositoryStore};
use restic_viewer::types::Backend;

const CONFIG_PATH: &str = "/tmp/restic-viewer/repositories.toml";

fn entry(id: &str) -> RepositoryEntry {
    RepositoryEntry {
        id: id.to_string(),
        name: format!("Repo {id}"),
        backend: Backend::Local {
            path: format!("/tmp/{id}"),
        },
    }
}

#[test]
fn round_trips_through_the_config_file() {
    let mut store = RepositoryStore::at_path(CONFIG_PATH.to_string());

    assert_eq!(store.load(), Vec::new());

    store.add(entry("a"));
    store.add(entry("b"));

    let loaded = store.load();
    assert_eq!(loaded, vec![entry("a"), entry("b")]);
}

#[test]
fn rename_updates_only_the_matching_entry() {
    let mut store = RepositoryStore::at_path(CONFIG_PATH.to_string());
    store.add(entry("a"));
    store.add(entry("b"));

    store.rename("a", "New Name");

    let loaded = store.load();
    assert_eq!(loaded[0].name, "New Name");
    assert_eq!(loaded[1].name, "Repo b");
}

#[test]
fn remove_deletes_only_the_matching_entry() {
    let mut store = RepositoryStore::at_path(CONFIG_PATH.to_string());
    store.add(entry("a"));
    store.add(entry("b"));

    store.remove("a");

    assert_eq!(store.load(), vec![entry("b")]);
}

#[test]
fn a_store_keeps_its_path_through_changes() {
    let mut store = RepositoryStore::at_path(CONFIG_PATH.to_string());
    store.add(entry("a"));
    store.rename("a", "x");
    store.remove("a");
    assert_eq!(store.path(), CONFIG_PATH);
}

#[test]
fn a_store_starts_from_loaded_entries() {
    let store = RepositoryStore::with_entries(CONFIG_PATH.to_string(), vec![entry("x"), entry("y")]);
    assert_eq!(store.load(), vec![entry("x"), entry("y")]);
}

#[test]
fn rename_of_an_unknown_id_changes_nothing() {
    let mut store = RepositoryStore::at_path(CONFIG_PATH.to_string());
    store.add(entry("a"));
    store.add(entry("b"));
    store.rename("zzz", "Other");
    assert_eq!(store.load(), vec![entry("a"), entry("b")]);
}

#[test]
fn rename_touches_only_the_first_entry_with_the_id() {
    let mut store = RepositoryStore::at_path(CONFIG_PATH.to_string());
    store.add(entry("a"));
    store.add(entry("b"));
    store.add(entry("a"));
    store.rename("a", "First");
    let loaded = store.load();
    assert_eq!(loaded[0].name, "First");
    assert_eq!(loaded[0].id, "a");
    assert_eq!(loaded[0].backend, entry("a").backend);
    assert_eq!(loaded[1], entry("b"));
    assert_eq!(loaded[2], entry("a"));
}

#[test]
fn remove_drops_every_entry_with_the_id_and_keeps_the_order() {
    let mut store = RepositoryStore::at_path(CONFIG_PATH.to_string());
    store.add(entry("a"));
    store.add(entry("b"));
    store.add(entry("a"));
    store.add(entry("c"));
    store.remove("a");
    assert_eq!(store.load(), vec![entry("b"), entry("c")]);
    store.remove("a");
    assert_eq!(store.load(), vec![entry("b"), entry("c")]);
}

#[test]
fn removing_a_new_entry_undoes_adding_it() {
    let mut store = RepositoryStore::at_path(CONFIG_PATH.to_string());
    store.add(entry("a"));
    store.add(entry("b"));
    let before = store.load();
    store.add(entry("new"));
    store.remove("new");
    assert_eq!(store.load(), before);
}

#[test]
fn rename_then_remove_is_remove() {
    let mut renamed = RepositoryStore::at_path(CONFIG_PATH.to_string());
    renamed.add(entry("a"));
    renamed.add(entry("b"));
    let mut plain = RepositoryStore::with_entries(CONFIG_PATH.to_string(), renamed.load());
    renamed.rename("b", "Renamed");
    renamed.remove("b");
    plain.remove("b");
    assert_eq!(renamed.load(), plain.load());
}
