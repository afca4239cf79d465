use tauri_plugin_sqlite::error::DbError;
use tauri_plugin_sqlite::registry::Registry;

fn s(x: &str) -> String {
    x.to_string()
}

#[test]
fn migrations_are_taken_by_first_load_only() {
    let mut r: Registry<u32, Vec<&str>> = Registry::new();
    r.add_migrations(s("sqlite:d.db"), vec!["create table t(x int)"]);
    assert_eq!(r.take_migrations(&s("sqlite:d.db")), Some(vec!["create table t(x int)"]));
    assert_eq!(r.take_migrations(&s("sqlite:d.db")), None);
    r.add_migrations(s("sqlite:d.db"), vec!["create table u(y int)"]);
    assert_eq!(r.take_migrations(&s("sqlite:d.db")), Some(vec!["create table u(y int)"]));
}

#[test]
fn close_all_unloads_every_pool() {
    let mut r: Registry<u32, ()> = Registry::new();
    assert_eq!(r.install(s("sqlite:a.db"), 1), None);
    assert_eq!(r.install(s("sqlite:b.db"), 2), None);
    let closed = r.close(None).unwrap();
    assert_eq!(closed, vec![(s("sqlite:a.db"), 1), (s("sqlite:b.db"), 2)]);
    assert_eq!(r.pool(&s("sqlite:a.db")), Err(DbError::DatabaseNotLoaded(s("sqlite:a.db"))));
    assert_eq!(r.pool(&s("sqlite:b.db")), Err(DbError::DatabaseNotLoaded(s("sqlite:b.db"))));
}

#[test]
fn close_one_leaves_the_others() {
    let mut r: Registry<u32, ()> = Registry::new();
    r.install(s("a"), 1);
    r.install(s("b"), 2);
    assert_eq!(r.close(Some(s("a"))), Ok(vec![(s("a"), 1)]));
    assert_eq!(r.pool(&s("b")), Ok(&2));
    assert_eq!(r.pool(&s("a")), Err(DbError::DatabaseNotLoaded(s("a"))));
}

#[test]
fn close_unknown_name_is_not_loaded() {
    let mut r: Registry<u32, ()> = Registry::new();
    r.install(s("a"), 1);
    assert_eq!(r.close(Some(s("z"))), Err(DbError::DatabaseNotLoaded(s("z"))));
    assert_eq!(r.pool(&s("a")), Ok(&1));
}

#[test]
fn install_replaces_and_returns_previous_pool() {
    let mut r: Registry<u32, ()> = Registry::new();
    assert_eq!(r.install(s("a"), 1), None);
    assert_eq!(r.install(s("a"), 9), Some(1));
    assert_eq!(r.pool(&s("a")), Ok(&9));
    assert_eq!(r.close(None).unwrap().len(), 1);
}

#[test]
fn close_all_on_empty_registry_succeeds() {
    let mut r: Registry<u32, ()> = Registry::new();
    assert_eq!(r.close(None), Ok(vec![]));
}
