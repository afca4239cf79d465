use tauri_plugin_sqlite::url::sqlite_url;
use std::path::PathBuf;
use tauri_plugin_sqlite::error::DbError;
use tauri_plugin_sqlite::url::{check_db_url, path_mapper, split_url};

fn s(x: &str) -> String {
    x.to_string()
}

#[test]
fn url_splits_at_first_colon() {
    assert_eq!(split_url("sqlite:a:b.db"), Some((s("sqlite"), s("a:b.db"))));
    assert_eq!(split_url(":x"), Some((s(""), s("x"))));
    assert_eq!(split_url("nocolon"), None);
}

#[test]
fn sqlite_url_is_accepted() {
    assert_eq!(check_db_url("sqlite:app.db"), Ok(s("app.db")));
}

#[test]
fn other_scheme_is_invalid() {
    assert_eq!(
        check_db_url("postgres://localhost/db"),
        Err(DbError::InvalidDbUrl(s("postgres://localhost/db")))
    );
    assert_eq!(check_db_url("SQLITE:a.db"), Err(DbError::InvalidDbUrl(s("SQLITE:a.db"))));
}

#[test]
fn url_without_colon_is_invalid() {
    assert_eq!(check_db_url("app.db"), Err(DbError::InvalidDbUrl(s("app.db"))));
    assert_eq!(
        path_mapper(PathBuf::from("/data"), "app.db"),
        Err(DbError::InvalidDbUrl(s("app.db")))
    );
}

#[test]
fn path_is_placed_in_app_directory() {
    let expected = format!("sqlite:{}", PathBuf::from("/data").join("app.db").to_str().unwrap());
    assert_eq!(path_mapper(PathBuf::from("/data"), "sqlite:app.db"), Ok(expected));
}

#[test]
fn sqlite_url_prefixes_the_path() {
    assert_eq!(sqlite_url("/data/app.db"), s("sqlite:/data/app.db"));
    assert_eq!(sqlite_url(""), s("sqlite:"));
}

#[test]
fn path_mapper_splits_at_first_colon_and_drops_scheme() {
    let expected = format!("sqlite:{}", PathBuf::from("/data").join("a:b.db").to_str().unwrap());
    assert_eq!(path_mapper(PathBuf::from("/data"), "sqlite:a:b.db"), Ok(expected.clone()));
    assert_eq!(path_mapper(PathBuf::from("/data"), "other:a:b.db"), Ok(expected));
}
