use tauri_plugin_sqlite::codec::{rows_to_vec, Cell, DynValue, JsonNumber};
use tauri_plugin_sqlite::registry::Registry;
use tauri_plugin_sqlite::slots::SlotTable;
use tauri_plugin_sqlite::url::check_db_url;

/// A stand-in for a table of one integer column: committed rows, and the
/// rows a transaction has written but not committed.
struct Table {
    rows: Vec<i64>,
}

struct Pending {
    db: String,
    rows: Vec<i64>,
}

#[test]
fn rolled_back_insert_is_not_observed() {
    let db = "sqlite:app.db".to_string();
    assert_eq!(check_db_url(&db), Ok("app.db".to_string()));
    let mut registry: Registry<Table, ()> = Registry::new();
    registry.install(db.clone(), Table { rows: vec![] });
    let mut slots: SlotTable<Pending> = SlotTable::new();

    let h = slots.begin(Pending { db: db.clone(), rows: vec![] });
    assert_eq!(h, 0);
    slots.transaction_mut(h).rows.push(1);
    let rolled_back = slots.retire(h);
    assert_eq!(rolled_back.db, db);
    assert!(!slots.is_handle_open(h));

    let count = registry.pool(&db).unwrap().rows.len() as i64;
    let out = rows_to_vec(&vec![vec![("c".to_string(), Cell::Integer(count))]]).unwrap();
    assert_eq!(out.len(), 1);
    assert_eq!(
        out[0].get_index(0),
        Some((&"c".to_string(), &DynValue::Number(JsonNumber::PosInt(0))))
    );
}
