use sqlx::sqlite::{SqlitePoolOptions, SqliteRow};
use sqlx::{Column, Pool, Row, Sqlite, Transaction};
use tauri_plugin_sqlite::codec::{rows_to_vec, Cell, DynValue, JsonNumber};
use tauri_plugin_sqlite::registry::Registry;
use tauri_plugin_sqlite::slots::SlotTable;

fn runtime() -> tokio::runtime::Runtime {
    tokio::runtime::Builder::new_current_thread()
        .enable_all()
        .build()
        .unwrap()
}

async fn memory_pool() -> Pool<Sqlite> {
    SqlitePoolOptions::new()
        .max_connections(1)
        .connect("sqlite::memory:")
        .await
        .unwrap()
}

fn integer_cells(rows: &[SqliteRow]) -> Vec<Vec<(String, Cell)>> {
    rows.iter()
        .map(|row| {
            row.columns()
                .iter()
                .enumerate()
                .map(|(i, c)| (c.name().to_string(), Cell::Integer(row.try_get::<i64, _>(i).unwrap())))
                .collect()
        })
        .collect()
}

#[test]
fn select_one_after_load() {
    runtime().block_on(async {
        let mut registry: Registry<Pool<Sqlite>, ()> = Registry::new();
        registry.install("sqlite:app.db".to_string(), memory_pool().await);
        let pool = registry.pool(&"sqlite:app.db".to_string()).unwrap();
        let rows = sqlx::query("select 1").fetch_all(pool).await.unwrap();
        let out = rows_to_vec(&integer_cells(&rows)).unwrap();
        assert_eq!(out.len(), 1);
        assert_eq!(out[0].len(), 1);
        assert_eq!(
            out[0].get_index(0),
            Some((&"1".to_string(), &DynValue::Number(JsonNumber::PosInt(1))))
        );
    });
}

#[test]
fn rollback_undoes_transaction_statements() {
    runtime().block_on(async {
        let db = "sqlite:app.db".to_string();
        let mut registry: Registry<Pool<Sqlite>, ()> = Registry::new();
        registry.install(db.clone(), memory_pool().await);
        let pool = registry.pool(&db).unwrap();
        sqlx::query("create table t(x int)").execute(pool).await.unwrap();

        let mut slots: SlotTable<Transaction<'static, Sqlite>> = SlotTable::new();
        let h = slots.begin(pool.begin().await.unwrap());
        assert_eq!(h, 0);
        sqlx::query("insert into t values (1)")
            .execute(&mut **slots.transaction_mut(h))
            .await
            .unwrap();
        slots.retire(h).rollback().await.unwrap();
        assert!(!slots.is_handle_open(h));

        let rows = sqlx::query("select count(*) as c from t").fetch_all(pool).await.unwrap();
        let out = rows_to_vec(&integer_cells(&rows)).unwrap();
        assert_eq!(
            out[0].get_index(0),
            Some((&"c".to_string(), &DynValue::Number(JsonNumber::PosInt(0))))
        );
    });
}

#[test]
fn commit_keeps_transaction_statements() {
    runtime().block_on(async {
        let pool = memory_pool().await;
        sqlx::query("create table t(x int)").execute(&pool).await.unwrap();
        let mut slots: SlotTable<Transaction<'static, Sqlite>> = SlotTable::new();
        let h = slots.begin(pool.begin().await.unwrap());
        sqlx::query("insert into t values (1)")
            .execute(&mut **slots.transaction_mut(h))
            .await
            .unwrap();
        slots.retire(h).commit().await.unwrap();
        let rows = sqlx::query("select count(*) as c from t").fetch_all(&pool).await.unwrap();
        let out = rows_to_vec(&integer_cells(&rows)).unwrap();
        assert_eq!(
            out[0].get_index(0),
            Some((&"c".to_string(), &DynValue::Number(JsonNumber::PosInt(1))))
        );
        assert_eq!(slots.begin(pool.begin().await.unwrap()), 0);
    });
}
