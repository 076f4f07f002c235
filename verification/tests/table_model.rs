use gorillabot::db::BotDb;
use gorillabot::store::{StoreError, SubscriptionTable};
use gorillabot::types::Subscription;

fn row(id: Option<i64>, channel_id: u64, message_id: u64, host: &str) -> Subscription {
    Subscription {
        id,
        guild_id: 1,
        channel_id,
        message_id,
        server_hostname: host.to_string(),
    }
}

#[test]
fn upsert_before_migrate_surfaces_a_storage_error() {
    // without the schema the insert statement fails and the model stays empty
    let mut db = BotDb::new(":memory:").expect("open in-memory database");
    let err = db
        .upsert_subscription(&row(None, 10, 100, "a.example:27015"))
        .unwrap_err();
    assert_eq!(err, StoreError::Storage);
    assert!(db.get_subscriptions().is_empty());
}

#[test]
fn from_rows_accepts_a_valid_snapshot() {
    let table = SubscriptionTable::from_rows(vec![
        row(Some(1), 10, 100, "a.example:27015"),
        row(Some(2), 10, 101, "b.example:27015"),
        row(Some(7), 20, 102, "a.example:27015"),
    ])
    .expect("valid rows");
    assert_eq!(table.len(), 3);
    let listed = table.list_all();
    assert_eq!(listed.len(), 3);
    assert!(listed.iter().all(|s| s.id.is_some()));
}

#[test]
fn from_rows_rejects_a_missing_id() {
    let err = SubscriptionTable::from_rows(vec![row(None, 10, 100, "a.example:27015")])
        .unwrap_err();
    assert_eq!(err, StoreError::Corrupt);
}

#[test]
fn from_rows_rejects_a_duplicated_id() {
    let err = SubscriptionTable::from_rows(vec![
        row(Some(1), 10, 100, "a.example:27015"),
        row(Some(1), 20, 101, "b.example:27015"),
    ])
    .unwrap_err();
    assert_eq!(err, StoreError::Corrupt);
}

#[test]
fn from_rows_rejects_a_duplicated_pair() {
    let err = SubscriptionTable::from_rows(vec![
        row(Some(1), 10, 100, "a.example:27015"),
        row(Some(2), 10, 101, "a.example:27015"),
    ])
    .unwrap_err();
    assert_eq!(err, StoreError::Corrupt);
}

#[test]
fn an_exhausted_id_space_refuses_inserts_but_still_updates() {
    // a snapshot whose largest id sits at the top of the id space
    let mut table =
        SubscriptionTable::from_rows(vec![row(Some(i64::MAX - 1), 10, 100, "a.example:27015")])
            .expect("valid rows");
    // an insert would need a fresh id: refused
    let err = table.upsert(&row(None, 20, 200, "b.example:27015")).unwrap_err();
    assert_eq!(err, StoreError::IdSpaceExhausted);
    assert_eq!(table.len(), 1);
    // updating the existing pair spends no id: still fine
    table.upsert(&row(None, 10, 300, "a.example:27015")).unwrap();
    let listed = table.list_all();
    assert_eq!(listed.len(), 1);
    assert_eq!(listed[0].message_id, 300);
    assert_eq!(listed[0].id, Some(i64::MAX - 1));
}

#[test]
fn the_pure_table_mirrors_the_store_semantics() {
    let mut table = SubscriptionTable::new();
    table.upsert(&row(None, 10, 100, "a.example:27015")).unwrap();
    table.upsert(&row(None, 10, 101, "b.example:27015")).unwrap();
    table.upsert(&row(None, 20, 102, "a.example:27015")).unwrap();
    // assigned ids are pairwise distinct
    let listed = table.list_all();
    let mut ids: Vec<i64> = listed.iter().map(|s| s.id.unwrap()).collect();
    ids.sort();
    ids.dedup();
    assert_eq!(ids.len(), 3);
    assert_eq!(table.delete_by_channel(10), 2);
    assert_eq!(table.delete_by_id(ids[0]), 0);
    let listed = table.list_all();
    assert_eq!(listed.len(), 1);
    assert_eq!(listed[0].channel_id, 20);
    assert_eq!(table.delete_by_id(listed[0].id.unwrap()), 1);
    assert_eq!(table.len(), 0);
}
