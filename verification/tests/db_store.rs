use gorillabot::db::BotDb;
use gorillabot::types::Subscription;

fn open_db() -> BotDb {
    let mut db = BotDb::new(":memory:").expect("open in-memory database");
    db.migrate().expect("migrate");
    db
}

fn sub(guild_id: u64, channel_id: u64, message_id: u64, host: &str) -> Subscription {
    Subscription {
        id: None,
        guild_id,
        channel_id,
        message_id,
        server_hostname: host.to_string(),
    }
}

#[test]
fn upsert_twice_same_pair_keeps_one_row_second_wins() {
    let mut db = open_db();
    db.upsert_subscription(&sub(1, 10, 100, "a.example:27015")).unwrap();
    db.upsert_subscription(&sub(1, 10, 200, "a.example:27015")).unwrap();
    let rows = db.get_subscriptions();
    assert_eq!(rows.len(), 1);
    assert_eq!(rows[0].channel_id, 10);
    assert_eq!(rows[0].message_id, 200);
    assert_eq!(rows[0].server_hostname, "a.example:27015");
    assert!(rows[0].id.is_some());
}

#[test]
fn upsert_same_channel_different_host_adds_row() {
    let mut db = open_db();
    db.upsert_subscription(&sub(1, 10, 100, "a.example:27015")).unwrap();
    db.upsert_subscription(&sub(1, 10, 101, "b.example:27015")).unwrap();
    let rows = db.get_subscriptions();
    assert_eq!(rows.len(), 2);
}

#[test]
fn upsert_keeps_id_stable_across_update() {
    let mut db = open_db();
    db.upsert_subscription(&sub(1, 10, 100, "a.example:27015")).unwrap();
    let first_id = db.get_subscriptions()[0].id;
    db.upsert_subscription(&sub(1, 10, 300, "a.example:27015")).unwrap();
    let rows = db.get_subscriptions();
    assert_eq!(rows.len(), 1);
    assert_eq!(rows[0].id, first_id);
}

#[test]
fn delete_by_channel_removes_all_of_that_channel_only() {
    let mut db = open_db();
    db.upsert_subscription(&sub(1, 10, 100, "a.example:27015")).unwrap();
    db.upsert_subscription(&sub(1, 10, 101, "b.example:27015")).unwrap();
    db.upsert_subscription(&sub(1, 10, 102, "c.example:27015")).unwrap();
    db.upsert_subscription(&sub(1, 20, 103, "a.example:27015")).unwrap();
    let removed = db.delete_subscriptions_by_channel_id(10).unwrap();
    assert_eq!(removed, 3);
    let rows = db.get_subscriptions();
    assert_eq!(rows.len(), 1);
    assert_eq!(rows[0].channel_id, 20);
    assert_eq!(rows[0].message_id, 103);
}

#[test]
fn delete_by_channel_of_unknown_channel_removes_nothing() {
    let mut db = open_db();
    db.upsert_subscription(&sub(1, 10, 100, "a.example:27015")).unwrap();
    let removed = db.delete_subscriptions_by_channel_id(99).unwrap();
    assert_eq!(removed, 0);
    assert_eq!(db.get_subscriptions().len(), 1);
}

#[test]
fn delete_by_id_removes_at_most_one_row() {
    let mut db = open_db();
    db.upsert_subscription(&sub(1, 10, 100, "a.example:27015")).unwrap();
    db.upsert_subscription(&sub(1, 20, 101, "b.example:27015")).unwrap();
    let id = db
        .get_subscriptions()
        .iter()
        .find(|s| s.channel_id == 10)
        .unwrap()
        .id
        .unwrap();
    let removed = db.delete_subscription_by_id(id).unwrap();
    assert_eq!(removed, 1);
    let rows = db.get_subscriptions();
    assert_eq!(rows.len(), 1);
    assert_eq!(rows[0].channel_id, 20);
}

#[test]
fn delete_by_id_of_unknown_id_is_a_no_op() {
    let mut db = open_db();
    db.upsert_subscription(&sub(1, 10, 100, "a.example:27015")).unwrap();
    let removed = db.delete_subscription_by_id(123456).unwrap();
    assert_eq!(removed, 0);
    assert_eq!(db.get_subscriptions().len(), 1);
}

#[test]
fn migrate_is_idempotent_and_reloads_persisted_rows() {
    let mut db = open_db();
    db.upsert_subscription(&sub(1, 10, 100, "a.example:27015")).unwrap();
    db.upsert_subscription(&sub(2, 20, 200, "b.example:27015")).unwrap();
    db.migrate().expect("second migrate");
    let mut rows = db.get_subscriptions();
    rows.sort_by_key(|s| s.channel_id);
    assert_eq!(rows.len(), 2);
    assert_eq!(rows[0].channel_id, 10);
    assert_eq!(rows[0].message_id, 100);
    assert_eq!(rows[0].server_hostname, "a.example:27015");
    assert_eq!(rows[1].channel_id, 20);
    assert_eq!(rows[1].message_id, 200);
    assert_eq!(rows[1].server_hostname, "b.example:27015");
    assert!(rows[0].id.is_some() && rows[1].id.is_some());
}

#[test]
fn fresh_store_lists_nothing() {
    let db = open_db();
    assert!(db.get_subscriptions().is_empty());
}

#[test]
fn contains_pair_follows_the_rows() {
    let mut db = open_db();
    let host = "a.example:27015".to_string();
    assert!(!db.contains_pair(10, &host));
    db.upsert_subscription(&sub(1, 10, 100, "a.example:27015")).unwrap();
    assert!(db.contains_pair(10, &host));
    assert!(!db.contains_pair(11, &host));
}
