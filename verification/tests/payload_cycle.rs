use gorillabot::cycle::{
    handle_edit_outcome, is_message_was_removed_error, should_query_players, EditFailure,
    LoopGuard, SubscriptionFate,
};
use gorillabot::db::BotDb;
use gorillabot::status::{build_status_fields, render_status, u64_to_dec, ServerInfo};
use gorillabot::types::Subscription;

fn info(name: &str, map: &str, players: u8) -> ServerInfo {
    ServerInfo {
        name: name.to_string(),
        map: map.to_string(),
        players,
    }
}

fn names(fields: &[gorillabot::status::StatusField]) -> Vec<String> {
    fields.iter().map(|f| f.name.clone()).collect()
}

#[test]
fn zero_players_omits_the_players_field() {
    let fields = build_status_fields(
        &Some(info("Gorilla House", "de_dust2", 0)),
        &Vec::new(),
        "a.example:27015",
        "2024-01-01 00:00:00",
    );
    assert_eq!(
        names(&fields),
        vec!["Server name", "Server address", "Map", "Player count", "Updated at"]
    );
    assert_eq!(fields[0].value, "Gorilla House");
    assert_eq!(fields[1].value, "a.example:27015");
    assert_eq!(fields[2].value, "de_dust2");
    assert_eq!(fields[3].value, "0");
    assert_eq!(fields[4].value, "2024-01-01 00:00:00");
}

#[test]
fn players_present_includes_concatenated_names() {
    let players = vec!["alice".to_string(), "bob".to_string(), "carol".to_string()];
    let fields = build_status_fields(
        &Some(info("Gorilla House", "de_dust2", 3)),
        &players,
        "a.example:27015",
        "2024-01-01 00:00:00",
    );
    assert_eq!(
        names(&fields),
        vec!["Server name", "Server address", "Map", "Player count", "Players", "Updated at"]
    );
    assert_eq!(fields[3].value, "3");
    assert_eq!(fields[4].value, "alice, bob, carol");
}

#[test]
fn failed_query_marks_descriptive_fields_unknown() {
    let fields = build_status_fields(&None, &Vec::new(), "a.example:27015", "2024-01-01 00:00:00");
    assert_eq!(
        names(&fields),
        vec!["Server name", "Server address", "Map", "Player count", "Updated at"]
    );
    assert_eq!(fields[0].value, "Unknown");
    assert_eq!(fields[1].value, "a.example:27015");
    assert_eq!(fields[2].value, "Unknown");
    assert_eq!(fields[3].value, "Unknown");
    assert_eq!(fields[4].value, "2024-01-01 00:00:00");
}

#[test]
fn render_status_stamps_a_timestamp_field() {
    let fields = render_status(&None, &Vec::new(), "a.example:27015");
    assert_eq!(fields.len(), 5);
    assert_eq!(fields[4].name, "Updated at");
    assert!(!fields[4].value.is_empty());
    assert_eq!(fields[1].value, "a.example:27015");
}

#[test]
fn decimal_rendering_is_exact() {
    assert_eq!(u64_to_dec(0), "0");
    assert_eq!(u64_to_dec(7), "7");
    assert_eq!(u64_to_dec(10), "10");
    assert_eq!(u64_to_dec(255), "255");
    assert_eq!(u64_to_dec(u64::MAX), "18446744073709551615");
}

#[test]
fn player_query_happens_only_on_a_populated_server() {
    assert!(!should_query_players(&None));
    assert!(!should_query_players(&Some(info("s", "m", 0))));
    assert!(should_query_players(&Some(info("s", "m", 1))));
}

#[test]
fn only_the_unknown_message_error_counts_as_removed() {
    let gone = EditFailure::HttpUnsuccessful {
        message: "Unknown Message".to_string(),
    };
    let denied = EditFailure::HttpUnsuccessful {
        message: "Missing Permissions".to_string(),
    };
    assert!(is_message_was_removed_error(&gone));
    assert!(!is_message_was_removed_error(&denied));
    assert!(!is_message_was_removed_error(&EditFailure::Other));
}

fn subscribed_db(channel_id: u64, host: &str) -> BotDb {
    let mut db = BotDb::new(":memory:").expect("open in-memory database");
    db.migrate().expect("migrate");
    db.upsert_subscription(&Subscription {
        id: None,
        guild_id: 1,
        channel_id,
        message_id: 100,
        server_hostname: host.to_string(),
    })
    .unwrap();
    db
}

#[test]
fn unknown_message_edit_failure_deletes_the_row_once() {
    let mut db = subscribed_db(10, "a.example:27015");
    let sub = db.get_subscriptions().remove(0);
    let outcome: Result<(), EditFailure> = Err(EditFailure::HttpUnsuccessful {
        message: "Unknown Message".to_string(),
    });
    let fate = handle_edit_outcome(&mut db, &sub, &outcome).unwrap();
    assert_eq!(fate, SubscriptionFate::Removed);
    assert!(db.get_subscriptions().is_empty());
    // a second cycle seeing the same id again removes nothing
    let removed = db.delete_subscription_by_id(sub.id.unwrap()).unwrap();
    assert_eq!(removed, 0);
}

#[test]
fn other_edit_failures_leave_the_row_unchanged() {
    let mut db = subscribed_db(10, "a.example:27015");
    let sub = db.get_subscriptions().remove(0);
    let outcome: Result<(), EditFailure> = Err(EditFailure::Other);
    let fate = handle_edit_outcome(&mut db, &sub, &outcome).unwrap();
    assert_eq!(fate, SubscriptionFate::Kept);
    let rows = db.get_subscriptions();
    assert_eq!(rows.len(), 1);
    assert_eq!(rows[0].message_id, 100);
}

#[test]
fn successful_edit_keeps_the_row() {
    let mut db = subscribed_db(10, "a.example:27015");
    let sub = db.get_subscriptions().remove(0);
    let fate = handle_edit_outcome(&mut db, &sub, &Ok(())).unwrap();
    assert_eq!(fate, SubscriptionFate::Kept);
    assert_eq!(db.get_subscriptions().len(), 1);
}

#[test]
fn full_cycle_unreachable_host_then_deleted_message() {
    // subscribe channel 10 to a host
    let mut db = subscribed_db(10, "h.example:27015");
    let rows = db.get_subscriptions();
    assert_eq!(rows.len(), 1);
    assert_eq!(rows[0].channel_id, 10);
    assert_eq!(rows[0].server_hostname, "h.example:27015");

    // one cycle with the host unreachable: the payload shows Unknown
    // fields, the edit succeeds, the row stays
    let sub = db.get_subscriptions().remove(0);
    let fields = build_status_fields(
        &None,
        &Vec::new(),
        sub.server_hostname.as_str(),
        "2024-01-01 00:00:00",
    );
    assert_eq!(fields[0].value, "Unknown");
    assert_eq!(fields[1].value, "h.example:27015");
    let fate = handle_edit_outcome(&mut db, &sub, &Ok(())).unwrap();
    assert_eq!(fate, SubscriptionFate::Kept);
    assert_eq!(db.get_subscriptions().len(), 1);

    // the message is deleted upstream; the next cycle's edit fails with
    // "Unknown Message" and the row goes
    let sub = db.get_subscriptions().remove(0);
    let outcome: Result<(), EditFailure> = Err(EditFailure::HttpUnsuccessful {
        message: "Unknown Message".to_string(),
    });
    let fate = handle_edit_outcome(&mut db, &sub, &outcome).unwrap();
    assert_eq!(fate, SubscriptionFate::Removed);
    assert!(db.get_subscriptions().is_empty());
}

#[test]
fn loop_guard_starts_exactly_once() {
    let mut guard = LoopGuard::new();
    assert!(guard.try_start());
    assert!(!guard.try_start());
    assert!(!guard.try_start());
}
