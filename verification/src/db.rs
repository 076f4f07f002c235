//! The durable subscription store.
//!
//! [`BotDb`] funnels every operation through one exclusively held sqlite
//! connection and keeps a verified [`SubscriptionTable`] as the model of the
//! store's contents: each operation first runs its statement against the
//! database and, only on success, applies the same change to the table. The
//! contracts below speak about that model; the database calls themselves are
//! trusted items around rusqlite.
//!
//! The store is relational: a guild, and even a single channel, may hold
//! any number of subscriptions, and only the `(channel_id,
//! server_hostname)` pair is unique.

use vstd::prelude::*;

use crate::store::{
    channel_count, id_count, ids_distinct, pair_index_of, pairs_distinct, rows_ok, upsert_spec,
    without_channel, without_id, StoreError, SubscriptionTable,
};
use crate::types::{Subscription, SubscriptionVal};

verus! {

#[verifier::external_type_specification]
#[verifier::external_body]
pub struct ExConnection(rusqlite::Connection);

#[verifier::external_type_specification]
#[verifier::external_body]
pub struct ExRusqliteError(rusqlite::Error);

/// Relies on `rusqlite::Connection::open`: opens the database file at
/// `path`, creating it if it does not exist.
#[verifier::external_body]
fn open_connection(path: &str) -> (r: Result<rusqlite::Connection, rusqlite::Error>) {
    rusqlite::Connection::open(path)
}

/// Relies on `rusqlite::Connection::execute_batch` to run the idempotent
/// schema statement `CREATE TABLE IF NOT EXISTS subscriptions (id INTEGER
/// PRIMARY KEY, ..., UNIQUE (channel_id, server_hostname))`.
#[verifier::external_body]
fn sql_create_schema(conn: &rusqlite::Connection) -> (r: Result<(), rusqlite::Error>) {
    conn.execute_batch(
        "CREATE TABLE IF NOT EXISTS subscriptions (
            id INTEGER PRIMARY KEY,
            guild_id INTEGER NOT NULL,
            channel_id INTEGER NOT NULL,
            message_id INTEGER NOT NULL,
            server_hostname TEXT NOT NULL,
            UNIQUE (channel_id, server_hostname)
        )",
    )
}

/// Relies on `rusqlite::Connection::execute` to run `INSERT INTO
/// subscriptions (id, guild_id, channel_id, message_id, server_hostname)
/// VALUES (?, ?, ?, ?, ?)`.
#[verifier::external_body]
fn sql_insert(
    conn: &rusqlite::Connection,
    id: i64,
    guild_id: u64,
    channel_id: u64,
    message_id: u64,
    hostname: &str,
) -> (r: Result<usize, rusqlite::Error>) {
    conn.execute(
        "INSERT INTO subscriptions (id, guild_id, channel_id, message_id, server_hostname)
         VALUES (?, ?, ?, ?, ?)",
        (id, guild_id as i64, channel_id as i64, message_id as i64, hostname),
    )
}

/// Relies on `rusqlite::Connection::execute` to run `UPDATE subscriptions
/// SET message_id = ?, server_hostname = ? WHERE channel_id = ? AND
/// server_hostname = ?`.
#[verifier::external_body]
fn sql_update_pair(
    conn: &rusqlite::Connection,
    message_id: u64,
    hostname: &str,
    channel_id: u64,
) -> (r: Result<usize, rusqlite::Error>) {
    conn.execute(
        "UPDATE subscriptions SET message_id = ?, server_hostname = ?
         WHERE channel_id = ? AND server_hostname = ?",
        (message_id as i64, hostname, channel_id as i64, hostname),
    )
}

/// Relies on `rusqlite::Connection::execute` to run `DELETE FROM
/// subscriptions WHERE channel_id = ?`.
#[verifier::external_body]
fn sql_delete_by_channel(
    conn: &rusqlite::Connection,
    channel_id: u64,
) -> (r: Result<usize, rusqlite::Error>) {
    conn.execute("DELETE FROM subscriptions WHERE channel_id = ?", (channel_id as i64,))
}

/// Relies on `rusqlite::Connection::execute` to run `DELETE FROM
/// subscriptions WHERE id = ?`.
#[verifier::external_body]
fn sql_delete_by_id(conn: &rusqlite::Connection, id: i64) -> (r: Result<
    usize,
    rusqlite::Error,
>) {
    conn.execute("DELETE FROM subscriptions WHERE id = ?", (id,))
}

/// Relies on rusqlite's `prepare` and `query_map` to read every row of the
/// subscriptions table back as plain values, in the columns' declared types.
#[verifier::external_body]
fn sql_select_all(conn: &rusqlite::Connection) -> (r: Result<
    Vec<(i64, u64, u64, u64, String)>,
    rusqlite::Error,
>) {
    let mut stmt = conn.prepare(
        "SELECT id, guild_id, channel_id, message_id, server_hostname FROM subscriptions",
    )?;
    let rows = stmt.query_map((), |row| {
        let guild_id: i64 = row.get(1)?;
        let channel_id: i64 = row.get(2)?;
        let message_id: i64 = row.get(3)?;
        Ok((row.get(0)?, guild_id as u64, channel_id as u64, message_id as u64, row.get(4)?))
    })?;
    rows.collect()
}

/// The subscription store: one sqlite connection and the verified table
/// that models the database's contents. All mutations go through `&mut
/// self`, so one `BotDb` value is a single serialized access point.
pub struct BotDb {
    conn: rusqlite::Connection,
    table: SubscriptionTable,
}

impl View for BotDb {
    type V = Seq<SubscriptionVal>;

    closed spec fn view(&self) -> Seq<SubscriptionVal> {
        self.table@
    }
}

impl BotDb {
    /// How many fresh ids the store can still assign; see
    /// [`SubscriptionTable::id_budget`].
    pub closed spec fn id_budget(self) -> int {
        self.table.id_budget()
    }

    /// Open the database at `db_path`, creating the file if needed. The
    /// model starts empty; [`BotDb::migrate`] creates the schema and loads
    /// the persisted rows.
    pub fn new(db_path: &str) -> (r: Result<BotDb, StoreError>)
        ensures
            r matches Ok(db) ==> db@ == Seq::<SubscriptionVal>::empty() && db.id_budget()
                == i64::MAX,
            r matches Err(e) ==> e == StoreError::Storage,
    {
        match open_connection(db_path) {
            Ok(conn) => Ok(BotDb { conn, table: SubscriptionTable::new() }),
            Err(_) => Err(StoreError::Storage),
        }
    }

    /// Idempotently ensure the schema exists, then load every persisted row
    /// into the model; safe to call on every process start. The rows read
    /// back are validated against the store's invariants, never trusted.
    pub fn migrate(&mut self) -> (r: Result<(), StoreError>)
        ensures
            r is Ok ==> rows_ok(final(self)@),
            r is Err ==> final(self)@ == old(self)@ && (r->Err_0 == StoreError::Storage
                || r->Err_0 == StoreError::Corrupt),
    {
        match sql_create_schema(&self.conn) {
            Ok(()) => {},
            Err(_) => {
                return Err(StoreError::Storage);
            },
        }
        let raw = match sql_select_all(&self.conn) {
            Ok(raw) => raw,
            Err(_) => {
                return Err(StoreError::Storage);
            },
        };
        let mut rows: Vec<Subscription> = Vec::new();
        let n = raw.len();
        let mut i: usize = 0;
        while i < n
            invariant
                i <= n,
                n == raw.len(),
            decreases n - i,
        {
            let entry = &raw[i];
            rows.push(
                Subscription {
                    id: Some(entry.0),
                    guild_id: entry.1,
                    channel_id: entry.2,
                    message_id: entry.3,
                    server_hostname: entry.4.clone(),
                },
            );
            i += 1;
        }
        match SubscriptionTable::from_rows(rows) {
            Ok(table) => {
                self.table = table;
                Ok(())
            },
            Err(e) => Err(e),
        }
    }

    /// Insert the subscription as a new row, or update the message id and
    /// hostname of the row with the same `(channel_id, server_hostname)`
    /// pair. The caller's `sub.id` is ignored: the store assigns ids.
    pub fn upsert_subscription(&mut self, sub: &Subscription) -> (r: Result<(), StoreError>)
        ensures
            r is Ok ==> (exists|fid: int|
                final(self)@ == #[trigger] upsert_spec(old(self)@, sub@, fid) && (forall|j: int|
                    0 <= j < old(self)@.len() ==> old(self)@[j].id != Some(fid)))
                && final(self).id_budget() >= old(self).id_budget() - 1,
            r is Err ==> final(self)@ == old(self)@ && (r->Err_0 == StoreError::Storage
                || r->Err_0 == StoreError::IdSpaceExhausted),
            r->Err_0 == StoreError::IdSpaceExhausted && r is Err ==> old(self).id_budget() == 0,
    {
        if self.table.contains_pair(sub.channel_id, &sub.server_hostname) {
            match sql_update_pair(
                &self.conn,
                sub.message_id,
                sub.server_hostname.as_str(),
                sub.channel_id,
            ) {
                Ok(_) => {},
                Err(_) => {
                    return Err(StoreError::Storage);
                },
            }
        } else {
            let id = match self.table.next_insert_id() {
                Some(id) => id,
                None => {
                    return Err(StoreError::IdSpaceExhausted);
                },
            };
            match sql_insert(
                &self.conn,
                id,
                sub.guild_id,
                sub.channel_id,
                sub.message_id,
                sub.server_hostname.as_str(),
            ) {
                Ok(_) => {},
                Err(_) => {
                    return Err(StoreError::Storage);
                },
            }
        }
        let ghost pre_view = self@;
        match self.table.upsert(sub) {
            Ok(()) => {
                proof {
                    let fid = choose|fid: int|
                        self.table@ == #[trigger] upsert_spec(pre_view, sub@, fid) && (forall|
                            j: int,
                        | 0 <= j < pre_view.len() ==> pre_view[j].id != Some(fid));
                    assert(self@ == upsert_spec(pre_view, sub@, fid));
                }
                Ok(())
            },
            Err(e) => Err(e),
        }
    }

    /// Remove every subscription of the channel; the returned count may be
    /// 0 and other channels' rows stay untouched.
    pub fn delete_subscriptions_by_channel_id(&mut self, channel_id: u64) -> (r: Result<
        usize,
        StoreError,
    >)
        ensures
            r matches Ok(n) ==> {
                &&& final(self)@ == without_channel(old(self)@, channel_id as int)
                &&& n as int == channel_count(old(self)@, channel_id as int)
                &&& old(self)@.len() == final(self)@.len() + n
            },
            r is Err ==> final(self)@ == old(self)@ && r->Err_0 == StoreError::Storage,
    {
        match sql_delete_by_channel(&self.conn, channel_id) {
            Ok(_) => {},
            Err(_) => {
                return Err(StoreError::Storage);
            },
        }
        Ok(self.table.delete_by_channel(channel_id))
    }

    /// Remove the subscription with this store-assigned id; at most one row
    /// goes, and none when the id does not exist.
    pub fn delete_subscription_by_id(&mut self, id: i64) -> (r: Result<usize, StoreError>)
        ensures
            r matches Ok(n) ==> {
                &&& final(self)@ == without_id(old(self)@, id as int)
                &&& n as int == id_count(old(self)@, id as int)
                &&& n <= 1
                &&& ((n == 0) <==> (forall|j: int|
                    0 <= j < old(self)@.len() ==> old(self)@[j].id != Some(id as int)))
                &&& old(self)@.len() == final(self)@.len() + n
            },
            r is Err ==> final(self)@ == old(self)@ && r->Err_0 == StoreError::Storage,
    {
        match sql_delete_by_id(&self.conn, id) {
            Ok(_) => {},
            Err(_) => {
                return Err(StoreError::Storage);
            },
        }
        Ok(self.table.delete_by_id(id))
    }

    /// Every subscription of the store; order carries no meaning. Each
    /// returned record has its assigned id; ids and
    /// `(channel_id, server_hostname)` pairs are pairwise distinct.
    pub fn get_subscriptions(&self) -> (r: Vec<Subscription>)
        ensures
            r.deep_view() == self@,
            forall|j: int| 0 <= j < self@.len() ==> (#[trigger] self@[j]).id is Some,
            ids_distinct(self@),
            pairs_distinct(self@),
    {
        self.table.list_all()
    }

    /// Whether a subscription with this `(channel_id, server_hostname)`
    /// pair exists.
    pub fn contains_pair(&self, channel_id: u64, hostname: &String) -> (b: bool)
        ensures
            b == (pair_index_of(self@, channel_id as int, hostname@) is Some),
    {
        self.table.contains_pair(channel_id, hostname)
    }
}

} // verus!
