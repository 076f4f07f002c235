//! The verified model of the subscription store.
//!
//! [`SubscriptionTable`] is an in-memory table of [`Subscription`] rows that
//! carries the store's semantics: at most one row per
//! `(channel_id, server_hostname)` pair, an immutable id assigned on first
//! insert, insert-or-update, deletion by channel or by id, and full
//! enumeration. [`crate::db::BotDb`] keeps one of these as the authoritative
//! model of the durable store and mirrors every change into the database.

use vstd::prelude::*;

use crate::types::{Subscription, SubscriptionVal};

verus! {

/// Failure of a store operation.
#[derive(Clone, Copy, Debug, PartialEq, Eq, Structural)]
pub enum StoreError {
    /// The storage layer reported an error while executing an operation.
    Storage,
    /// The rows read back from the storage layer break the store's
    /// invariants (a missing id, a duplicated id, or a duplicated
    /// `(channel_id, server_hostname)` pair).
    Corrupt,
    /// No unused row id is left to assign to a new row.
    IdSpaceExhausted,
}

/// The row `r` is the one addressed by the `(channel_id, server_hostname)`
/// pair of an upsert.
pub open spec fn matches_pair(r: SubscriptionVal, channel_id: int, hostname: Seq<char>) -> bool {
    r.channel_id == channel_id && r.server_hostname == hostname
}

/// Index of the first row addressed by `(channel_id, hostname)`, if any.
pub open spec fn pair_index_of(
    s: Seq<SubscriptionVal>,
    channel_id: int,
    hostname: Seq<char>,
) -> Option<int>
    decreases s.len(),
{
    if s.len() == 0 {
        None
    } else if matches_pair(s[0], channel_id, hostname) {
        Some(0int)
    } else {
        match pair_index_of(s.drop_first(), channel_id, hostname) {
            Some(i) => Some(i + 1),
            None => None,
        }
    }
}

/// The row `r` after an upsert addressed to it: the new message id and
/// hostname win, everything else stays.
pub open spec fn upserted(r: SubscriptionVal, sub: SubscriptionVal) -> SubscriptionVal {
    SubscriptionVal { message_id: sub.message_id, server_hostname: sub.server_hostname, ..r }
}

/// A freshly inserted row: the store assigns `fresh_id`.
pub open spec fn inserted(sub: SubscriptionVal, fresh_id: int) -> SubscriptionVal {
    SubscriptionVal { id: Some(fresh_id), ..sub }
}

/// What an upsert does to the table: update the row with the same
/// `(channel_id, server_hostname)` pair in place, or append a new row under
/// a fresh id.
pub open spec fn upsert_spec(
    s: Seq<SubscriptionVal>,
    sub: SubscriptionVal,
    fresh_id: int,
) -> Seq<SubscriptionVal> {
    match pair_index_of(s, sub.channel_id, sub.server_hostname) {
        Some(i) => s.update(i, upserted(s[i], sub)),
        None => s.push(inserted(sub, fresh_id)),
    }
}

/// The rows that survive `delete_by_channel(channel_id)`.
pub open spec fn channel_differs(channel_id: int) -> spec_fn(SubscriptionVal) -> bool {
    |r: SubscriptionVal| r.channel_id != channel_id
}

/// The rows that `delete_by_channel(channel_id)` removes.
pub open spec fn channel_is(channel_id: int) -> spec_fn(SubscriptionVal) -> bool {
    |r: SubscriptionVal| r.channel_id == channel_id
}

/// The rows that survive `delete_by_id(id)`.
pub open spec fn id_differs(id: int) -> spec_fn(SubscriptionVal) -> bool {
    |r: SubscriptionVal| r.id != Some(id)
}

/// The row that `delete_by_id(id)` removes.
pub open spec fn id_is(id: int) -> spec_fn(SubscriptionVal) -> bool {
    |r: SubscriptionVal| r.id == Some(id)
}

/// The table without the rows of `channel_id`.
pub open spec fn without_channel(s: Seq<SubscriptionVal>, channel_id: int) -> Seq<SubscriptionVal> {
    s.filter(channel_differs(channel_id))
}

/// How many rows belong to `channel_id`.
pub open spec fn channel_count(s: Seq<SubscriptionVal>, channel_id: int) -> nat {
    s.filter(channel_is(channel_id)).len()
}

/// The table without the row of id `id`.
pub open spec fn without_id(s: Seq<SubscriptionVal>, id: int) -> Seq<SubscriptionVal> {
    s.filter(id_differs(id))
}

/// How many rows carry id `id`.
pub open spec fn id_count(s: Seq<SubscriptionVal>, id: int) -> nat {
    s.filter(id_is(id)).len()
}

/// No two rows share an id.
pub open spec fn ids_distinct(s: Seq<SubscriptionVal>) -> bool {
    forall|i: int, j: int| 0 <= i < j < s.len() ==> s[i].id != s[j].id
}

/// No two rows share a `(channel_id, server_hostname)` pair.
pub open spec fn pairs_distinct(s: Seq<SubscriptionVal>) -> bool {
    forall|i: int, j: int|
        0 <= i < j < s.len() ==> !(s[i].channel_id == s[j].channel_id
            && s[i].server_hostname == s[j].server_hostname)
}

/// Every row has an id below `next_id`.
pub open spec fn ids_below(s: Seq<SubscriptionVal>, next_id: int) -> bool {
    forall|i: int| 0 <= i < s.len() ==> (#[trigger] s[i]).id is Some && s[i].id->0 < next_id
}

/// A sequence of rows the store could hold: every id assigned and below the
/// largest assignable id, no id and no pair duplicated.
pub open spec fn rows_ok(s: Seq<SubscriptionVal>) -> bool {
    &&& ids_distinct(s)
    &&& pairs_distinct(s)
    &&& ids_below(s, i64::MAX as int)
}

/// `pair_index_of` returns the first match: a match in range with no match
/// before it, or `None` when no row matches at all.
pub proof fn lemma_pair_index_of_is_first_match(
    s: Seq<SubscriptionVal>,
    channel_id: int,
    hostname: Seq<char>,
)
    ensures
        match pair_index_of(s, channel_id, hostname) {
            Some(i) => 0 <= i < s.len() && matches_pair(s[i], channel_id, hostname) && forall|
                j: int,
            | 0 <= j < i ==> !matches_pair(s[j], channel_id, hostname),
            None => forall|j: int| 0 <= j < s.len() ==> !matches_pair(s[j], channel_id, hostname),
        },
    decreases s.len(),
{
    if s.len() != 0 && !matches_pair(s[0], channel_id, hostname) {
        let rest = s.drop_first();
        lemma_pair_index_of_is_first_match(rest, channel_id, hostname);
        match pair_index_of(rest, channel_id, hostname) {
            Some(i) => {
                assert forall|j: int| 0 <= j < i + 1 implies !matches_pair(
                    s[j],
                    channel_id,
                    hostname,
                ) by {
                    if j >= 1 {
                        assert(rest[j - 1] == s[j]);
                    }
                }
                assert(rest[i] == s[i + 1]);
            },
            None => {
                assert forall|j: int| 0 <= j < s.len() implies !matches_pair(
                    s[j],
                    channel_id,
                    hostname,
                ) by {
                    if j >= 1 {
                        assert(rest[j - 1] == s[j]);
                    }
                }
            },
        }
    }
}

/// A first match determines `pair_index_of`.
pub proof fn lemma_pair_index_of_witness(
    s: Seq<SubscriptionVal>,
    channel_id: int,
    hostname: Seq<char>,
    i: int,
)
    requires
        0 <= i < s.len(),
        matches_pair(s[i], channel_id, hostname),
        forall|j: int| 0 <= j < i ==> !matches_pair(s[j], channel_id, hostname),
    ensures
        pair_index_of(s, channel_id, hostname) == Some(i),
    decreases s.len(),
{
    if i != 0 {
        let rest = s.drop_first();
        assert(forall|j: int| 0 <= j < rest.len() ==> rest[j] == s[j + 1]);
        lemma_pair_index_of_witness(rest, channel_id, hostname, i - 1);
    }
}

/// Upserting twice for the same `(channel_id, server_hostname)` pair yields
/// exactly one row addressed by that pair, and the second call's message id
/// and hostname win.
pub proof fn lemma_upsert_twice(
    s: Seq<SubscriptionVal>,
    a: SubscriptionVal,
    b: SubscriptionVal,
    fid1: int,
    fid2: int,
)
    requires
        pairs_distinct(s),
        a.channel_id == b.channel_id,
        a.server_hostname == b.server_hostname,
    ensures
        ({
            let s2 = upsert_spec(upsert_spec(s, a, fid1), b, fid2);
            exists|k: int|
                {
                    &&& 0 <= k < s2.len()
                    &&& #[trigger] matches_pair(s2[k], b.channel_id, b.server_hostname)
                    &&& s2[k].message_id == b.message_id
                    &&& s2[k].server_hostname == b.server_hostname
                    &&& forall|j: int|
                        0 <= j < s2.len() && j != k ==> !matches_pair(
                            s2[j],
                            b.channel_id,
                            b.server_hostname,
                        )
                }
        }),
{
    let c = b.channel_id;
    let h = b.server_hostname;
    lemma_pair_index_of_is_first_match(s, c, h);
    let s1 = upsert_spec(s, a, fid1);
    let k: int = match pair_index_of(s, c, h) {
        Some(i) => i,
        None => s.len() as int,
    };
    assert(matches_pair(s1[k], c, h));
    assert forall|j: int| 0 <= j < s1.len() && j != k implies !matches_pair(s1[j], c, h) by {
        if j < s.len() {
            assert(s1[j] == s[j]);
            if matches_pair(s[j], c, h) {
                match pair_index_of(s, c, h) {
                    Some(i) => {
                        if j < i {
                            assert(!matches_pair(s[j], c, h));
                        } else {
                            assert(!(s[i].channel_id == s[j].channel_id && s[i].server_hostname
                                == s[j].server_hostname));
                        }
                    },
                    None => {
                        assert(!matches_pair(s[j], c, h));
                    },
                }
            }
        }
    }
    lemma_pair_index_of_witness(s1, c, h, k);
    let s2 = upsert_spec(s1, b, fid2);
    assert(s2 == s1.update(k, upserted(s1[k], b)));
    assert(matches_pair(s2[k], c, h) && s2[k].message_id == b.message_id && s2[k].server_hostname
        == b.server_hostname);
    assert forall|j: int| 0 <= j < s2.len() && j != k implies !matches_pair(s2[j], c, h) by {
        assert(s2[j] == s1[j]);
    }
}

/// Removing rows keeps the store's invariants: a filtered table still has
/// distinct ids, distinct pairs, and ids below the same bound.
pub proof fn lemma_filter_keeps_store_inv(
    s: Seq<SubscriptionVal>,
    pred: spec_fn(SubscriptionVal) -> bool,
    next_id: int,
)
    ensures
        ids_distinct(s) ==> ids_distinct(s.filter(pred)),
        pairs_distinct(s) ==> pairs_distinct(s.filter(pred)),
        ids_below(s, next_id) ==> ids_below(s.filter(pred), next_id),
    decreases s.len(),
{
    reveal(Seq::filter);
    if s.len() == 0 {
    } else {
        let dl = s.drop_last();
        let last = s.last();
        assert(forall|k: int| 0 <= k < dl.len() ==> dl[k] == s[k]);
        lemma_filter_keeps_store_inv(dl, pred, next_id);
        let f = dl.filter(pred);
        if pred(last) {
            assert(s.filter(pred) == f.push(last));
            let g = f.push(last);
            if ids_distinct(s) {
                assert forall|a: int, b: int| 0 <= a < b < g.len() implies g[a].id != g[b].id by {
                    if b == f.len() {
                        assert(f.contains(f[a]));
                        dl.lemma_filter_contains_rev(pred, f[a]);
                        let k = choose|k: int| 0 <= k < dl.len() && dl[k] == f[a];
                        assert(s[k].id != s[s.len() - 1].id);
                    }
                }
            }
            if pairs_distinct(s) {
                assert forall|a: int, b: int| 0 <= a < b < g.len() implies !(g[a].channel_id
                    == g[b].channel_id && g[a].server_hostname == g[b].server_hostname) by {
                    if b == f.len() {
                        assert(f.contains(f[a]));
                        dl.lemma_filter_contains_rev(pred, f[a]);
                        let k = choose|k: int| 0 <= k < dl.len() && dl[k] == f[a];
                        assert(!(s[k].channel_id == s[s.len() - 1].channel_id
                            && s[k].server_hostname == s[s.len() - 1].server_hostname));
                    }
                }
            }
            if ids_below(s, next_id) {
                assert forall|a: int| 0 <= a < g.len() implies (#[trigger] g[a]).id is Some
                    && g[a].id->0 < next_id by {
                    if a < f.len() {
                        assert(f[a].id is Some && f[a].id->0 < next_id);
                    } else {
                        assert(s[s.len() - 1].id is Some && s[s.len() - 1].id->0 < next_id);
                    }
                }
            }
        } else {
            assert(s.filter(pred) == f);
        }
    }
}

/// The in-memory subscription table. All operations are total verified
/// code; the table maintains the store's invariants as a type invariant.
#[derive(Debug)]
pub struct SubscriptionTable {
    rows: Vec<Subscription>,
    next_id: i64,
}

impl View for SubscriptionTable {
    type V = Seq<SubscriptionVal>;

    closed spec fn view(&self) -> Seq<SubscriptionVal> {
        self.rows.deep_view()
    }
}

/// Scan for the row addressed by `(channel_id, hostname)`.
fn find_pair_in(rows: &Vec<Subscription>, channel_id: u64, hostname: &String) -> (r: Option<usize>)
    ensures
        match r {
            Some(i) => i < rows.deep_view().len() && pair_index_of(
                rows.deep_view(),
                channel_id as int,
                hostname@,
            ) == Some(i as int),
            None => pair_index_of(rows.deep_view(), channel_id as int, hostname@) is None,
        },
{
    let n = rows.len();
    let mut i: usize = 0;
    while i < n
        invariant
            i <= n,
            n == rows.len(),
            forall|j: int|
                0 <= j < i ==> !matches_pair(rows.deep_view()[j], channel_id as int, hostname@),
        decreases n - i,
    {
        let row = &rows[i];
        if row.channel_id == channel_id && row.server_hostname == *hostname {
            proof {
                lemma_pair_index_of_witness(
                    rows.deep_view(),
                    channel_id as int,
                    hostname@,
                    i as int,
                );
            }
            return Some(i);
        }
        i += 1;
    }
    proof {
        lemma_pair_index_of_is_first_match(rows.deep_view(), channel_id as int, hostname@);
    }
    None
}

/// Scan for a row with the given id.
fn contains_id_in(rows: &Vec<Subscription>, id: i64) -> (b: bool)
    ensures
        b == exists|j: int| 0 <= j < rows.deep_view().len() && rows.deep_view()[j].id == Some(
            id as int,
        ),
{
    let n = rows.len();
    let mut i: usize = 0;
    while i < n
        invariant
            i <= n,
            n == rows.len(),
            forall|j: int| 0 <= j < i ==> rows.deep_view()[j].id != Some(id as int),
        decreases n - i,
    {
        let row = &rows[i];
        if let Some(row_id) = row.id {
            if row_id == id {
                proof {
                    assert(rows.deep_view()[i as int].id == Some(id as int));
                }
                return true;
            }
        }
        i += 1;
    }
    false
}

impl SubscriptionTable {
    #[verifier::type_invariant]
    spec fn wf(self) -> bool {
        &&& ids_distinct(self@)
        &&& pairs_distinct(self@)
        &&& ids_below(self@, self.next_id as int)
    }

    /// How many fresh ids the table can still assign. Every insert spends
    /// one; updates and deletions spend none. Freed ids are never reused:
    /// an id is a stable handle for deletion.
    pub closed spec fn id_budget(self) -> int {
        i64::MAX - self.next_id
    }

    /// An empty table.
    pub fn new() -> (t: Self)
        ensures
            t@ == Seq::<SubscriptionVal>::empty(),
            t.id_budget() == i64::MAX,
    {
        let t = SubscriptionTable { rows: Vec::new(), next_id: 0 };
        proof {
            assert(t@ =~= Seq::<SubscriptionVal>::empty());
        }
        t
    }

    /// Number of rows.
    pub fn len(&self) -> (n: usize)
        ensures
            n == self@.len(),
    {
        self.rows.len()
    }

    /// Whether a row with this `(channel_id, server_hostname)` pair exists.
    pub fn contains_pair(&self, channel_id: u64, hostname: &String) -> (b: bool)
        ensures
            b == (pair_index_of(self@, channel_id as int, hostname@) is Some),
    {
        match find_pair_in(&self.rows, channel_id, hostname) {
            Some(_) => true,
            None => false,
        }
    }

    /// The id the next inserted row would get, or `None` when the id space
    /// is exhausted. The id is fresh: no current row carries it.
    pub fn next_insert_id(&self) -> (r: Option<i64>)
        ensures
            r matches Some(id) ==> forall|j: int|
                0 <= j < self@.len() ==> (#[trigger] self@[j]).id != Some(id as int),
            r is None ==> self.id_budget() == 0,
    {
        proof {
            use_type_invariant(&*self);
        }
        if self.next_id == i64::MAX {
            None
        } else {
            Some(self.next_id)
        }
    }

    /// Insert `sub` as a new row under a fresh id, or, if a row with the
    /// same `(channel_id, server_hostname)` pair exists, update its message
    /// id and hostname in place. The caller's `sub.id` is ignored: ids are
    /// assigned by the table.
    pub fn upsert(&mut self, sub: &Subscription) -> (r: Result<(), StoreError>)
        ensures
            match r {
                Ok(()) => (exists|fid: int|
                    final(self)@ == #[trigger] upsert_spec(old(self)@, sub@, fid) && (forall|j: int|
                        0 <= j < old(self)@.len() ==> old(self)@[j].id != Some(fid)))
                    && final(self).id_budget() >= old(self).id_budget() - 1,
                Err(e) => {
                    &&& e == StoreError::IdSpaceExhausted
                    &&& final(self)@ == old(self)@
                    &&& pair_index_of(old(self)@, sub@.channel_id, sub@.server_hostname) is None
                    &&& old(self).id_budget() == 0
                },
            },
    {
        proof {
            use_type_invariant(&*self);
        }
        let ghost old_view = self@;
        let ghost old_next_id = self.next_id as int;
        match find_pair_in(&self.rows, sub.channel_id, &sub.server_hostname) {
            Some(i) => {
                proof {
                    lemma_pair_index_of_is_first_match(
                        old_view,
                        sub@.channel_id,
                        sub@.server_hostname,
                    );
                }
                let mut rows: Vec<Subscription> = Vec::new();
                core::mem::swap(&mut rows, &mut self.rows);
                rows[i].message_id = sub.message_id;
                rows[i].server_hostname = sub.server_hostname.clone();
                proof {
                    assert(rows.deep_view() =~= old_view.update(
                        i as int,
                        upserted(old_view[i as int], sub@),
                    ));
                }
                self.rows = rows;
                proof {
                    assert(self@ == upsert_spec(old_view, sub@, old_next_id));
                    assert(forall|j: int|
                        0 <= j < old_view.len() ==> old_view[j].id != Some(old_next_id));
                }
                Ok(())
            },
            None => {
                proof {
                    lemma_pair_index_of_is_first_match(
                        old_view,
                        sub@.channel_id,
                        sub@.server_hostname,
                    );
                }
                if self.next_id == i64::MAX {
                    return Err(StoreError::IdSpaceExhausted);
                }
                let id = self.next_id;
                let mut rows: Vec<Subscription> = Vec::new();
                core::mem::swap(&mut rows, &mut self.rows);
                rows.push(
                    Subscription {
                        id: Some(id),
                        guild_id: sub.guild_id,
                        channel_id: sub.channel_id,
                        message_id: sub.message_id,
                        server_hostname: sub.server_hostname.clone(),
                    },
                );
                self.next_id = id + 1;
                proof {
                    assert(rows.deep_view() =~= old_view.push(inserted(sub@, id as int)));
                }
                self.rows = rows;
                proof {
                    assert(self@ == upsert_spec(old_view, sub@, id as int));
                    assert(forall|j: int|
                        0 <= j < old_view.len() ==> old_view[j].id != Some(id as int));
                }
                Ok(())
            },
        }
    }

    /// Remove every row of `channel_id`; the count removed may be 0.
    pub fn delete_by_channel(&mut self, channel_id: u64) -> (n: usize)
        ensures
            final(self)@ == without_channel(old(self)@, channel_id as int),
            n as int == channel_count(old(self)@, channel_id as int),
            old(self)@.len() == final(self)@.len() + n,
            final(self).id_budget() == old(self).id_budget(),
    {
        proof {
            use_type_invariant(&*self);
        }
        let ghost old_view = self@;
        let n_rows = self.rows.len();
        let mut kept: Vec<Subscription> = Vec::new();
        let mut removed: usize = 0;
        let mut i: usize = 0;
        proof {
            assert(old_view.take(0) =~= Seq::<SubscriptionVal>::empty());
            assert(kept.deep_view() =~= without_channel(old_view.take(0), channel_id as int));
            assert(Seq::<SubscriptionVal>::empty().filter(channel_is(channel_id as int)).len()
                == 0);
        }
        while i < n_rows
            invariant
                i <= n_rows,
                n_rows == self.rows.len(),
                self@ == old_view,
                kept.deep_view() == without_channel(old_view.take(i as int), channel_id as int),
                removed as int == channel_count(old_view.take(i as int), channel_id as int),
                kept.len() + removed == i,
            decreases n_rows - i,
        {
            let row = &self.rows[i];
            proof {
                broadcast use Seq::lemma_filter_push;

                assert(old_view.take(i as int + 1) =~= old_view.take(i as int).push(
                    old_view[i as int],
                ));
            }
            if row.channel_id == channel_id {
                removed = removed + 1;
            } else {
                kept.push(row.clone());
                proof {
                    assert(kept.deep_view() =~= without_channel(
                        old_view.take(i as int + 1),
                        channel_id as int,
                    ));
                }
            }
            i += 1;
        }
        proof {
            assert(old_view.take(n_rows as int) =~= old_view);
            lemma_filter_keeps_store_inv(
                old_view,
                channel_differs(channel_id as int),
                self.next_id as int,
            );
        }
        self.rows = kept;
        removed
    }

    /// Remove the row with id `id`, if one exists; at most one row goes.
    pub fn delete_by_id(&mut self, id: i64) -> (n: usize)
        ensures
            final(self)@ == without_id(old(self)@, id as int),
            n as int == id_count(old(self)@, id as int),
            n <= 1,
            ((n == 0) <==> (forall|j: int|
                0 <= j < old(self)@.len() ==> old(self)@[j].id != Some(id as int))),
            old(self)@.len() == final(self)@.len() + n,
            final(self).id_budget() == old(self).id_budget(),
    {
        proof {
            use_type_invariant(&*self);
        }
        let ghost old_view = self@;
        let n_rows = self.rows.len();
        let mut kept: Vec<Subscription> = Vec::new();
        let mut removed: usize = 0;
        let mut i: usize = 0;
        proof {
            assert(old_view.take(0) =~= Seq::<SubscriptionVal>::empty());
            assert(kept.deep_view() =~= without_id(old_view.take(0), id as int));
            assert(Seq::<SubscriptionVal>::empty().filter(id_is(id as int)).len() == 0);
        }
        while i < n_rows
            invariant
                i <= n_rows,
                n_rows == self.rows.len(),
                self@ == old_view,
                kept.deep_view() == without_id(old_view.take(i as int), id as int),
                removed as int == id_count(old_view.take(i as int), id as int),
                kept.len() + removed == i,
            decreases n_rows - i,
        {
            let row = &self.rows[i];
            proof {
                broadcast use Seq::lemma_filter_push;

                assert(old_view.take(i as int + 1) =~= old_view.take(i as int).push(
                    old_view[i as int],
                ));
            }
            let is_target = match row.id {
                Some(row_id) => row_id == id,
                None => false,
            };
            if is_target {
                removed = removed + 1;
            } else {
                kept.push(row.clone());
                proof {
                    assert(kept.deep_view() =~= without_id(
                        old_view.take(i as int + 1),
                        id as int,
                    ));
                }
            }
            i += 1;
        }
        proof {
            broadcast use vstd::seq_lib::group_filter_ensures;

            assert(old_view.take(n_rows as int) =~= old_view);
            lemma_filter_keeps_store_inv(old_view, id_differs(id as int), self.next_id as int);
            let f = old_view.filter(id_is(id as int));
            if f.len() >= 2 {
                lemma_filter_keeps_store_inv(old_view, id_is(id as int), self.next_id as int);
                assert(f[0].id == Some(id as int) && f[1].id == Some(id as int));
                assert(false);
            }
            if f.len() > 0 {
                assert(old_view.contains(f[0])) by {
                    old_view.lemma_filter_contains_rev(id_is(id as int), f[0]);
                    assert(f.contains(f[0]));
                }
            }
            if removed == 0 {
                assert forall|j: int| 0 <= j < old_view.len() implies old_view[j].id != Some(
                    id as int,
                ) by {
                    if old_view[j].id == Some(id as int) {
                        assert(f.contains(old_view[j]));
                    }
                }
            }
        }
        self.rows = kept;
        removed
    }

    /// Rebuild a table from rows read back from the storage layer. The rows
    /// are validated, not trusted: a missing id, an id at the top of the id
    /// space, a duplicated id or a duplicated `(channel_id, server_hostname)`
    /// pair is reported as [`StoreError::Corrupt`].
    pub fn from_rows(rows: Vec<Subscription>) -> (r: Result<SubscriptionTable, StoreError>)
        ensures
            match r {
                Ok(t) => t@ == rows.deep_view() && rows_ok(rows.deep_view()),
                Err(e) => e == StoreError::Corrupt && !rows_ok(rows.deep_view()),
            },
    {
        let ghost full = rows.deep_view();
        let n = rows.len();
        let mut table_rows: Vec<Subscription> = Vec::new();
        let mut next_id: i64 = 0;
        let mut i: usize = 0;
        proof {
            assert(table_rows.deep_view() =~= full.take(0));
        }
        while i < n
            invariant
                i <= n,
                n == rows.len(),
                full == rows.deep_view(),
                table_rows.deep_view() == full.take(i as int),
                ids_distinct(table_rows.deep_view()),
                pairs_distinct(table_rows.deep_view()),
                ids_below(table_rows.deep_view(), next_id as int),
            decreases n - i,
        {
            let ghost prefix = table_rows.deep_view();
            let row = &rows[i];
            let id = match row.id {
                Some(id) => id,
                None => {
                    proof {
                        assert(!ids_below(full, i64::MAX as int)) by {
                            assert(full[i as int].id is None);
                        }
                    }
                    return Err(StoreError::Corrupt);
                },
            };
            if id == i64::MAX {
                proof {
                    assert(!ids_below(full, i64::MAX as int)) by {
                        assert(full[i as int].id->0 == i64::MAX as int);
                    }
                }
                return Err(StoreError::Corrupt);
            }
            if contains_id_in(&table_rows, id) {
                proof {
                    let j = choose|j: int|
                        0 <= j < prefix.len() && prefix[j].id == Some(id as int);
                    assert(full[j] == prefix[j]);
                    assert(full[j].id == full[i as int].id);
                    assert(!ids_distinct(full));
                }
                return Err(StoreError::Corrupt);
            }
            if let Some(_) = find_pair_in(&table_rows, row.channel_id, &row.server_hostname) {
                proof {
                    lemma_pair_index_of_is_first_match(
                        prefix,
                        full[i as int].channel_id,
                        full[i as int].server_hostname,
                    );
                    let j = pair_index_of(
                        prefix,
                        full[i as int].channel_id,
                        full[i as int].server_hostname,
                    )->0;
                    assert(full[j] == prefix[j]);
                    assert(!pairs_distinct(full));
                }
                return Err(StoreError::Corrupt);
            }
            proof {
                lemma_pair_index_of_is_first_match(
                    prefix,
                    full[i as int].channel_id,
                    full[i as int].server_hostname,
                );
            }
            table_rows.push(row.clone());
            if id >= next_id {
                next_id = id + 1;
            }
            proof {
                assert(table_rows.deep_view() =~= full.take(i as int + 1));
                assert(forall|k: int|
                    0 <= k < prefix.len() ==> table_rows.deep_view()[k] == prefix[k]);
            }
            i += 1;
        }
        proof {
            assert(full.take(n as int) =~= full);
        }
        let t = SubscriptionTable { rows: table_rows, next_id };
        Ok(t)
    }

    /// Every row of the table. Each returned record carries its assigned
    /// id; ids and `(channel_id, server_hostname)` pairs are pairwise
    /// distinct.
    pub fn list_all(&self) -> (r: Vec<Subscription>)
        ensures
            r.deep_view() == self@,
            forall|j: int| 0 <= j < self@.len() ==> (#[trigger] self@[j]).id is Some,
            ids_distinct(self@),
            pairs_distinct(self@),
    {
        proof {
            use_type_invariant(&*self);
        }
        let n_rows = self.rows.len();
        let mut out: Vec<Subscription> = Vec::new();
        let mut i: usize = 0;
        while i < n_rows
            invariant
                i <= n_rows,
                n_rows == self.rows.len(),
                out.deep_view() == self@.take(i as int),
            decreases n_rows - i,
        {
            let ghost prefix = out.deep_view();
            let row = self.rows[i].clone();
            proof {
                assert(row@ == self@[i as int]);
            }
            out.push(row);
            proof {
                assert(out@.len() == prefix.len() + 1);
                assert forall|k: int| 0 <= k < out@.len() implies out.deep_view()[k]
                    == self@.take(i as int + 1)[k] by {
                    if k < prefix.len() {
                        assert(out.deep_view()[k] == prefix[k]);
                    }
                }
                assert(out.deep_view() =~= self@.take(i as int + 1));
            }
            i += 1;
        }
        proof {
            assert(self@.take(n_rows as int) =~= self@);
        }
        out
    }
}

} // verus!
