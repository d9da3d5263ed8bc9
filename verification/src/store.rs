//! In-memory models of the durable stores: the notifications table and the
//! keyed FIFO queues.

use vstd::prelude::*;
use crate::channel::{NotificationChannel, NotificationStatus};
use crate::errors::NotiSrvError;
use crate::json::str_eq;

verus! {

// ---------------------------------------------------------------------------
// Notifications table
// ---------------------------------------------------------------------------

/// One row of the notifications table.
pub struct NotificationRow {
    pub id: String,
    pub user_id: String,
    pub recipient: String,
    pub channel: NotificationChannel,
    pub template_id: Option<String>,
    pub status: NotificationStatus,
}

/// The mathematical model of one row.
#[verifier::ext_equal]
pub struct RowV {
    pub id: Seq<char>,
    pub user_id: Seq<char>,
    pub recipient: Seq<char>,
    pub channel: NotificationChannel,
    pub template_id: Option<Seq<char>>,
    pub status: NotificationStatus,
}

impl View for NotificationRow {
    type V = RowV;

    open spec fn view(&self) -> RowV {
        RowV {
            id: self.id@,
            user_id: self.user_id@,
            recipient: self.recipient@,
            channel: self.channel,
            template_id: crate::job::spec_opt_view(self.template_id),
            status: self.status,
        }
    }
}

pub open spec fn spec_rows_view(rows: Seq<NotificationRow>) -> Seq<RowV> {
    Seq::new(rows.len(), |i: int| rows[i]@)
}

/// Some row holds this id.
pub open spec fn spec_has_id(rows: Seq<RowV>, id: Seq<char>) -> bool {
    exists|i: int| 0 <= i < rows.len() && (#[trigger] rows[i]).id == id
}

/// Ids are unique across the table.
pub open spec fn spec_ids_unique(rows: Seq<RowV>) -> bool {
    forall|i: int, j: int|
        0 <= i < j < rows.len() ==> (#[trigger] rows[i]).id != (#[trigger] rows[j]).id
}

/// One row after a status write aimed at `id`.
pub open spec fn spec_row_with(r: RowV, id: Seq<char>, st: NotificationStatus) -> RowV {
    if r.id == id {
        RowV { status: st, ..r }
    } else {
        r
    }
}

/// The table after `update_notification_status(id, st)`.
pub open spec fn spec_apply_update(rows: Seq<RowV>, id: Seq<char>, st: NotificationStatus) -> Seq<
    RowV,
> {
    Seq::new(rows.len(), |i: int| spec_row_with(rows[i], id, st))
}

/// The notifications table, held in memory.
pub struct NotificationRepo {
    rows: Vec<NotificationRow>,
}

impl View for NotificationRepo {
    type V = Seq<RowV>;

    closed spec fn view(&self) -> Seq<RowV> {
        spec_rows_view(self.rows@)
    }
}

impl NotificationRepo {
    /// Ids are unique; established by `new` and kept by every method.
    pub open spec fn wf(&self) -> bool {
        spec_ids_unique(self@)
    }

    /// An empty table.
    pub fn new() -> (r: NotificationRepo)
        ensures
            r@ == Seq::<RowV>::empty(),
            r.wf(),
    {
        let r = NotificationRepo { rows: Vec::new() };
        proof {
            assert(r@ =~= Seq::<RowV>::empty());
        }
        r
    }

    /// How many rows the table holds.
    pub fn len(&self) -> (r: usize)
        ensures
            r == self@.len(),
    {
        self.rows.len()
    }

    /// The row with this id, if one exists.
    pub fn get(&self, id: &str) -> (r: Option<&NotificationRow>)
        ensures
            match r {
                Some(row) => spec_has_id(self@, id@) && row@.id == id@ && self@.contains(row@),
                None => !spec_has_id(self@, id@),
            },
    {
        let n = self.rows.len();
        let mut k: usize = 0;
        while k < n
            invariant
                n == self.rows@.len(),
                k <= n,
                self@.len() == n,
                forall|t: int| 0 <= t < k ==> (#[trigger] self@[t]).id != id@,
                forall|t: int| 0 <= t < n ==> (#[trigger] self@[t]) == self.rows@[t]@,
            decreases n - k,
        {
            let row = &self.rows[k];
            if str_eq(row.id.as_str(), id) {
                proof {
                    assert(self@[k as int].id == id@);
                }
                return Some(row);
            }
            k = k + 1;
        }
        None
    }

    /// Inserts a fresh row; refused when the id is already present, as the
    /// primary key would be.
    pub fn insert(&mut self, row: NotificationRow) -> (r: Result<(), NotiSrvError>)
        requires
            old(self).wf(),
        ensures
            final(self).wf(),
            match r {
                Ok(()) => !spec_has_id(old(self)@, row@.id) && final(self)@ == old(self)@.push(
                    row@,
                ),
                Err(e) => e == NotiSrvError::DatabaseError && spec_has_id(old(self)@, row@.id)
                    && final(self)@ == old(self)@,
            },
    {
        let n = self.rows.len();
        let mut k: usize = 0;
        while k < n
            invariant
                n == self.rows@.len(),
                k <= n,
                self@.len() == n,
                self@ == old(self)@,
                spec_ids_unique(old(self)@),
                forall|t: int| 0 <= t < k ==> (#[trigger] self@[t]).id != row@.id,
                forall|t: int| 0 <= t < n ==> (#[trigger] self@[t]) == self.rows@[t]@,
            decreases n - k,
        {
            if str_eq(self.rows[k].id.as_str(), row.id.as_str()) {
                proof {
                    assert(self@[k as int].id == row@.id);
                }
                return Err(NotiSrvError::DatabaseError);
            }
            k = k + 1;
        }
        let ghost pre = self@;
        self.rows.push(row);
        proof {
            assert(self@ =~= old(self)@.push(row@));
            assert forall|i: int, j: int| 0 <= i < j < self@.len() implies (
            #[trigger] self@[i]).id != (#[trigger] self@[j]).id by {
                if j < self@.len() - 1 {
                    assert(self@[i] == old(self)@[i]);
                    assert(self@[j] == old(self)@[j]);
                    assert(old(self)@[i].id != old(self)@[j].id);
                } else {
                    assert(self@[j] == row@);
                    assert(self@[i] == old(self)@[i]);
                    assert(pre[i].id != row@.id);
                }
            }
        }
        Ok(())
    }

    /// Sets the status of the row with this id; answers with the number of
    /// rows matched, as the SQL update does.
    pub fn update_notification_status(&mut self, id: &str, status: NotificationStatus) -> (r: u64)
        requires
            old(self).wf(),
        ensures
            final(self).wf(),
            final(self)@ == spec_apply_update(old(self)@, id@, status),
            r == 1 <==> spec_has_id(old(self)@, id@),
            r == 0 <==> !spec_has_id(old(self)@, id@),
    {
        let n = self.rows.len();
        let mut out: Vec<NotificationRow> = Vec::new();
        let mut count: u64 = 0;
        let mut k: usize = 0;
        while k < n
            invariant
                n == self.rows@.len(),
                k <= n,
                self@ == old(self)@,
                self@.len() == n,
                spec_ids_unique(old(self)@),
                out@.len() == k,
                count == 1 <==> spec_has_id(old(self)@.take(k as int), id@),
                count == 0 <==> !spec_has_id(old(self)@.take(k as int), id@),
                forall|t: int|
                    0 <= t < k ==> (#[trigger] out@[t]@) == spec_row_with(
                        old(self)@[t],
                        id@,
                        status,
                    ),
                forall|t: int| 0 <= t < n ==> (#[trigger] self@[t]) == self.rows@[t]@,
            decreases n - k,
        {
            let row = &self.rows[k];
            let hit = str_eq(row.id.as_str(), id);
            let new_status = if hit {
                status
            } else {
                row.status
            };
            let copy = NotificationRow {
                id: row.id.clone(),
                user_id: row.user_id.clone(),
                recipient: row.recipient.clone(),
                channel: row.channel,
                template_id: clone_opt_string(&row.template_id),
                status: new_status,
            };
            proof {
                assert(self@[k as int] == self.rows@[k as int]@);
                assert(copy@ == spec_row_with(old(self)@[k as int], id@, status));
                assert(old(self)@.take(k + 1 as int)[k as int] == old(self)@[k as int]);
                assert forall|i: int|
                    0 <= i < k && (#[trigger] old(self)@.take(k + 1 as int)[i]).id
                        == id@ implies spec_has_id(old(self)@.take(k as int), id@) by {
                    assert(old(self)@.take(k as int)[i] == old(self)@[i]);
                }
                assert forall|i: int|
                    0 <= i < k && (#[trigger] old(self)@.take(k as int)[i]).id
                        == id@ implies spec_has_id(old(self)@.take(k + 1 as int), id@) by {
                    assert(old(self)@.take(k + 1 as int)[i] == old(self)@[i]);
                }
            }
            if hit {
                proof {
                    if count == 1 {
                        let w = choose|i: int|
                            0 <= i < k && (#[trigger] old(self)@.take(k as int)[i]).id == id@;
                        assert(old(self)@.take(k as int)[w] == old(self)@[w]);
                        assert(false);
                    }
                    assert(spec_has_id(old(self)@.take(k + 1 as int), id@));
                }
                count = 1;
            }
            out.push(copy);
            k = k + 1;
        }
        self.rows = out;
        proof {
            assert(old(self)@.take(n as int) =~= old(self)@);
            assert(self@ =~= spec_apply_update(old(self)@, id@, status));
            assert forall|i: int, j: int| 0 <= i < j < self@.len() implies (
            #[trigger] self@[i]).id != (#[trigger] self@[j]).id by {
                assert(self@[i] == spec_row_with(old(self)@[i], id@, status));
                assert(self@[j] == spec_row_with(old(self)@[j], id@, status));
            }
        }
        count
    }
}

pub(crate) fn clone_opt_string(o: &Option<String>) -> (r: Option<String>)
    ensures
        crate::job::spec_opt_view(r) == crate::job::spec_opt_view(*o),
{
    match o {
        Some(s) => Some(s.clone()),
        None => None,
    }
}

/// Law: writing the same status twice leaves the table exactly as one write
/// does; terminal status writes are idempotent.
pub proof fn lemma_update_idempotent(rows: Seq<RowV>, id: Seq<char>, st: NotificationStatus)
    ensures
        spec_apply_update(spec_apply_update(rows, id, st), id, st) == spec_apply_update(
            rows,
            id,
            st,
        ),
{
    let once = spec_apply_update(rows, id, st);
    let twice = spec_apply_update(once, id, st);
    assert(twice =~= once) by {
        assert forall|i: int| 0 <= i < rows.len() implies twice[i] == once[i] by {
            assert(once[i] == spec_row_with(rows[i], id, st));
            assert(twice[i] == spec_row_with(once[i], id, st));
        }
    }
}

// ---------------------------------------------------------------------------
// Keyed FIFO queues
// ---------------------------------------------------------------------------

pub open spec fn spec_strs_view(v: Seq<String>) -> Seq<Seq<char>> {
    Seq::new(v.len(), |i: int| v[i]@)
}

pub open spec fn spec_queues_view(qs: Seq<(String, Vec<String>)>) -> Seq<
    (Seq<char>, Seq<Seq<char>>),
> {
    Seq::new(qs.len(), |i: int| (qs[i].0@, spec_strs_view(qs[i].1@)))
}

/// The entries under `key`: those of the first entry with that key, or none.
pub open spec fn spec_queue_of(qs: Seq<(Seq<char>, Seq<Seq<char>>)>, key: Seq<char>) -> Seq<
    Seq<char>,
>
    decreases qs,
{
    if qs.len() == 0 {
        Seq::empty()
    } else if qs[0].0 == key {
        qs[0].1
    } else {
        spec_queue_of(qs.skip(1), key)
    }
}

proof fn lemma_queue_of_first(qs: Seq<(Seq<char>, Seq<Seq<char>>)>, key: Seq<char>, k: int)
    requires
        0 <= k <= qs.len(),
        forall|t: int| 0 <= t < k ==> (#[trigger] qs[t]).0 != key,
        k < qs.len() ==> qs[k].0 == key,
    ensures
        k < qs.len() ==> spec_queue_of(qs, key) == qs[k].1,
        k == qs.len() ==> spec_queue_of(qs, key) == Seq::<Seq<char>>::empty(),
    decreases k,
{
    if qs.len() == 0 {
    } else if k == 0 {
    } else {
        assert(qs[0].0 != key);
        let rest = qs.skip(1);
        assert(forall|t: int| 0 <= t < rest.len() ==> rest[t] == qs[t + 1]);
        lemma_queue_of_first(rest, key, k - 1);
    }
}

proof fn lemma_queue_of_same(
    a: Seq<(Seq<char>, Seq<Seq<char>>)>,
    b: Seq<(Seq<char>, Seq<Seq<char>>)>,
    key: Seq<char>,
)
    requires
        a.len() == b.len(),
        forall|t: int| 0 <= t < a.len() ==> (#[trigger] a[t]).0 == (#[trigger] b[t]).0,
        forall|t: int| 0 <= t < a.len() && (#[trigger] a[t]).0 == key ==> a[t].1 == b[t].1,
    ensures
        spec_queue_of(a, key) == spec_queue_of(b, key),
    decreases a.len(),
{
    if a.len() == 0 {
    } else if a[0].0 == key {
        assert(a[0].1 == b[0].1);
    } else {
        let ra = a.skip(1);
        let rb = b.skip(1);
        assert(forall|t: int| 0 <= t < ra.len() ==> ra[t] == a[t + 1]);
        assert(forall|t: int| 0 <= t < rb.len() ==> rb[t] == b[t + 1]);
        lemma_queue_of_same(ra, rb, key);
    }
}

proof fn lemma_queue_of_push(
    a: Seq<(Seq<char>, Seq<Seq<char>>)>,
    e: (Seq<char>, Seq<Seq<char>>),
    key: Seq<char>,
)
    requires
        e.0 != key,
    ensures
        spec_queue_of(a.push(e), key) == spec_queue_of(a, key),
    decreases a.len(),
{
    if a.len() == 0 {
        assert(a.push(e)[0] == e);
        assert(a.push(e).skip(1) =~= Seq::<(Seq<char>, Seq<Seq<char>>)>::empty());
        assert(spec_queue_of(Seq::<(Seq<char>, Seq<Seq<char>>)>::empty(), key) == Seq::<
            Seq<char>,
        >::empty());
        assert(spec_queue_of(a.push(e), key) == spec_queue_of(a.push(e).skip(1), key));
        assert(spec_queue_of(a, key) == Seq::<Seq<char>>::empty());
    } else {
        assert(a.push(e)[0] == a[0]);
        if a[0].0 == key {
            assert(spec_queue_of(a.push(e), key) == a[0].1);
            assert(spec_queue_of(a, key) == a[0].1);
        } else {
            assert(a.push(e).skip(1) =~= a.skip(1).push(e));
            lemma_queue_of_push(a.skip(1), e, key);
            assert(spec_queue_of(a.push(e), key) == spec_queue_of(a.push(e).skip(1), key));
            assert(spec_queue_of(a, key) == spec_queue_of(a.skip(1), key));
        }
    }
}

/// The queues, held in memory, keyed by queue name.
pub struct RedisRepository {
    queues: Vec<(String, Vec<String>)>,
}

impl View for RedisRepository {
    type V = Seq<(Seq<char>, Seq<Seq<char>>)>;

    closed spec fn view(&self) -> Seq<(Seq<char>, Seq<Seq<char>>)> {
        spec_queues_view(self.queues@)
    }
}

impl RedisRepository {
    /// No queues yet: every key reads as an empty queue.
    pub fn new() -> (r: RedisRepository)
        ensures
            forall|k: Seq<char>| spec_queue_of(r@, k) == Seq::<Seq<char>>::empty(),
    {
        let r = RedisRepository { queues: Vec::new() };
        proof {
            assert forall|k: Seq<char>|
                spec_queue_of(r@, k) == Seq::<Seq<char>>::empty() by {
                assert(r@.len() == 0);
            }
        }
        r
    }

    /// Appends `value` at the tail of the queue under `key`; every other
    /// queue is left as it is.
    pub fn push_to_queue(&mut self, key: &str, value: &str)
        ensures
            spec_queue_of(final(self)@, key@) == spec_queue_of(old(self)@, key@).push(value@),
            forall|k2: Seq<char>|
                k2 != key@ ==> spec_queue_of(final(self)@, k2) == spec_queue_of(old(self)@, k2),
    {
        let n = self.queues.len();
        let mut i: usize = 0;
        while i < n
            invariant
                n == self.queues@.len(),
                i <= n,
                self.queues@ == old(self).queues@,
                self@ == old(self)@,
                self@.len() == n,
                forall|t: int| 0 <= t < i ==> (#[trigger] self@[t]).0 != key@,
            decreases n - i,
        {
            if str_eq(self.queues[i].0.as_str(), key) {
                proof {
                    assert(self@[i as int].0 == self.queues@[i as int].0@);
                }
                let (k0, mut entries) = self.queues.remove(i);
                entries.push(String::from_str(value));
                let ghost entry_new = (k0, entries);
                self.queues.insert(i, (k0, entries));
                proof {
                    assert(self.queues@ =~= old(self).queues@.update(i as int, entry_new));
                    let a = old(self)@;
                    let b = self@;
                    assert(b.len() == a.len());
                    assert forall|t: int| 0 <= t < a.len() implies (#[trigger] b[t]).0 == (
                    #[trigger] a[t]).0 && (t != i ==> b[t].1 == a[t].1) by {
                        if t != i {
                            assert(self.queues@[t] == old(self).queues@[t]);
                        } else {
                            assert(entry_new.0@ == old(self).queues@[i as int].0@);
                        }
                    }
                    assert(b[i as int].1 =~= a[i as int].1.push(value@));
                    assert forall|t: int| 0 <= t < i implies (#[trigger] b[t]).0 != key@ by {
                        assert(b[t].0 == a[t].0);
                        assert(a[t].0 != key@);
                    }
                    assert(b[i as int].0 == a[i as int].0);
                    lemma_queue_of_first(a, key@, i as int);
                    lemma_queue_of_first(b, key@, i as int);
                    assert forall|k2: Seq<char>| k2 != key@ implies spec_queue_of(b, k2)
                        == spec_queue_of(a, k2) by {
                        lemma_queue_of_same(a, b, k2);
                    }
                }
                return;
            }
            i = i + 1;
        }
        let mut entries: Vec<String> = Vec::new();
        entries.push(String::from_str(value));
        let ghost a = self@;
        self.queues.push((String::from_str(key), entries));
        proof {
            let b = self@;
            assert(spec_strs_view(self.queues@[n as int].1@) =~= seq![value@]);
            assert(b =~= a.push((key@, spec_strs_view(self.queues@[n as int].1@))));
            assert(b =~= a.push((key@, seq![value@])));
            lemma_queue_of_first(a, key@, n as int);
            lemma_queue_of_first(b, key@, n as int);
            assert(b[n as int].1 == seq![value@]);
            assert(spec_queue_of(b, key@) =~= spec_queue_of(a, key@).push(value@));
            assert forall|k2: Seq<char>| k2 != key@ implies spec_queue_of(b, k2) == spec_queue_of(
                a,
                k2,
            ) by {
                lemma_queue_of_push(a, (key@, seq![value@]), k2);
            }
        }
    }

    /// Takes the head of the queue under `key`; `None` exactly when that
    /// queue is empty. Every other queue is left as it is.
    pub fn pop_from_queue(&mut self, key: &str) -> (r: Option<String>)
        ensures
            match r {
                Some(v) => spec_queue_of(old(self)@, key@).len() > 0 && v@ == spec_queue_of(
                    old(self)@,
                    key@,
                )[0] && spec_queue_of(final(self)@, key@) == spec_queue_of(old(self)@, key@).skip(
                    1,
                ),
                None => spec_queue_of(old(self)@, key@).len() == 0 && final(self)@ == old(self)@,
            },
            forall|k2: Seq<char>|
                k2 != key@ ==> spec_queue_of(final(self)@, k2) == spec_queue_of(old(self)@, k2),
    {
        let n = self.queues.len();
        let mut i: usize = 0;
        while i < n
            invariant
                n == self.queues@.len(),
                i <= n,
                self.queues@ == old(self).queues@,
                self@ == old(self)@,
                self@.len() == n,
                forall|t: int| 0 <= t < i ==> (#[trigger] self@[t]).0 != key@,
            decreases n - i,
        {
            if str_eq(self.queues[i].0.as_str(), key) {
                proof {
                    assert(self@[i as int].0 == self.queues@[i as int].0@);
                    lemma_queue_of_first(old(self)@, key@, i as int);
                }
                if self.queues[i].1.len() == 0 {
                    proof {
                        assert(self@[i as int].1 == spec_strs_view(self.queues@[i as int].1@));
                        assert(spec_queue_of(old(self)@, key@) =~= Seq::<Seq<char>>::empty());
                    }
                    return None;
                }
                let (k0, mut entries) = self.queues.remove(i);
                let head = entries.remove(0);
                let ghost entry_new = (k0, entries);
                self.queues.insert(i, (k0, entries));
                proof {
                    assert(self.queues@ =~= old(self).queues@.update(i as int, entry_new));
                    let a = old(self)@;
                    let b = self@;
                    assert(b.len() == a.len());
                    assert forall|t: int| 0 <= t < a.len() implies (#[trigger] b[t]).0 == (
                    #[trigger] a[t]).0 && (t != i ==> b[t].1 == a[t].1) by {
                        if t != i {
                            assert(self.queues@[t] == old(self).queues@[t]);
                        } else {
                            assert(entry_new.0@ == old(self).queues@[i as int].0@);
                        }
                    }
                    assert(b[i as int].1 =~= a[i as int].1.skip(1));
                    assert(head@ == a[i as int].1[0]);
                    assert forall|t: int| 0 <= t < i implies (#[trigger] b[t]).0 != key@ by {
                        assert(b[t].0 == a[t].0);
                        assert(a[t].0 != key@);
                    }
                    assert(b[i as int].0 == a[i as int].0);
                    lemma_queue_of_first(b, key@, i as int);
                    assert forall|k2: Seq<char>| k2 != key@ implies spec_queue_of(b, k2)
                        == spec_queue_of(a, k2) by {
                        lemma_queue_of_same(a, b, k2);
                    }
                }
                return Some(head);
            }
            i = i + 1;
        }
        proof {
            lemma_queue_of_first(old(self)@, key@, n as int);
        }
        None
    }

    /// How many values wait under `key`.
    pub fn queue_len(&self, key: &str) -> (r: usize)
        ensures
            r == spec_queue_of(self@, key@).len(),
    {
        let n = self.queues.len();
        let mut i: usize = 0;
        while i < n
            invariant
                n == self.queues@.len(),
                i <= n,
                self@.len() == n,
                forall|t: int| 0 <= t < i ==> (#[trigger] self@[t]).0 != key@,
            decreases n - i,
        {
            if str_eq(self.queues[i].0.as_str(), key) {
                proof {
                    assert(self@[i as int].0 == self.queues@[i as int].0@);
                    lemma_queue_of_first(self@, key@, i as int);
                    assert(self@[i as int].1 == spec_strs_view(self.queues@[i as int].1@));
                }
                return self.queues[i].1.len();
            }
            i = i + 1;
        }
        proof {
            lemma_queue_of_first(self@, key@, n as int);
        }
        0
    }
}

} // verus!
