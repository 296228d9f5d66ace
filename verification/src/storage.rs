use vstd::prelude::*;
use crate::log::{LogView, RsLog};

verus! {

/// A failure of the store's backend, with the backend's own description.
#[derive(Debug, PartialEq, Eq)]
pub struct StorageError {
    pub message: String,
}

/// How many records a window of `amount` ranks starting at rank `offset`
/// holds when `count` records are stored.
pub open spec fn window_len(count: nat, offset: nat, amount: nat) -> nat {
    if offset >= count {
        0
    } else if amount <= count - offset {
        amount
    } else {
        (count - offset) as nat
    }
}

/// The record at `rank`, counted from the newest (rank 0), with its
/// sequence id, in a store that received `records` in this order.
pub open spec fn at_rank(records: Seq<LogView>, rank: int) -> (nat, LogView)
    recommends
        0 <= rank < records.len(),
{
    let id = records.len() - 1 - rank;
    (id as nat, records[id])
}

/// The window of up to `amount` records starting at rank `offset`, newest
/// first. Ranks past the oldest record are left out.
pub open spec fn window(records: Seq<LogView>, offset: nat, amount: nat) -> Seq<(nat, LogView)> {
    Seq::new(window_len(records.len(), offset, amount), |j: int| at_rank(records, offset + j))
}

/// The mathematical value of a list of stored records.
pub open spec fn stored_view(rows: Seq<(usize, RsLog)>) -> Seq<(nat, LogView)> {
    Seq::new(rows.len(), |i: int| (rows[i].0 as nat, rows[i].1@))
}

/// The volatile, append-only record store.
///
/// Its value is the sequence of records in append order; the record at
/// index `i` has sequence id `i`.
pub struct Storage {
    logs: Vec<(usize, RsLog)>,
    updated: bool,
}

impl View for Storage {
    type V = Seq<LogView>;

    closed spec fn view(&self) -> Seq<LogView> {
        Seq::new(self.logs@.len(), |i: int| self.logs@[i].1@)
    }
}

impl Storage {
    #[verifier::type_invariant]
    spec fn ids_are_indices(self) -> bool {
        forall|i: int| 0 <= i < self.logs@.len() ==> (#[trigger] self.logs@[i]).0 == i
    }

    /// Whether a record was appended since the flag was last cleared.
    pub closed spec fn updated(&self) -> bool {
        self.updated
    }

    /// An empty store. It starts out flagged as updated, so that a reader
    /// fetches once before the first append.
    pub fn new_memory() -> (s: Self)
        ensures
            s@ == Seq::<LogView>::empty(),
            s.updated(),
    {
        let s = Storage { logs: Vec::new(), updated: true };
        assert(s@ =~= Seq::<LogView>::empty());
        s
    }

    /// Appends `log` and returns its sequence id, which is the number of
    /// records stored before. Sets the updated flag.
    pub fn add_log(&mut self, log: RsLog) -> (r: Result<usize, StorageError>)
        ensures
            r is Ok,
            r->Ok_0 == old(self)@.len(),
            final(self)@ == old(self)@.push(log@),
            final(self).updated(),
    {
        proof {
            use_type_invariant(&*self);
        }
        let mut logs: Vec<(usize, RsLog)> = Vec::new();
        core::mem::swap(&mut self.logs, &mut logs);
        let id = logs.len();
        logs.push((id, log));
        self.logs = logs;
        self.updated = true;
        assert(self@ =~= old(self)@.push(log@));
        Ok(id)
    }

    /// The updated flag.
    pub fn was_updated(&self) -> (b: bool)
        ensures
            b == self.updated(),
    {
        self.updated
    }

    /// Sets or clears the updated flag; the records stay as they are.
    pub fn set_updated(&mut self, updated: bool)
        ensures
            final(self)@ == old(self)@,
            final(self).updated() == updated,
    {
        proof {
            use_type_invariant(&*self);
        }
        self.updated = updated;
    }

    /// Number of stored records.
    pub fn logs_amount(&self) -> (n: usize)
        ensures
            n == self@.len(),
    {
        self.logs.len()
    }

    /// The record at rank `index`, counted from the newest, with its
    /// sequence id; `None` when fewer than `index + 1` records are stored.
    pub fn get_log(&self, index: usize) -> (r: Option<(usize, RsLog)>)
        ensures
            index >= self@.len() ==> r is None,
            index < self@.len() ==> r is Some,
            r matches Some(row) ==> (row.0 as nat, row.1@) == at_rank(self@, index as int),
    {
        proof {
            use_type_invariant(self);
        }
        let total = self.logs.len();
        if index >= total {
            return None;
        }
        let at = total - 1 - index;
        let log = self.logs[at].1.clone();
        Some((at, log))
    }

    /// Up to `amount` records starting at rank `start`, newest first. A
    /// window that reaches past the oldest record is cut short, and one that
    /// starts there is empty.
    pub fn get_visible_logs(&self, start: usize, amount: usize) -> (r: Result<
        Vec<(usize, RsLog)>,
        StorageError,
    >)
        ensures
            r is Ok,
            stored_view(r->Ok_0@) == window(self@, start as nat, amount as nat),
    {
        proof {
            use_type_invariant(self);
        }
        let total = self.logs.len();
        let wanted = if start >= total {
            0
        } else if amount <= total - start {
            amount
        } else {
            total - start
        };
        let mut out: Vec<(usize, RsLog)> = Vec::new();
        let mut j: usize = 0;
        while j < wanted
            invariant
                j <= wanted,
                total == self.logs@.len(),
                wanted == window_len(total as nat, start as nat, amount as nat),
                out@.len() == j,
                forall|i: int| 0 <= i < self.logs@.len() ==> (#[trigger] self.logs@[i]).0 == i,
                forall|k: int|
                    0 <= k < j ==> (#[trigger] out@[k]).0 == total - 1 - start - k && out@[k].1@
                        == self.logs@[total - 1 - start - k].1@,
            decreases wanted - j,
        {
            let at = total - 1 - start - j;
            let log = self.logs[at].1.clone();
            out.push((at, log));
            j += 1;
        }
        assert(stored_view(out@) =~= window(self@, start as nat, amount as nat));
        Ok(out)
    }
}

/// An append gives the new record the next sequence id and rank 0; every
/// record stored before keeps its id and moves one rank back.
pub proof fn append_assigns_next_id(records: Seq<LogView>, log: LogView, rank: int)
    requires
        0 <= rank < records.len(),
    ensures
        at_rank(records.push(log), 0) == (records.len(), log),
        at_rank(records.push(log), rank + 1) == at_rank(records, rank),
{
}

/// The sequence ids of a window go down by one from each record to the
/// next, so no two records of a store share an id.
pub proof fn window_ids_descend(records: Seq<LogView>, offset: nat, amount: nat, i: int, j: int)
    requires
        0 <= i < j < window(records, offset, amount).len(),
    ensures
        window(records, offset, amount)[i].0 == window(records, offset, amount)[j].0 + (j - i),
        window(records, offset, amount)[i].0 < records.len(),
{
}

/// The window at rank 0 holds the `amount` newest records, newest first,
/// or all of them where fewer are stored.
pub proof fn window_from_newest(records: Seq<LogView>, amount: nat)
    ensures
        window(records, 0, amount).len() == if amount <= records.len() {
            amount
        } else {
            records.len()
        },
        forall|j: int|
            0 <= j < window(records, 0, amount).len() ==> #[trigger] window(records, 0, amount)[j]
                == ((records.len() - 1 - j) as nat, records[records.len() - 1 - j]),
{
}

/// A window that starts at or past the oldest record is empty, whatever
/// its size.
pub proof fn window_past_the_end_is_empty(records: Seq<LogView>, offset: nat, amount: nat)
    requires
        offset >= records.len(),
    ensures
        window(records, offset, amount) == Seq::<(nat, LogView)>::empty(),
{
    assert(window(records, offset, amount) =~= Seq::<(nat, LogView)>::empty());
}

/// A window is cut out of the full listing, newest first: it is what a
/// query of that listing with the offset `offset` and the limit `amount`
/// gives.
pub proof fn window_is_slice_of_all(records: Seq<LogView>, offset: nat, amount: nat)
    requires
        offset <= records.len(),
    ensures
        window(records, offset, amount) == window(records, 0, records.len()).subrange(
            offset as int,
            (offset + window_len(records.len(), offset, amount)) as int,
        ),
{
    assert(window(records, offset, amount) =~= window(records, 0, records.len()).subrange(
        offset as int,
        (offset + window_len(records.len(), offset, amount)) as int,
    ));
}

} // verus!
