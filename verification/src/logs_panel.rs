use vstd::prelude::*;
use vstd::slice::slice_subrange;
use crate::log::{LogView, RsLog};
use crate::storage::{stored_view, window, Storage, StorageError};

verus! {

/// Number of ranks by which the start of a fetched chunk is aligned.
pub const CHUNK_SIZE: usize = 64;

/// `a - b`, or zero where `b` is larger.
pub open spec fn minus(a: int, b: int) -> int {
    if a >= b {
        a - b
    } else {
        0
    }
}

/// The smaller of two numbers.
pub open spec fn least(a: int, b: int) -> int {
    if a <= b {
        a
    } else {
        b
    }
}

/// The selection that is kept when `total` records are stored: none in an
/// empty store, else the wanted rank, rank 0 where none was wanted, moved
/// onto the oldest record where it lies past it.
pub open spec fn clamped_selection(wanted: Option<usize>, total: usize) -> Option<usize> {
    if total == 0 {
        None
    } else {
        match wanted {
            None => Some(0usize),
            Some(rank) => Some(least(rank as int, total - 1) as usize),
        }
    }
}

/// The rank at the top of the viewport: half a viewport before the
/// selected rank, but never so far that the viewport runs past the oldest
/// record, and never before rank 0.
pub open spec fn scroll_for(selected: usize, height: usize, total: usize) -> int {
    least(minus(selected as int, height as int / 2), minus(total as int, height as int))
}

/// The rank at which the chunk that holds `scroll` starts.
pub open spec fn chunk_origin(scroll: int) -> int {
    (scroll / CHUNK_SIZE as int) * CHUNK_SIZE
}

/// The number of ranks to fetch for a viewport of `height` rows.
pub open spec fn chunk_amount_for(height: usize) -> int {
    least(CHUNK_SIZE + height, usize::MAX as int)
}

/// Whether a chunk of `amount` ranks starting at rank `start` holds every
/// record that a viewport of `height` rows at rank `scroll` shows, in a
/// store of `total` records.
pub open spec fn covers(start: int, amount: int, scroll: int, height: int, total: int) -> bool {
    start <= scroll && (scroll + height <= start + amount || total <= start + amount)
}

/// The part of a chunk of `len` records starting at rank `start` that a
/// viewport of `height` rows at rank `scroll` shows, as a range of indices.
pub open spec fn shown_range(start: int, len: int, scroll: int, height: int) -> (int, int) {
    let from = least(minus(scroll, start), len);
    (from, least(from + height, len))
}

/// Cutting the viewport out of a chunk that covers it gives the window of
/// the store at the viewport: what is shown is what the store holds at
/// those ranks.
pub proof fn shown_part_is_the_window(
    records: Seq<LogView>,
    start: nat,
    amount: nat,
    scroll: nat,
    height: nat,
)
    requires
        covers(start as int, amount as int, scroll as int, height as int, records.len() as int),
    ensures
        ({
            let chunk = window(records, start, amount);
            let range = shown_range(start as int, chunk.len() as int, scroll as int, height as int);
            chunk.subrange(range.0, range.1) == window(records, scroll, height)
        }),
{
    let chunk = window(records, start, amount);
    let range = shown_range(start as int, chunk.len() as int, scroll as int, height as int);
    assert(chunk.subrange(range.0, range.1) =~= window(records, scroll, height));
}

/// With a viewport of at least one row, the selected record is on screen.
pub proof fn selection_is_on_screen(selected: usize, height: usize, total: usize)
    requires
        height > 0,
        selected < total,
    ensures
        scroll_for(selected, height, total) <= selected < scroll_for(selected, height, total)
            + height,
        0 <= scroll_for(selected, height, total) <= minus(total as int, height as int),
{
}

/// The viewport of the log list over the store, with the chunk of records
/// that was last fetched for it.
pub struct LogsPanel {
    /// Rows of the viewport.
    pub area_height: usize,
    /// Rank of the selected record, if one is selected.
    pub selected: Option<usize>,
    /// Rank at the top of the viewport.
    pub logs_scroll: usize,
    /// Number of stored records at the last update.
    pub logs_amount: usize,
    /// The chunk that was last fetched, newest first.
    pub visible_logs: Vec<(usize, RsLog)>,
    /// Whether `visible_logs` holds a fetched chunk.
    pub chunk_valid: bool,
    /// Rank of the first record of the chunk.
    pub chunk_start: usize,
    /// Number of ranks that were asked for when the chunk was fetched.
    pub chunk_amount: usize,
    /// Number of stored records when the chunk was fetched.
    pub chunk_total: usize,
    /// The window that was asked for and not answered yet: start, amount
    /// and the number of stored records.
    pub request: Option<(usize, usize, usize)>,
}

impl LogsPanel {
    /// Whether the panel follows a store that received `records`: its
    /// chunk, if it has one, was fetched when the store held no more
    /// records than now, and if it held as many, the chunk is what the
    /// store holds at the chunk's ranks. A chunk fetched at a smaller count
    /// is out of date and says nothing.
    pub open spec fn follows(&self, records: Seq<LogView>) -> bool {
        self.chunk_valid ==> {
            &&& self.chunk_total <= records.len()
            &&& self.chunk_total == records.len() ==> stored_view(self.visible_logs@) == window(
                records,
                self.chunk_start as nat,
                self.chunk_amount as nat,
            )
        }
    }

    /// The records on screen, with their sequence ids, newest first.
    pub open spec fn on_screen(&self) -> Seq<(nat, LogView)> {
        stored_view(self.visible_logs@.subrange(self.shown().0, self.shown().1))
    }

    /// Whether the chunk can serve the viewport as it stands, in a store of
    /// `total` records.
    pub open spec fn chunk_serves(&self, total: usize) -> bool {
        self.chunk_valid && self.chunk_total == total && covers(
            self.chunk_start as int,
            self.chunk_amount as int,
            self.logs_scroll as int,
            self.area_height as int,
            total as int,
        )
    }

    /// The range of indices of the chunk that is on screen.
    pub open spec fn shown(&self) -> (int, int) {
        shown_range(
            self.chunk_start as int,
            self.visible_logs@.len() as int,
            self.logs_scroll as int,
            self.area_height as int,
        )
    }

    /// Whether the panel is as it is made: without rows, without a
    /// selection, at rank 0, with no chunk and nothing asked for.
    pub open spec fn is_fresh(&self) -> bool {
        &&& self.area_height == 0
        &&& self.selected is None
        &&& self.logs_scroll == 0
        &&& self.logs_amount == 0
        &&& self.visible_logs@.len() == 0
        &&& !self.chunk_valid
        &&& self.chunk_start == 0
        &&& self.chunk_amount == 0
        &&& self.chunk_total == 0
        &&& self.request is None
    }

    /// A panel without rows that shows nothing and has fetched nothing.
    pub fn new() -> (p: Self)
        ensures
            p.is_fresh(),
    {
        LogsPanel {
            area_height: 0,
            selected: None,
            logs_scroll: 0,
            logs_amount: 0,
            visible_logs: Vec::new(),
            chunk_valid: false,
            chunk_start: 0,
            chunk_amount: 0,
            chunk_total: 0,
            request: None,
        }
    }

    /// Moves the selection one rank towards the older records; selects
    /// rank 0 where nothing was selected. The next update moves a
    /// selection past the oldest record back onto it.
    pub fn select_next(&mut self)
        ensures
            final(self).selected == Some(
                match old(self).selected {
                    None => 0usize,
                    Some(rank) => least(rank + 1, usize::MAX as int) as usize,
                },
            ),
            *final(self) == (LogsPanel { selected: final(self).selected, ..*old(self) }),
    {
        let next = match self.selected {
            None => 0,
            Some(rank) => if rank < usize::MAX {
                rank + 1
            } else {
                rank
            },
        };
        self.selected = Some(next);
    }

    /// Moves the selection one rank towards the newer records, stopping at
    /// rank 0; selects the oldest record where nothing was selected.
    pub fn select_previous(&mut self)
        ensures
            final(self).selected == Some(
                match old(self).selected {
                    None => usize::MAX,
                    Some(rank) => minus(rank as int, 1) as usize,
                },
            ),
            *final(self) == (LogsPanel { selected: final(self).selected, ..*old(self) }),
    {
        let previous = match self.selected {
            None => usize::MAX,
            Some(rank) => if rank > 0 {
                rank - 1
            } else {
                0
            },
        };
        self.selected = Some(previous);
    }

    /// Selects the newest record.
    pub fn select_first(&mut self)
        ensures
            *final(self) == (LogsPanel { selected: Some(0usize), ..*old(self) }),
    {
        self.selected = Some(0);
    }

    /// Selects the oldest record that the last update knew of.
    pub fn select_last(&mut self)
        ensures
            *final(self) == (LogsPanel {
                selected: Some(minus(old(self).logs_amount as int, 1) as usize),
                ..*old(self)
            }),
    {
        let last = if self.logs_amount > 0 {
            self.logs_amount - 1
        } else {
            0
        };
        self.selected = Some(last);
    }

    /// First half of an update, for a store of `total_logs` records.
    ///
    /// Clamps the selection, moves the viewport so that the selection is
    /// centred, and says which window to fetch: none where the store is
    /// empty or the chunk at hand still serves the viewport, else the
    /// chunk-aligned window around the viewport. The window asked for is
    /// kept in `request` until [`LogsPanel::accept`] is called. An empty
    /// store empties the chunk.
    pub fn plan(&mut self, total_logs: usize) -> (r: Option<(usize, usize)>)
        ensures
            final(self).area_height == old(self).area_height,
            final(self).selected == clamped_selection(old(self).selected, total_logs),
            total_logs == 0 ==> {
                &&& r is None
                &&& final(self).visible_logs@.len() == 0
                &&& !final(self).chunk_valid
                &&& final(self).logs_scroll == old(self).logs_scroll
                &&& final(self).logs_amount == old(self).logs_amount
            },
            total_logs > 0 ==> {
                &&& final(self).logs_amount == total_logs
                &&& final(self).logs_scroll == scroll_for(
                    final(self).selected->0,
                    old(self).area_height,
                    total_logs,
                )
                &&& final(self).visible_logs == old(self).visible_logs
                &&& final(self).chunk_valid == old(self).chunk_valid
                &&& r is None <==> final(self).chunk_serves(total_logs)
                &&& r matches Some(w) ==> w.0 == chunk_origin(final(self).logs_scroll as int)
                    && w.1 == chunk_amount_for(old(self).area_height)
            },
            final(self).chunk_start == old(self).chunk_start,
            final(self).chunk_amount == old(self).chunk_amount,
            final(self).chunk_total == old(self).chunk_total,
            final(self).request == match r {
                None => None,
                Some(w) => Some((w.0, w.1, total_logs)),
            },
    {
        self.request = None;
        if total_logs == 0 {
            self.selected = None;
            self.visible_logs = Vec::new();
            self.chunk_valid = false;
            return None;
        }
        let selected = match self.selected {
            None => 0,
            Some(rank) => if rank <= total_logs - 1 {
                rank
            } else {
                total_logs - 1
            },
        };
        self.selected = Some(selected);
        let height = self.area_height;
        let centred = if selected >= height / 2 {
            selected - height / 2
        } else {
            0
        };
        let last_top = if total_logs >= height {
            total_logs - height
        } else {
            0
        };
        let scroll = if centred <= last_top {
            centred
        } else {
            last_top
        };
        self.logs_scroll = scroll;
        self.logs_amount = total_logs;
        if self.chunk_valid && self.chunk_total == total_logs && self.chunk_start <= scroll {
            let skipped = scroll - self.chunk_start;
            if skipped <= self.chunk_amount {
                let left = self.chunk_amount - skipped;
                if height <= left || total_logs - scroll <= left {
                    return None;
                }
            }
        }
        let start = (scroll / CHUNK_SIZE) * CHUNK_SIZE;
        let amount = if height <= usize::MAX - CHUNK_SIZE {
            CHUNK_SIZE + height
        } else {
            usize::MAX
        };
        self.request = Some((start, amount, total_logs));
        Some((start, amount))
    }

    /// Second half of an update: takes what the store answered to the
    /// window that [`LogsPanel::plan`] asked for. An answer becomes the
    /// chunk; a failure, or an answer to nothing asked, leaves the chunk at
    /// hand as it is.
    pub fn accept(&mut self, answer: Result<Vec<(usize, RsLog)>, StorageError>)
        ensures
            final(self).request is None,
            final(self).area_height == old(self).area_height,
            final(self).selected == old(self).selected,
            final(self).logs_scroll == old(self).logs_scroll,
            final(self).logs_amount == old(self).logs_amount,
            match (old(self).request, answer) {
                (Some(asked), Ok(rows)) => {
                    &&& final(self).visible_logs == rows
                    &&& final(self).chunk_valid
                    &&& final(self).chunk_start == asked.0
                    &&& final(self).chunk_amount == asked.1
                    &&& final(self).chunk_total == asked.2
                },
                _ => {
                    &&& final(self).visible_logs == old(self).visible_logs
                    &&& final(self).chunk_valid == old(self).chunk_valid
                    &&& final(self).chunk_start == old(self).chunk_start
                    &&& final(self).chunk_amount == old(self).chunk_amount
                    &&& final(self).chunk_total == old(self).chunk_total
                },
            },
    {
        let asked = self.request;
        self.request = None;
        match asked {
            Some(asked) => match answer {
                Ok(rows) => {
                    self.visible_logs = rows;
                    self.chunk_valid = true;
                    self.chunk_start = asked.0;
                    self.chunk_amount = asked.1;
                    self.chunk_total = asked.2;
                },
                Err(_) => {},
            },
            None => {},
        }
    }

    /// One update against the volatile store: plans, fetches the window
    /// that the plan asks for, and accepts it. A panel that followed the
    /// store before follows it afterwards, and then shows exactly the
    /// records that the store holds at the viewport's ranks.
    pub fn update(&mut self, storage: &Storage)
        ensures
            final(self).area_height == old(self).area_height,
            final(self).selected == clamped_selection(old(self).selected, storage@.len() as usize),
            final(self).request is None,
            old(self).follows(storage@) ==> final(self).follows(storage@),
            storage@.len() == 0 ==> {
                &&& final(self).visible_logs@.len() == 0
                &&& !final(self).chunk_valid
                &&& final(self).logs_scroll == old(self).logs_scroll
                &&& final(self).logs_amount == old(self).logs_amount
            },
            storage@.len() > 0 ==> {
                &&& final(self).logs_amount == storage@.len()
                &&& final(self).logs_scroll == scroll_for(
                    final(self).selected->0,
                    old(self).area_height,
                    storage@.len() as usize,
                )
                &&& final(self).chunk_serves(storage@.len() as usize)
                &&& old(self).follows(storage@) ==> final(self).on_screen() == window(
                    storage@,
                    final(self).logs_scroll as nat,
                    final(self).area_height as nat,
                )
            },
    {
        let total = storage.logs_amount();
        match self.plan(total) {
            None => {},
            Some(asked) => {
                let answer = storage.get_visible_logs(asked.0, asked.1);
                self.accept(answer);
            },
        }
        proof {
            if total > 0 && old(self).follows(storage@) {
                shown_part_is_the_window(
                    storage@,
                    self.chunk_start as nat,
                    self.chunk_amount as nat,
                    self.logs_scroll as nat,
                    self.area_height as nat,
                );
                let chunk = window(storage@, self.chunk_start as nat, self.chunk_amount as nat);
                assert(stored_view(self.visible_logs@) == chunk);
                assert(self.on_screen() =~= chunk.subrange(self.shown().0, self.shown().1));
            }
        }
    }

    /// The rows on screen: the part of the chunk at the viewport, newest
    /// first. Empty where nothing is stored or fetched.
    pub fn get_visible_logs(&self) -> (rows: &[(usize, RsLog)])
        ensures
            rows@ == self.visible_logs@.subrange(self.shown().0, self.shown().1),
    {
        let len = self.visible_logs.len();
        let skipped = if self.logs_scroll >= self.chunk_start {
            self.logs_scroll - self.chunk_start
        } else {
            0
        };
        let from = if skipped <= len {
            skipped
        } else {
            len
        };
        let to = if self.area_height <= len - from {
            from + self.area_height
        } else {
            len
        };
        slice_subrange(self.visible_logs.as_slice(), from, to)
    }

    /// The row of the viewport on which the selection lies, counted from
    /// the top; row 0 where nothing is selected.
    pub fn selected_row(&self) -> (row: usize)
        ensures
            row == match self.selected {
                None => 0,
                Some(rank) => minus(rank as int, self.logs_scroll as int),
            },
    {
        match self.selected {
            None => 0,
            Some(rank) => if rank >= self.logs_scroll {
                rank - self.logs_scroll
            } else {
                0
            },
        }
    }
}

/// A panel that follows a store still follows it after an append: the
/// chunk it holds is then out of date, and the next update fetches anew.
pub proof fn panel_follows_after_append(panel: LogsPanel, records: Seq<LogView>, log: LogView)
    requires
        panel.follows(records),
    ensures
        panel.follows(records.push(log)),
        !panel.chunk_serves(records.push(log).len() as usize) || records.len() >= usize::MAX,
{
}

/// A chunk that was fetched for the viewport's height serves the viewport
/// wherever it starts within `CHUNK_SIZE` ranks of the chunk's start: as
/// long as nothing is appended, an update fetches only once the viewport
/// has left that range.
pub proof fn no_fetch_inside_chunk(panel: LogsPanel, total: usize, scroll: usize)
    requires
        panel.chunk_valid,
        panel.chunk_total == total,
        panel.chunk_amount == chunk_amount_for(panel.area_height),
    ensures
        panel.chunk_start <= scroll <= panel.chunk_start + CHUNK_SIZE ==> (LogsPanel {
            logs_scroll: scroll,
            ..panel
        }).chunk_serves(total),
{
}

/// Two fetches in a row for the same height, with nothing appended in
/// between, are a chunk apart: the second chunk starts at least
/// `CHUNK_SIZE` ranks after the first, or before it.
pub proof fn fetches_are_a_chunk_apart(panel: LogsPanel, total: usize, scroll: usize)
    requires
        panel.chunk_valid,
        panel.chunk_total == total,
        panel.chunk_start == chunk_origin(panel.chunk_start as int),
        panel.chunk_amount == chunk_amount_for(panel.area_height),
        !(LogsPanel { logs_scroll: scroll, ..panel }).chunk_serves(total),
    ensures
        chunk_origin(scroll as int) >= panel.chunk_start + CHUNK_SIZE || chunk_origin(scroll as int)
            < panel.chunk_start,
{
    no_fetch_inside_chunk(panel, total, scroll);
}

} // verus!
