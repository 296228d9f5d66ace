use vstd::prelude::*;
use vstd::string::StringExecFns;
use crate::log::RsLog;
use crate::status::{Statuses, ThreadStatus, ThreadType};
use crate::text::{decimal, push_decimal};

verus! {

/// The panel that says how many records are stored.
#[derive(Clone, Copy, Debug, PartialEq, Eq, Structural)]
pub struct StatusPanel {
    pub logs_amount: usize,
}

impl StatusPanel {
    /// The panel for a store of `logs_amount` records.
    pub fn from(logs_amount: usize) -> (p: Self)
        ensures
            p.logs_amount == logs_amount,
    {
        Self { logs_amount }
    }

    /// The two lines of the panel: the record count in decimal, and the
    /// hint on how to quit.
    pub fn lines(&self) -> (lines: (String, String))
        ensures
            lines.0@ == "Logs amount: "@ + decimal(self.logs_amount as nat),
            lines.1@ == "Press q to quit"@,
    {
        let mut count = String::from_str("Logs amount: ");
        push_decimal(&mut count, self.logs_amount as u64);
        (count, String::from_str("Press q to quit"))
    }
}

/// The panel that shows one record in full.
pub struct InfoPanel {
    pub log: RsLog,
}

impl InfoPanel {
    /// The panel for `log`.
    pub fn from(log: RsLog) -> (p: Self)
        ensures
            p.log == log,
    {
        Self { log }
    }
}

/// The panel that lists the threads: a snapshot of the registry.
pub struct ThreadsPanel {
    pub threads: Vec<(ThreadType, ThreadStatus)>,
}

impl ThreadsPanel {
    /// The panel for the registry as it stands: each role once, with its
    /// status, in the order in which the roles were first set.
    pub fn from(statuses: &Statuses) -> (p: Self)
        ensures
            p.threads@.len() == statuses.roles().len(),
            forall|i: int|
                0 <= i < p.threads@.len() ==> (#[trigger] p.threads@[i]).0 == statuses.roles()[i]
                    && statuses@.dom().contains(p.threads@[i].0) && p.threads@[i].1@
                    == statuses@[p.threads@[i].0],
    {
        Self { threads: statuses.get_all() }
    }
}

} // verus!
