use vstd::prelude::*;
use crate::args::ServerArgs;
use crate::status::Statuses;
use crate::storage::Storage;

verus! {

/// The state that the threads of the collector share.
pub struct Data {
    pub args: ServerArgs,
    pub statuses: Statuses,
    pub storage: Storage,
}

impl Data {
    /// The shared state made of its three parts.
    pub fn new(args: ServerArgs, statuses: Statuses, storage: Storage) -> (data: Self)
        ensures
            data.args == args,
            data.statuses == statuses,
            data.storage == storage,
    {
        Self { args, statuses, storage }
    }
}

} // verus!
