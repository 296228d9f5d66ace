use vstd::prelude::*;
use vstd::string::StringExecFns;
use crate::log::{vars_view, ContextView, LogView, RsContext, RsLog, RsVar, VarView};
use crate::storage::StorageError;
use crate::timestamp::{
    chrono_parse_rfc3339, chrono_to_rfc3339, rfc3339_instant, rfc3339_text, Timestamp,
};

verus! {

/// What a record puts into the cells of one row of the `logs` table, the
/// row's id apart: the timestamp as RFC 3339 text, the message, the sender
/// address, the four parts of the context, and the variables as the text of
/// one JSON object.
#[derive(Debug, PartialEq, Eq)]
pub struct RowCells {
    pub ts: String,
    pub msg: String,
    pub ip: String,
    pub app: String,
    pub pid: u32,
    pub os: String,
    pub version: String,
    pub vars: String,
}

/// One row of the `logs` table.
#[derive(Debug, PartialEq, Eq)]
pub struct LogRow {
    pub id: i64,
    pub cells: RowCells,
}

/// Mathematical value of a [`RowCells`].
pub struct CellsView {
    pub ts: Seq<char>,
    pub msg: Seq<char>,
    pub ip: Seq<char>,
    pub app: Seq<char>,
    pub pid: u32,
    pub os: Seq<char>,
    pub version: Seq<char>,
    pub vars: Seq<char>,
}

impl View for RowCells {
    type V = CellsView;

    open spec fn view(&self) -> CellsView {
        CellsView {
            ts: self.ts@,
            msg: self.msg@,
            ip: self.ip@,
            app: self.app@,
            pid: self.pid,
            os: self.os@,
            version: self.version@,
            vars: self.vars@,
        }
    }
}

/// The text of the JSON object that serde_json writes for a map filled
/// with the variables in order, each key with its value as a string.
pub uninterp spec fn json_object_text(vars: Seq<VarView>) -> Seq<char>;

/// The members of the JSON object that serde_json reads from a text, in
/// the order in which its map hands them out: each key with its value where
/// that is a string, and with `None` where it is anything else. `None`
/// where the text is no JSON or no object.
pub uninterp spec fn json_object_members(text: Seq<char>) -> Option<
    Seq<(Seq<char>, Option<Seq<char>>)>,
>;

/// The values of a list of members.
pub open spec fn members_view(members: Seq<(String, Option<String>)>) -> Seq<
    (Seq<char>, Option<Seq<char>>),
> {
    Seq::new(
        members.len(),
        |i: int|
            (
                members[i].0@,
                match members[i].1 {
                    Some(v) => Some(v@),
                    None => None,
                },
            ),
    )
}

/// serde_json: a `Map` collected from the variables, each as a key with a
/// `Value::String`, and the `to_string` of the `Value::Object` of that map.
/// The result is the named text for the variables.
#[verifier::external_body]
fn json_write_object(vars: &Vec<RsVar>) -> (text: String)
    ensures
        text@ == json_object_text(vars_view(vars@)),
{
    let map: serde_json::Map<String, serde_json::Value> = vars.iter().map(
        |v| (v.key.clone(), serde_json::Value::String(v.val.clone())),
    ).collect();
    serde_json::Value::Object(map).to_string()
}

/// serde_json: `from_str` to a `Value`, and the members of its map where
/// it is an object. The result is the named list of members of the text.
#[verifier::external_body]
fn json_read_object(text: &str) -> (r: Option<Vec<(String, Option<String>)>>)
    ensures
        r is Some <==> json_object_members(text@) is Some,
        r matches Some(members) ==> json_object_members(text@) == Some(members_view(members@)),
{
    let serde_json::Value::Object(map) = serde_json::from_str(text).ok()? else {
        return None;
    };
    let string_of = |value| match value {
        serde_json::Value::String(s) => Some(s),
        _ => None,
    };
    Some(map.into_iter().map(|(key, value)| (key, string_of(value))).collect())
}

/// The cells of a record whose timestamp text is `ts` and whose variables
/// text is `vars`.
pub open spec fn cells_of(log: LogView, ts: Seq<char>, vars: Seq<char>) -> CellsView {
    CellsView {
        ts,
        msg: log.msg,
        ip: log.ip,
        app: log.context.app,
        pid: log.context.pid,
        os: log.context.os,
        version: log.context.version,
        vars,
    }
}

/// The variables that the members of a JSON object stand for: one for each
/// member, in order, with an empty value where the member's value is no
/// string; none where there is no object.
pub open spec fn vars_of_members(members: Option<Seq<(Seq<char>, Option<Seq<char>>)>>) -> Seq<
    VarView,
> {
    match members {
        None => Seq::empty(),
        Some(ms) => Seq::new(
            ms.len(),
            |i: int|
                VarView {
                    key: ms[i].0,
                    val: match ms[i].1 {
                        Some(v) => v,
                        None => Seq::empty(),
                    },
                },
        ),
    }
}

/// The stored record that a row with the given id and cells stands for,
/// where its timestamp text was read as `ts` and its variables text as
/// `members`: none where the id is negative or too large for a sequence id,
/// or where the timestamp text was none.
pub open spec fn stored_of(
    id: i64,
    cells: CellsView,
    ts: Option<Timestamp>,
    members: Option<Seq<(Seq<char>, Option<Seq<char>>)>>,
) -> Option<(nat, LogView)> {
    if id < 0 || id > usize::MAX {
        None
    } else {
        match ts {
            None => None,
            Some(ts) => Some(
                (
                    id as nat,
                    LogView {
                        ts,
                        msg: cells.msg,
                        ip: cells.ip,
                        context: ContextView {
                            app: cells.app,
                            pid: cells.pid,
                            os: cells.os,
                            version: cells.version,
                        },
                        vars: vars_of_members(members),
                    },
                ),
            ),
        }
    }
}

/// The timestamp that chrono reads from a text, as a value.
pub open spec fn instant_of(text: Seq<char>) -> Option<Timestamp> {
    match rfc3339_instant(text) {
        None => None,
        Some(t) => Some(Timestamp { secs: t.0, nanos: t.1, offset: t.2 }),
    }
}

/// The stored record that a row stands for.
pub open spec fn stored_of_row(id: i64, cells: CellsView) -> Option<(nat, LogView)> {
    stored_of(id, cells, instant_of(cells.ts), json_object_members(cells.vars))
}

impl RowCells {
    /// The cells of `log`, given the text of its timestamp and the text of
    /// its variables.
    pub fn assemble(log: &RsLog, ts: String, vars: String) -> (cells: RowCells)
        ensures
            cells@ == cells_of(log@, ts@, vars@),
    {
        RowCells {
            ts,
            msg: log.msg.clone(),
            ip: log.ip.clone(),
            app: log.context.app.clone(),
            pid: log.context.pid,
            os: log.context.os.clone(),
            version: log.context.version.clone(),
            vars,
        }
    }

    /// The cells to insert for `log`: `None` exactly where its timestamp
    /// has no RFC 3339 text.
    pub fn from_log(log: &RsLog) -> (r: Option<RowCells>)
        ensures
            match rfc3339_text(log@.ts.secs, log@.ts.nanos, log@.ts.offset) {
                None => r is None,
                Some(ts) => r is Some && r->0@ == cells_of(log@, ts, json_object_text(log@.vars)),
            },
    {
        match chrono_to_rfc3339(&log.ts) {
            None => None,
            Some(ts) => {
                let vars = json_write_object(&log.vars);
                Some(Self::assemble(log, ts, vars))
            },
        }
    }
}

/// The message of the error for a row whose id is no sequence id.
pub open spec fn bad_id_message() -> Seq<char> {
    "row id is not a sequence id"@
}

/// The message of the error for a row whose timestamp is no RFC 3339 text.
pub open spec fn bad_timestamp_message() -> Seq<char> {
    "row timestamp is not RFC 3339"@
}

/// The message of the error for a row with the id `id` that stands for no
/// record.
pub open spec fn bad_row_message(id: i64) -> Seq<char> {
    if id < 0 || id > usize::MAX {
        bad_id_message()
    } else {
        bad_timestamp_message()
    }
}

/// The variables for the members of a JSON object, as read.
pub fn vars_from_members(members: Option<Vec<(String, Option<String>)>>) -> (vars: Vec<RsVar>)
    ensures
        vars_view(vars@) == vars_of_members(
            match members {
                None => None,
                Some(ms) => Some(members_view(ms@)),
            },
        ),
{
    let mut vars: Vec<RsVar> = Vec::new();
    match members {
        None => {
            assert(vars_view(vars@) =~= Seq::<VarView>::empty());
        },
        Some(ms) => {
            let mut i: usize = 0;
            while i < ms.len()
                invariant
                    i <= ms@.len(),
                    vars@.len() == i,
                    forall|k: int|
                        0 <= k < i ==> (#[trigger] vars@[k])@ == vars_of_members(
                            Some(members_view(ms@)),
                        )[k],
                decreases ms@.len() - i,
            {
                let key = ms[i].0.clone();
                let val = match &ms[i].1 {
                    Some(v) => v.clone(),
                    None => String::new(),
                };
                vars.push(RsVar { key, val });
                i += 1;
            }
            assert(vars_view(vars@) =~= vars_of_members(Some(members_view(ms@))));
        },
    }
    vars
}

impl LogRow {
    /// The stored record of a row, given what its timestamp text and its
    /// variables text were read as. Fails, with the reason, exactly where
    /// the id is no sequence id or no timestamp was read.
    pub fn into_stored(
        self,
        ts: Option<Timestamp>,
        members: Option<Vec<(String, Option<String>)>>,
    ) -> (r: Result<(usize, RsLog), StorageError>)
        ensures
            match stored_of(
                self.id,
                self.cells@,
                ts,
                match members {
                    None => None,
                    Some(ms) => Some(members_view(ms@)),
                },
            ) {
                Some(stored) => r is Ok && (r->Ok_0.0 as nat, r->Ok_0.1@) == stored,
                None => r is Err && r->Err_0.message@ == bad_row_message(self.id),
            },
    {
        if self.id < 0 || self.id as u64 > usize::MAX as u64 {
            return Err(StorageError { message: String::from_str("row id is not a sequence id") });
        }
        let ts = match ts {
            Some(ts) => ts,
            None => {
                return Err(
                    StorageError { message: String::from_str("row timestamp is not RFC 3339") },
                );
            },
        };
        let vars = vars_from_members(members);
        let cells = self.cells;
        Ok(
            (
                self.id as usize,
                RsLog {
                    ts,
                    msg: cells.msg,
                    ip: cells.ip,
                    context: RsContext {
                        app: cells.app,
                        pid: cells.pid,
                        os: cells.os,
                        version: cells.version,
                    },
                    vars,
                },
            ),
        )
    }

    /// The stored record that the row stands for. Fails exactly where the
    /// id is no sequence id or the timestamp cell is no RFC 3339 text; a
    /// variables cell that is no JSON object stands for no variables.
    pub fn to_stored(self) -> (r: Result<(usize, RsLog), StorageError>)
        ensures
            match stored_of_row(self.id, self.cells@) {
                Some(stored) => r is Ok && (r->Ok_0.0 as nat, r->Ok_0.1@) == stored,
                None => r is Err && r->Err_0.message@ == bad_row_message(self.id),
            },
    {
        let ts = chrono_parse_rfc3339(self.cells.ts.as_str());
        let members = json_read_object(self.cells.vars.as_str());
        self.into_stored(ts, members)
    }
}

/// The `LIMIT` and `OFFSET` of the query for a window of `amount` ranks
/// from rank `start`, newest first: the two numbers, or the largest that a
/// cell holds where they are larger.
pub fn window_query(start: usize, amount: usize) -> (q: (i64, i64))
    ensures
        q.0 == if amount <= i64::MAX {
            amount as int
        } else {
            i64::MAX as int
        },
        q.1 == if start <= i64::MAX {
            start as int
        } else {
            i64::MAX as int
        },
{
    let limit = if amount as u64 <= i64::MAX as u64 {
        amount as i64
    } else {
        i64::MAX
    };
    let offset = if start as u64 <= i64::MAX as u64 {
        start as i64
    } else {
        i64::MAX
    };
    (limit, offset)
}

/// Whether `k` is the index of the first row that stands for no record.
pub open spec fn first_bad_row(rows: Seq<LogRow>, k: int) -> bool {
    &&& 0 <= k < rows.len()
    &&& stored_of_row(rows[k].id, rows[k].cells@) is None
    &&& forall|j: int| 0 <= j < k ==> stored_of_row((#[trigger] rows[j]).id, rows[j].cells@) is Some
}

/// The stored records of the rows that a window query gave, in the same
/// order. Fails where one of the rows stands for no record, with the error
/// of the first such row.
pub fn rows_to_logs(rows: Vec<LogRow>) -> (r: Result<Vec<(usize, RsLog)>, StorageError>)
    ensures
        r is Ok <==> forall|i: int|
            0 <= i < rows@.len() ==> stored_of_row(
                (#[trigger] rows@[i]).id,
                rows@[i].cells@,
            ) is Some,
        r matches Ok(logs) ==> logs@.len() == rows@.len() && forall|i: int|
            0 <= i < rows@.len() ==> Some(((#[trigger] logs@[i]).0 as nat, logs@[i].1@))
                == stored_of_row(rows@[i].id, rows@[i].cells@),
        r matches Err(e) ==> exists|k: int| #[trigger]
            first_bad_row(rows@, k) && e.message@ == bad_row_message(rows@[k].id),
{
    let ghost all = rows@;
    let mut pending = rows;
    let mut logs: Vec<(usize, RsLog)> = Vec::new();
    let mut rest: Vec<LogRow> = Vec::new();
    while pending.len() > 0
        invariant
            pending@.len() + rest@.len() == all.len(),
            forall|i: int| 0 <= i < pending@.len() ==> pending@[i] == all[i],
            forall|i: int| 0 <= i < rest@.len() ==> rest@[i] == all[all.len() - 1 - i],
        decreases pending@.len(),
    {
        let row = pending.pop().unwrap();
        rest.push(row);
    }
    while rest.len() > 0
        invariant
            all == rows@,
            logs@.len() + rest@.len() == all.len(),
            forall|i: int| 0 <= i < rest@.len() ==> rest@[i] == all[all.len() - 1 - i],
            forall|i: int|
                0 <= i < logs@.len() ==> Some(((#[trigger] logs@[i]).0 as nat, logs@[i].1@))
                    == stored_of_row(all[i].id, all[i].cells@),
        decreases rest@.len(),
    {
        let row = rest.pop().unwrap();
        let ghost at = logs@.len() as int;
        let ghost id = row.id;
        assert(row == all[at]);
        match row.to_stored() {
            Ok(stored) => {
                logs.push(stored);
            },
            Err(e) => {
                proof {
                    assert forall|j: int| 0 <= j < at implies stored_of_row(
                        (#[trigger] all[j]).id,
                        all[j].cells@,
                    ) is Some by {
                        assert(Some((logs@[j].0 as nat, logs@[j].1@)) == stored_of_row(
                            all[j].id,
                            all[j].cells@,
                        ));
                    }
                    assert(first_bad_row(rows@, at));
                    assert(e.message@ == bad_row_message(id));
                }
                return Err(e);
            },
        }
    }
    proof {
        assert forall|i: int| 0 <= i < all.len() implies stored_of_row(
            (#[trigger] all[i]).id,
            all[i].cells@,
        ) is Some by {
            assert(Some((logs@[i].0 as nat, logs@[i].1@)) == stored_of_row(
                all[i].id,
                all[i].cells@,
            ));
        }
    }
    Ok(logs)
}

} // verus!
