use vstd::prelude::*;
use vstd::string::StringExecFns;
use crate::timestamp::{chrono_format, strftime_text, Timestamp};

verus! {

/// One key/value pair attached to a record.
#[derive(Debug, PartialEq, Eq)]
pub struct RsVar {
    pub key: String,
    pub val: String,
}

/// What a record says about the process that emitted it.
#[derive(Debug, PartialEq, Eq)]
pub struct RsContext {
    pub app: String,
    pub pid: u32,
    pub os: String,
    pub version: String,
}

/// One structured log record.
#[derive(Debug, PartialEq, Eq)]
pub struct RsLog {
    pub ts: Timestamp,
    pub msg: String,
    pub ip: String,
    pub context: RsContext,
    pub vars: Vec<RsVar>,
}

/// Mathematical value of an [`RsVar`].
pub struct VarView {
    pub key: Seq<char>,
    pub val: Seq<char>,
}

/// Mathematical value of an [`RsContext`].
pub struct ContextView {
    pub app: Seq<char>,
    pub pid: u32,
    pub os: Seq<char>,
    pub version: Seq<char>,
}

/// Mathematical value of an [`RsLog`].
pub struct LogView {
    pub ts: Timestamp,
    pub msg: Seq<char>,
    pub ip: Seq<char>,
    pub context: ContextView,
    pub vars: Seq<VarView>,
}

impl View for RsVar {
    type V = VarView;

    open spec fn view(&self) -> VarView {
        VarView { key: self.key@, val: self.val@ }
    }
}

impl View for RsContext {
    type V = ContextView;

    open spec fn view(&self) -> ContextView {
        ContextView { app: self.app@, pid: self.pid, os: self.os@, version: self.version@ }
    }
}

/// The values of a sequence of variables, in order.
pub open spec fn vars_view(vars: Seq<RsVar>) -> Seq<VarView> {
    Seq::new(vars.len(), |i: int| vars[i]@)
}

impl View for RsLog {
    type V = LogView;

    open spec fn view(&self) -> LogView {
        LogView {
            ts: self.ts,
            msg: self.msg@,
            ip: self.ip@,
            context: self.context@,
            vars: vars_view(self.vars@),
        }
    }
}

impl Clone for RsVar {
    fn clone(&self) -> (r: Self)
        ensures
            r@ == self@,
    {
        RsVar { key: self.key.clone(), val: self.val.clone() }
    }
}

impl Clone for RsContext {
    fn clone(&self) -> (r: Self)
        ensures
            r@ == self@,
    {
        RsContext {
            app: self.app.clone(),
            pid: self.pid,
            os: self.os.clone(),
            version: self.version.clone(),
        }
    }
}

impl Clone for RsLog {
    fn clone(&self) -> (r: Self)
        ensures
            r@ == self@,
    {
        let mut vars: Vec<RsVar> = Vec::new();
        let mut i: usize = 0;
        while i < self.vars.len()
            invariant
                i <= self.vars.len(),
                vars@.len() == i,
                forall|j: int| 0 <= j < i ==> vars@[j]@ == self.vars@[j]@,
            decreases self.vars.len() - i,
        {
            vars.push(self.vars[i].clone());
            i += 1;
        }
        assert(vars_view(vars@) =~= vars_view(self.vars@));
        RsLog {
            ts: self.ts,
            msg: self.msg.clone(),
            ip: self.ip.clone(),
            context: self.context.clone(),
            vars,
        }
    }
}

impl RsLog {
    /// A locally built record: the sender address is empty and each pair of
    /// `vars` becomes one variable, in order.
    pub fn new(ts: Timestamp, msg: String, context: RsContext, vars: Vec<(String, String)>) -> (r: Self)
        ensures
            r@.ts == ts,
            r@.msg == msg@,
            r@.ip == Seq::<char>::empty(),
            r@.context == context@,
            r@.vars == Seq::new(vars@.len(), |i: int| VarView { key: vars@[i].0@, val: vars@[i].1@ }),
    {
        let mut out: Vec<RsVar> = Vec::new();
        let mut i: usize = 0;
        while i < vars.len()
            invariant
                i <= vars.len(),
                out@.len() == i,
                forall|j: int| 0 <= j < i ==> out@[j]@ == (VarView { key: vars@[j].0@, val: vars@[j].1@ }),
            decreases vars.len() - i,
        {
            let key = vars[i].0.clone();
            let val = vars[i].1.clone();
            out.push(RsVar { key, val });
            i += 1;
        }
        let r = RsLog { ts, msg, ip: String::new(), context, vars: out };
        assert(r@.vars =~= Seq::new(vars@.len(), |i: int| VarView { key: vars@[i].0@, val: vars@[i].1@ }));
        r
    }
}

/// The variables as text: each as `key=value`, with `, ` between them.
pub open spec fn vars_text(vars: Seq<VarView>) -> Seq<char>
    decreases vars.len(),
{
    if vars.len() == 0 {
        Seq::empty()
    } else if vars.len() == 1 {
        vars[0].key + "="@ + vars[0].val
    } else {
        vars_text(vars.drop_last()) + ", "@ + vars.last().key + "="@ + vars.last().val
    }
}

/// The one-line text of a record whose time of day reads `clock`: the
/// clock, a colon, the message, a space, the variables.
pub open spec fn line_text(clock: Seq<char>, log: LogView) -> Seq<char> {
    clock + ": "@ + log.msg + " "@ + vars_text(log.vars)
}

/// The pattern of the time of day on a record's line: hours, minutes,
/// seconds and milliseconds.
pub open spec fn clock_pattern() -> Seq<char> {
    "%H:%M:%S%.3f"@
}

impl RsLog {
    /// The record on one line, with `clock` as its time of day.
    pub fn line(&self, clock: &str) -> (text: String)
        ensures
            text@ == line_text(clock@, self@),
    {
        let mut text = String::from_str(clock);
        text.append(": ");
        text.append(self.msg.as_str());
        text.append(" ");
        let ghost head = text@;
        let mut i: usize = 0;
        while i < self.vars.len()
            invariant
                i <= self.vars@.len(),
                text@ == head + vars_text(vars_view(self.vars@).take(i as int)),
            decreases self.vars@.len() - i,
        {
            let ghost sofar = vars_view(self.vars@).take(i as int);
            let ghost next = vars_view(self.vars@).take(i + 1);
            if i > 0 {
                text.append(", ");
            }
            text.append(self.vars[i].key.as_str());
            text.append("=");
            text.append(self.vars[i].val.as_str());
            proof {
                assert(next.drop_last() =~= sofar);
                assert(next.last() == self.vars@[i as int]@);
                assert(next[0] == next.last() || i > 0);
                assert(text@ =~= head + vars_text(next));
            }
            i += 1;
        }
        assert(vars_view(self.vars@).take(i as int) =~= vars_view(self.vars@));
        assert(text@ =~= line_text(clock@, self@));
        text
    }

    /// The record on one line, with the time of day as chrono writes it to
    /// the millisecond, and with no time of day where the timestamp has no
    /// date.
    pub fn to_string(&self) -> (text: String)
        ensures
            text@ == line_text(
                match strftime_text(self.ts.secs, self.ts.nanos, self.ts.offset, clock_pattern()) {
                    Some(clock) => clock,
                    None => Seq::empty(),
                },
                self@,
            ),
    {
        match chrono_format(&self.ts, "%H:%M:%S%.3f") {
            Some(clock) => self.line(clock.as_str()),
            None => {
                proof {
                    reveal_strlit("");
                    assert(""@ =~= Seq::<char>::empty());
                }
                self.line("")
            },
        }
    }
}

} // verus!
