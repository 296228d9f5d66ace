use vstd::prelude::*;

verus! {

/// The role of a thread of the collector.
#[derive(Clone, Copy, Debug, PartialEq, Eq, Hash, Structural)]
pub enum ThreadType {
    TUI,
    NNG,
    HTTP,
}

/// Where a thread stands in its life.
#[derive(Debug, PartialEq, Eq)]
pub enum ThreadStatus {
    Running,
    Terminating,
    Stopped,
    Failed(String),
}

/// Mathematical value of a [`ThreadStatus`].
pub enum StatusView {
    Running,
    Terminating,
    Stopped,
    Failed(Seq<char>),
}

impl View for ThreadStatus {
    type V = StatusView;

    open spec fn view(&self) -> StatusView {
        match self {
            ThreadStatus::Running => StatusView::Running,
            ThreadStatus::Terminating => StatusView::Terminating,
            ThreadStatus::Stopped => StatusView::Stopped,
            ThreadStatus::Failed(reason) => StatusView::Failed(reason@),
        }
    }
}

impl Clone for ThreadStatus {
    fn clone(&self) -> (r: Self)
        ensures
            r@ == self@,
    {
        match self {
            ThreadStatus::Running => ThreadStatus::Running,
            ThreadStatus::Terminating => ThreadStatus::Terminating,
            ThreadStatus::Stopped => ThreadStatus::Stopped,
            ThreadStatus::Failed(reason) => ThreadStatus::Failed(reason.clone()),
        }
    }
}

/// A status that a thread never leaves: stopped or failed.
pub open spec fn is_terminal(s: StatusView) -> bool {
    s is Stopped || s is Failed
}

/// The registry after `set(role, status)`: the write is dropped where the
/// role has already stopped or failed, and takes effect everywhere else.
pub open spec fn after_set(m: Map<ThreadType, StatusView>, role: ThreadType, status: StatusView) -> Map<
    ThreadType,
    StatusView,
> {
    if m.dom().contains(role) && is_terminal(m[role]) {
        m
    } else {
        m.insert(role, status)
    }
}

/// The registry after a shutdown request: every running role is
/// terminating, every other role is as it was.
pub open spec fn after_shutdown(m: Map<ThreadType, StatusView>) -> Map<ThreadType, StatusView> {
    Map::new(
        |role: ThreadType| m.dom().contains(role),
        |role: ThreadType|
            if m[role] is Running {
                StatusView::Terminating
            } else {
                m[role]
            },
    )
}

/// Whether every tracked role other than `role` has stopped or failed.
pub open spec fn others_stopped(m: Map<ThreadType, StatusView>, role: ThreadType) -> bool {
    forall|other: ThreadType|
        m.dom().contains(other) && other != role ==> is_terminal(#[trigger] m[other])
}

/// Whether `role` occurs among the entries.
spec fn known(entries: Seq<(ThreadType, ThreadStatus)>, role: ThreadType) -> bool {
    exists|i: int| 0 <= i < entries.len() && (#[trigger] entries[i]).0 == role
}

/// An index at which `role` occurs among the entries.
spec fn slot(entries: Seq<(ThreadType, ThreadStatus)>, role: ThreadType) -> int {
    choose|i: int| 0 <= i < entries.len() && (#[trigger] entries[i]).0 == role
}

/// No role occurs twice among the entries.
spec fn distinct(entries: Seq<(ThreadType, ThreadStatus)>) -> bool {
    forall|i: int, j: int|
        0 <= i < entries.len() && 0 <= j < entries.len() && i != j ==> (#[trigger] entries[i]).0 != (
        #[trigger] entries[j]).0
}

/// The map that a list of entries stands for.
spec fn as_map(entries: Seq<(ThreadType, ThreadStatus)>) -> Map<ThreadType, StatusView> {
    Map::new(
        |role: ThreadType| known(entries, role),
        |role: ThreadType| entries[slot(entries, role)].1@,
    )
}

/// The entry at index `i` is what the map holds for its role.
proof fn lemma_entry(entries: Seq<(ThreadType, ThreadStatus)>, i: int)
    requires
        distinct(entries),
        0 <= i < entries.len(),
    ensures
        known(entries, entries[i].0),
        slot(entries, entries[i].0) == i,
        as_map(entries).dom().contains(entries[i].0),
        as_map(entries)[entries[i].0] == entries[i].1@,
{
    let role = entries[i].0;
    assert(known(entries, role));
    let k = slot(entries, role);
    assert(0 <= k < entries.len() && entries[k].0 == role);
}

/// The roles of a list of entries are those of its map, each once.
proof fn lemma_roles(entries: Seq<(ThreadType, ThreadStatus)>)
    requires
        distinct(entries),
    ensures
        Seq::new(entries.len(), |i: int| entries[i].0).no_duplicates(),
        forall|role: ThreadType|
            as_map(entries).dom().contains(role) <==> Seq::new(
                entries.len(),
                |i: int| entries[i].0,
            ).contains(role),
{
    let roles = Seq::new(entries.len(), |i: int| entries[i].0);
    assert forall|role: ThreadType| as_map(entries).dom().contains(role) implies roles.contains(
        role,
    ) by {
        let i = slot(entries, role);
        assert(roles[i] == role);
    }
    assert forall|role: ThreadType| roles.contains(role) implies as_map(entries).dom().contains(
        role,
    ) by {
        let i = choose|i: int| 0 <= i < roles.len() && roles[i] == role;
        assert(entries[i].0 == role);
    }
}

/// The shared registry of thread statuses: one entry per role that was
/// ever set. Its value is the map from role to status.
pub struct Statuses {
    statuses: Vec<(ThreadType, ThreadStatus)>,
}

impl View for Statuses {
    type V = Map<ThreadType, StatusView>;

    closed spec fn view(&self) -> Map<ThreadType, StatusView> {
        as_map(self.statuses@)
    }
}

impl Statuses {
    #[verifier::type_invariant]
    spec fn one_entry_per_role(self) -> bool {
        distinct(self.statuses@)
    }

    /// The tracked roles, in the order in which they were first set.
    pub closed spec fn roles(&self) -> Seq<ThreadType> {
        Seq::new(self.statuses@.len(), |i: int| self.statuses@[i].0)
    }

    /// A registry that tracks no role.
    pub fn new() -> (s: Self)
        ensures
            s@ == Map::<ThreadType, StatusView>::empty(),
            s.roles() == Seq::<ThreadType>::empty(),
    {
        let s = Statuses { statuses: Vec::new() };
        assert(s@ =~= Map::<ThreadType, StatusView>::empty());
        assert(s.roles() =~= Seq::<ThreadType>::empty());
        s
    }

    /// Index of the entry of `thread_type`, if it is tracked.
    fn position(entries: &Vec<(ThreadType, ThreadStatus)>, thread_type: ThreadType) -> (r: Option<
        usize,
    >)
        ensures
            r is Some <==> known(entries@, thread_type),
            r matches Some(i) ==> i < entries@.len() && entries@[i as int].0 == thread_type,
    {
        let mut i: usize = 0;
        while i < entries.len()
            invariant
                i <= entries@.len(),
                forall|j: int| 0 <= j < i ==> (#[trigger] entries@[j]).0 != thread_type,
            decreases entries@.len() - i,
        {
            if entries[i].0 == thread_type {
                return Some(i);
            }
            i += 1;
        }
        None
    }

    /// Writes `status` for `thread_type`. A role that has stopped or failed
    /// keeps its status: the write is dropped. A role that was not tracked
    /// is tracked from now on, after those tracked before.
    pub fn set(&mut self, thread_type: ThreadType, status: ThreadStatus)
        ensures
            final(self)@ == after_set(old(self)@, thread_type, status@),
            final(self).roles() == if old(self)@.dom().contains(thread_type) {
                old(self).roles()
            } else {
                old(self).roles().push(thread_type)
            },
    {
        proof {
            use_type_invariant(&*self);
        }
        let ghost before = self.statuses@;
        let mut entries: Vec<(ThreadType, ThreadStatus)> = Vec::new();
        core::mem::swap(&mut self.statuses, &mut entries);
        match Self::position(&entries, thread_type) {
            Some(i) => {
                proof {
                    lemma_entry(before, i as int);
                }
                let terminal = match &entries[i].1 {
                    ThreadStatus::Stopped => true,
                    ThreadStatus::Failed(_) => true,
                    _ => false,
                };
                if !terminal {
                    entries[i] = (thread_type, status);
                    proof {
                        let after = entries@;
                        assert(distinct(after)) by {
                            assert forall|a: int, b: int|
                                0 <= a < after.len() && 0 <= b < after.len() && a != b implies (
                            #[trigger] after[a]).0 != (#[trigger] after[b]).0 by {
                                assert(after[a].0 == before[a].0);
                                assert(after[b].0 == before[b].0);
                            }
                        }
                        assert forall|role: ThreadType| known(after, role) == known(
                            before,
                            role,
                        ) by {
                            if known(after, role) {
                                let k = slot(after, role);
                                assert(before[k].0 == role);
                            }
                            if known(before, role) {
                                let k = slot(before, role);
                                assert(after[k].0 == role);
                            }
                        }
                        assert forall|role: ThreadType| known(after, role) implies as_map(
                            after,
                        )[role] == after_set(as_map(before), thread_type, status@)[role] by {
                            let k = slot(after, role);
                            lemma_entry(after, k);
                            lemma_entry(before, k);
                        }
                        assert(as_map(after) =~= after_set(as_map(before), thread_type, status@));
                        assert(Seq::new(after.len(), |i: int| after[i].0) =~= Seq::new(
                            before.len(),
                            |i: int| before[i].0,
                        ));
                    }
                }
            },
            None => {
                entries.push((thread_type, status));
                proof {
                    let after = entries@;
                    assert(distinct(after)) by {
                        assert forall|a: int, b: int|
                            0 <= a < after.len() && 0 <= b < after.len() && a != b implies (
                        #[trigger] after[a]).0 != (#[trigger] after[b]).0 by {
                            if a < before.len() {
                                assert(after[a] == before[a]);
                            }
                            if b < before.len() {
                                assert(after[b] == before[b]);
                            }
                        }
                    }
                    assert forall|role: ThreadType| known(after, role) == (known(before, role)
                        || role == thread_type) by {
                        if known(after, role) {
                            let k = slot(after, role);
                            if k < before.len() {
                                assert(before[k].0 == role);
                            }
                        }
                        if known(before, role) {
                            let k = slot(before, role);
                            assert(after[k].0 == role);
                        }
                        if role == thread_type {
                            assert(after[before.len() as int].0 == role);
                        }
                    }
                    assert forall|role: ThreadType| known(after, role) implies as_map(
                        after,
                    )[role] == after_set(as_map(before), thread_type, status@)[role] by {
                        let k = slot(after, role);
                        lemma_entry(after, k);
                        if k < before.len() {
                            assert(before[k] == after[k]);
                            lemma_entry(before, k);
                        }
                    }
                    assert(as_map(after) =~= after_set(as_map(before), thread_type, status@));
                    assert(Seq::new(after.len(), |i: int| after[i].0) =~= Seq::new(
                        before.len(),
                        |i: int| before[i].0,
                    ).push(thread_type));
                }
            },
        }
        self.statuses = entries;
    }

    /// The status of `thread_type`, if the role is tracked.
    pub fn get(&self, thread_type: ThreadType) -> (r: Option<&ThreadStatus>)
        ensures
            r is Some <==> self@.dom().contains(thread_type),
            r matches Some(status) ==> status@ == self@[thread_type],
    {
        proof {
            use_type_invariant(self);
        }
        match Self::position(&self.statuses, thread_type) {
            Some(i) => {
                proof {
                    lemma_entry(self.statuses@, i as int);
                }
                Some(&self.statuses[i].1)
            },
            None => None,
        }
    }

    /// A snapshot of the registry: each tracked role once, with its
    /// status, in the order of [`Statuses::roles`].
    pub fn get_all(&self) -> (r: Vec<(ThreadType, ThreadStatus)>)
        ensures
            r@.len() == self.roles().len(),
            forall|i: int|
                0 <= i < r@.len() ==> (#[trigger] r@[i]).0 == self.roles()[i] && self@.dom().contains(
                    r@[i].0,
                ) && r@[i].1@ == self@[r@[i].0],
            self.roles().no_duplicates(),
            forall|role: ThreadType| self@.dom().contains(role) <==> self.roles().contains(role),
    {
        proof {
            use_type_invariant(self);
            lemma_roles(self.statuses@);
        }
        let mut out: Vec<(ThreadType, ThreadStatus)> = Vec::new();
        let mut i: usize = 0;
        while i < self.statuses.len()
            invariant
                i <= self.statuses@.len(),
                distinct(self.statuses@),
                out@.len() == i,
                forall|k: int|
                    0 <= k < i ==> (#[trigger] out@[k]).0 == self.statuses@[k].0 && out@[k].1@
                        == self.statuses@[k].1@,
            decreases self.statuses@.len() - i,
        {
            out.push((self.statuses[i].0, self.statuses[i].1.clone()));
            i += 1;
        }
        proof {
            assert forall|k: int| 0 <= k < out@.len() implies (#[trigger] out@[k]).0
                == self.roles()[k] && self@.dom().contains(out@[k].0) && out@[k].1@
                == self@[out@[k].0] by {
                lemma_entry(self.statuses@, k);
            }
        }
        out
    }

    /// Whether `thread_type` was asked to stop: its status is terminating.
    pub fn must_terminate(&self, thread_type: ThreadType) -> (b: bool)
        ensures
            b == (self@.dom().contains(thread_type) && self@[thread_type] is Terminating),
    {
        match self.get(thread_type) {
            Some(ThreadStatus::Terminating) => true,
            _ => false,
        }
    }

    /// Asks every running thread to stop: each running role becomes
    /// terminating, and no other role changes.
    pub fn terminate_all(&mut self)
        ensures
            final(self)@ == after_shutdown(old(self)@),
            final(self).roles() == old(self).roles(),
    {
        proof {
            use_type_invariant(&*self);
        }
        let ghost before = self.statuses@;
        let mut entries: Vec<(ThreadType, ThreadStatus)> = Vec::new();
        core::mem::swap(&mut self.statuses, &mut entries);
        let mut i: usize = 0;
        while i < entries.len()
            invariant
                i <= entries@.len(),
                entries@.len() == before.len(),
                forall|k: int| 0 <= k < entries@.len() ==> (#[trigger] entries@[k]).0 == before[k].0,
                forall|k: int|
                    0 <= k < i ==> (#[trigger] entries@[k]).1@ == if before[k].1@ is Running {
                        StatusView::Terminating
                    } else {
                        before[k].1@
                    },
                forall|k: int| i <= k < entries@.len() ==> (#[trigger] entries@[k]).1@ == before[k].1@,
            decreases entries@.len() - i,
        {
            let running = match &entries[i].1 {
                ThreadStatus::Running => true,
                _ => false,
            };
            if running {
                let role = entries[i].0;
                entries[i] = (role, ThreadStatus::Terminating);
            }
            i += 1;
        }
        proof {
            let after = entries@;
            assert(distinct(after)) by {
                assert forall|a: int, b: int|
                    0 <= a < after.len() && 0 <= b < after.len() && a != b implies (
                #[trigger] after[a]).0 != (#[trigger] after[b]).0 by {
                    assert(after[a].0 == before[a].0);
                    assert(after[b].0 == before[b].0);
                }
            }
            assert forall|role: ThreadType| known(after, role) == known(before, role) by {
                if known(after, role) {
                    let k = slot(after, role);
                    assert(before[k].0 == role);
                }
                if known(before, role) {
                    let k = slot(before, role);
                    assert(after[k].0 == role);
                }
            }
            assert forall|role: ThreadType| known(after, role) implies as_map(after)[role]
                == after_shutdown(as_map(before))[role] by {
                let k = slot(after, role);
                lemma_entry(after, k);
                lemma_entry(before, k);
            }
            assert(as_map(after) =~= after_shutdown(as_map(before)));
            assert(Seq::new(after.len(), |i: int| after[i].0) =~= Seq::new(
                before.len(),
                |i: int| before[i].0,
            ));
        }
        self.statuses = entries;
    }

    /// Records that the thread of `thread_type` has started: it is running,
    /// unless it has stopped or failed before.
    pub fn thread_started(&mut self, thread_type: ThreadType)
        ensures
            final(self)@ == after_set(old(self)@, thread_type, StatusView::Running),
    {
        self.set(thread_type, ThreadStatus::Running);
    }

    /// Records how the thread of `thread_type` ended: stopped where it
    /// returned normally, failed with the reason where it returned one.
    pub fn thread_finished(&mut self, thread_type: ThreadType, result: Result<(), String>)
        ensures
            final(self)@ == after_set(
                old(self)@,
                thread_type,
                match result {
                    Ok(_) => StatusView::Stopped,
                    Err(reason) => StatusView::Failed(reason@),
                },
            ),
    {
        match result {
            Ok(_) => self.set(thread_type, ThreadStatus::Stopped),
            Err(reason) => self.set(thread_type, ThreadStatus::Failed(reason)),
        }
    }

    /// Whether every tracked role other than `thread_type` has stopped or
    /// failed. True of a registry that tracks no other role.
    pub fn all_stopped_except(&self, thread_type: ThreadType) -> (b: bool)
        ensures
            b == others_stopped(self@, thread_type),
    {
        proof {
            use_type_invariant(self);
        }
        let mut i: usize = 0;
        while i < self.statuses.len()
            invariant
                i <= self.statuses@.len(),
                distinct(self.statuses@),
                forall|k: int|
                    0 <= k < i ==> (#[trigger] self.statuses@[k]).0 == thread_type || is_terminal(
                        self.statuses@[k].1@,
                    ),
            decreases self.statuses@.len() - i,
        {
            let role = self.statuses[i].0;
            let done = match &self.statuses[i].1 {
                ThreadStatus::Stopped => true,
                ThreadStatus::Failed(_) => true,
                _ => false,
            };
            if role != thread_type && !done {
                proof {
                    lemma_entry(self.statuses@, i as int);
                }
                return false;
            }
            i += 1;
        }
        proof {
            assert forall|other: ThreadType|
                self@.dom().contains(other) && other != thread_type implies is_terminal(
                #[trigger] self@[other],
            ) by {
                let k = slot(self.statuses@, other);
                lemma_entry(self.statuses@, k);
            }
        }
        true
    }
}

/// A status that is stopped or failed stays: no write and no shutdown
/// request changes it.
pub proof fn terminal_status_stays(
    m: Map<ThreadType, StatusView>,
    role: ThreadType,
    written: ThreadType,
    status: StatusView,
)
    requires
        m.dom().contains(role),
        is_terminal(m[role]),
    ensures
        after_set(m, written, status).dom().contains(role),
        after_set(m, written, status)[role] == m[role],
        after_set(m, role, status) == m,
        after_shutdown(m).dom().contains(role),
        after_shutdown(m)[role] == m[role],
{
}

/// A shutdown request tracks the same roles as before, turns each running
/// role into a terminating one, and leaves every other status as it was.
pub proof fn shutdown_changes_running_only(m: Map<ThreadType, StatusView>, role: ThreadType)
    ensures
        after_shutdown(m).dom() == m.dom(),
        m.dom().contains(role) && m[role] is Running ==> after_shutdown(m)[role] is Terminating,
        m.dom().contains(role) && !(m[role] is Running) ==> after_shutdown(m)[role] == m[role],
        m.dom().contains(role) ==> !(after_shutdown(m)[role] is Running),
{
    assert(after_shutdown(m).dom() =~= m.dom());
}

/// Asking for shutdown twice is the same as asking once.
pub proof fn shutdown_is_idempotent(m: Map<ThreadType, StatusView>)
    ensures
        after_shutdown(after_shutdown(m)) == after_shutdown(m),
{
    assert(after_shutdown(after_shutdown(m)) =~= after_shutdown(m));
}

/// After a shutdown request, once every other thread that was asked to
/// stop has let its status end as stopped or failed, the one role left out
/// is the last one standing: all the others have stopped or failed.
pub proof fn shutdown_completes(
    before: Map<ThreadType, StatusView>,
    after: Map<ThreadType, StatusView>,
    role: ThreadType,
)
    requires
        after.dom() == before.dom(),
        forall|other: ThreadType|
            before.dom().contains(other) && other != role ==> if after_shutdown(before)[other]
                is Terminating {
                is_terminal(#[trigger] after[other])
            } else {
                after[other] == after_shutdown(before)[other]
            },
    ensures
        others_stopped(after, role),
{
}

} // verus!
