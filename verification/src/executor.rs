use crate::pool::Connection;
use vstd::pervasive::VecAdditionalExecFns;
use vstd::prelude::*;

verus! {

/// One executor worker, bound to its own connection for its
/// lifetime.  All blocking query work runs on executors, never on
/// the threads accepting requests.
#[derive(Clone, Copy, Debug, PartialEq, Eq, Structural)]
pub struct Executor {
    pub conn: Connection,
    pub busy: bool,
}

/// A fixed-size pool of executor workers.  Each operation runs to
/// completion on exactly one executor, selected among the idle ones
/// with no priority and no affinity; executors never retry on their
/// own, and a worker whose connection failed reconnects lazily when
/// it next accepts an operation.
pub struct DbExecutorPool {
    pub executors: Vec<Executor>,
}

impl DbExecutorPool {
    /// Builds `n` executors, each idle and bound to its own fresh
    /// connection.
    pub fn new(n: usize) -> (p: Self)
        ensures
            p.executors@.len() == n,
            forall|i: int|
                0 <= i < n ==> (#[trigger] p.executors@[i]) == (Executor {
                    conn: Connection { id: i as usize, broken: false },
                    busy: false,
                }),
    {
        let mut executors: Vec<Executor> = Vec::new();
        let mut i: usize = 0;
        while i < n
            invariant
                i <= n,
                executors@.len() == i,
                forall|k: int|
                    0 <= k < i ==> (#[trigger] executors@[k]) == (Executor {
                        conn: Connection { id: k as usize, broken: false },
                        busy: false,
                    }),
            decreases n - i,
        {
            executors.push(Executor { conn: Connection { id: i, broken: false }, busy: false });
            i = i + 1;
        }
        DbExecutorPool { executors }
    }

    /// Accepts an operation: hands it to an idle executor, marking it
    /// busy, with its connection repaired if it had failed (the lazy
    /// reconnect).  Returns None — leaving the pool untouched — only
    /// when every executor is busy.
    pub fn dispatch(&mut self) -> (r: Option<usize>)
        ensures
            final(self).executors@.len() == old(self).executors@.len(),
            match r {
                Option::Some(i) => {
                    &&& i < old(self).executors@.len()
                    &&& old(self).executors@[i as int].busy == false
                    &&& final(self).executors@[i as int].busy == true
                    &&& final(self).executors@[i as int].conn.broken == false
                    &&& final(self).executors@[i as int].conn.id == old(
                        self,
                    ).executors@[i as int].conn.id
                    &&& forall|j: int|
                        0 <= j < old(self).executors@.len() && j != i
                            ==> final(self).executors@[j] == old(self).executors@[j]
                },
                Option::None => {
                    &&& final(self).executors@ == old(self).executors@
                    &&& forall|j: int|
                        0 <= j < old(self).executors@.len() ==> (#[trigger] old(
                            self,
                        ).executors@[j]).busy
                },
            },
    {
        let n = self.executors.len();
        let mut i: usize = 0;
        while i < n
            invariant
                i <= n,
                n == self.executors@.len(),
                self.executors@ == old(self).executors@,
                forall|j: int| 0 <= j < i ==> (#[trigger] self.executors@[j]).busy,
            decreases n - i,
        {
            if !self.executors[i].busy {
                let id = self.executors[i].conn.id;
                self.executors.set(
                    i,
                    Executor { conn: Connection { id, broken: false }, busy: true },
                );
                return Some(i);
            }
            i = i + 1;
        }
        None
    }

    /// Records that the operation running on executor `i` finished.
    /// A connection failure during the operation is remembered on
    /// the worker's connection; the worker does not reconnect now but
    /// when it next accepts an operation.
    pub fn complete(&mut self, i: usize, conn_failed: bool)
        requires
            i < old(self).executors@.len(),
            old(self).executors@[i as int].busy,
        ensures
            final(self).executors@.len() == old(self).executors@.len(),
            final(self).executors@[i as int].busy == false,
            final(self).executors@[i as int].conn.broken == conn_failed,
            final(self).executors@[i as int].conn.id == old(self).executors@[i as int].conn.id,
            forall|j: int|
                0 <= j < old(self).executors@.len() && j != i ==> final(self).executors@[j]
                    == old(self).executors@[j],
    {
        let id = self.executors[i].conn.id;
        self.executors.set(i, Executor { conn: Connection { id, broken: conn_failed }, busy: false });
    }
}

} // verus!
