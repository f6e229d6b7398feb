use crate::errors::ServeError;
use vstd::prelude::*;

verus! {

/// One database connection of the bounded pool.  `broken` marks a
/// connection whose link failed; the pool repairs it transparently on
/// the next checkout.
#[derive(Clone, Copy, Debug, PartialEq, Eq, Structural)]
pub struct Connection {
    pub id: usize,
    pub broken: bool,
}

/// A bounded set of database connections with blocking checkout and
/// unconditional checkin.  The pool size is fixed at construction.
/// The ghost `out` set tracks the ids currently checked out: no
/// connection is ever held by two callers at once.
pub struct ConnectionPool {
    pub capacity: usize,
    pub available: Vec<Connection>,
    pub out: Ghost<Set<int>>,
}

impl ConnectionPool {
    /// The ids of the free connections, in stack order.
    pub open spec fn free_ids(&self) -> Seq<int> {
        self.available@.map_values(|c: Connection| c.id as int)
    }

    /// Every connection is either free or checked out, never both,
    /// and ids stay within the fixed capacity.
    pub open spec fn wf(&self) -> bool {
        &&& self.out@.finite()
        &&& self.available@.len() + self.out@.len() == self.capacity
        &&& forall|i: int|
            0 <= i < self.free_ids().len() ==> 0 <= #[trigger] self.free_ids()[i]
                < self.capacity
        &&& forall|i: int, j: int|
            0 <= i < j < self.free_ids().len() ==> self.free_ids()[i] != self.free_ids()[j]
        &&& forall|i: int|
            0 <= i < self.free_ids().len() ==> !self.out@.contains(#[trigger] self.free_ids()[i])
    }
}

/// Builds a pool of `pool_size` fresh connections, all free.
pub fn setup_connection_pool(pool_size: usize) -> (p: ConnectionPool)
    ensures
        p.wf(),
        p.capacity == pool_size,
        p.available@.len() == pool_size,
        p.out@ == Set::<int>::empty(),
{
    let mut available: Vec<Connection> = Vec::new();
    let mut i: usize = 0;
    while i < pool_size
        invariant
            i <= pool_size,
            available@.len() == i,
            forall|k: int|
                0 <= k < i ==> (#[trigger] available@[k]) == (Connection {
                    id: k as usize,
                    broken: false,
                }),
        decreases pool_size - i,
    {
        available.push(Connection { id: i, broken: false });
        i = i + 1;
    }
    let p = ConnectionPool { capacity: pool_size, available, out: Ghost(Set::empty()) };
    proof {
        assert(forall|k: int|
            0 <= k < p.free_ids().len() ==> #[trigger] p.free_ids()[k] == k);
    }
    p
}

impl ConnectionPool {
    /// Checks a connection out.  The caller gets a working
    /// connection: one that broke since its last use is repaired
    /// transparently here.  When every connection is checked out the
    /// bounded wait has failed and the pool reports exhaustion —
    /// exactly then.
    pub fn acquire(&mut self) -> (r: Result<Connection, ServeError>)
        requires
            old(self).wf(),
        ensures
            final(self).wf(),
            final(self).capacity == old(self).capacity,
            match r {
                Ok(c) => {
                    &&& !c.broken
                    &&& old(self).available@.len() > 0
                    &&& c.id == old(self).available@.last().id
                    &&& final(self).available@ == old(self).available@.drop_last()
                    &&& final(self).out@ == old(self).out@.insert(c.id as int)
                },
                Err(e) => {
                    &&& e == ServeError::PoolExhausted
                    &&& old(self).available@.len() == 0
                    &&& final(self).available@ == old(self).available@
                    &&& final(self).out == old(self).out
                },
            },
    {
        let popped = self.available.pop();
        match popped {
            Option::Some(mut c) => {
                if c.broken {
                    // the previous user hit a connection failure;
                    // reconnect before handing it out
                    c.broken = false;
                }
                proof {
                    let ghost idx = old(self).available@.len() - 1;
                    let ghost cid = old(self).available@.last().id as int;
                    assert(old(self).free_ids()[idx] == cid);
                    assert(!old(self).out@.contains(cid));
                    self.out@ = self.out@.insert(cid);
                    assert(self.out@.len() == old(self).out@.len() + 1);
                    assert(self.available@ =~= old(self).available@.drop_last());
                    assert(forall|i: int|
                        0 <= i < self.free_ids().len() ==> #[trigger] self.free_ids()[i]
                            == old(self).free_ids()[i]);
                    assert forall|i: int| 0 <= i < self.free_ids().len() implies !self.out@
                        .contains(#[trigger] self.free_ids()[i]) by {
                        assert(self.free_ids()[i] == old(self).free_ids()[i]);
                        assert(old(self).free_ids()[i] != old(self).free_ids()[idx]);
                        assert(!old(self).out@.contains(old(self).free_ids()[i]));
                    };
                }
                Ok(c)
            },
            Option::None => Err(ServeError::PoolExhausted),
        }
    }

    /// Returns a connection to the free set, unconditionally: a
    /// connection is never discarded at release, whatever state it
    /// is in.
    pub fn release(&mut self, c: Connection)
        requires
            old(self).wf(),
            old(self).out@.contains(c.id as int),
            c.id < old(self).capacity,
        ensures
            final(self).wf(),
            final(self).capacity == old(self).capacity,
            final(self).available@ == old(self).available@.push(c),
            final(self).out@ == old(self).out@.remove(c.id as int),
    {
        proof {
            self.out@ = self.out@.remove(c.id as int);
        }
        self.available.push(c);
        proof {
            assert(forall|i: int|
                0 <= i < old(self).free_ids().len() ==> #[trigger] self.free_ids()[i] == old(
                    self,
                ).free_ids()[i]);
            assert(self.free_ids()[self.free_ids().len() - 1] == c.id as int);
        }
    }
}

} // verus!
