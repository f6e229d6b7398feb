use crate::function_source::FunctionSources;
use crate::registry::{functions_update, rc_dup, tables_update, CatalogUpdate, WorkerRegistry};
use crate::table_source::TableSources;
use std::rc::Rc;
use vstd::prelude::*;

verus! {

/// The process-wide singleton that tracks every registered worker
/// registry and broadcasts catalog replacements to all of them.  The
/// ghost `issued` stream records every broadcast in issuance order;
/// each registry's delivery log is exactly the suffix of that stream
/// from the moment it connected.
pub struct Coordinator {
    pub registries: Vec<WorkerRegistry>,
    pub issued: Ghost<Seq<CatalogUpdate>>,
}

impl Coordinator {
    /// Every registered registry has received exactly the broadcasts
    /// issued since it connected, in issuance order.
    pub open spec fn wf(&self) -> bool {
        forall|i: int|
            0 <= i < self.registries@.len() ==> {
                let r = #[trigger] self.registries@[i];
                &&& r.missed@ <= self.issued@.len()
                &&& r.log@ == self.issued@.skip(r.missed@ as int)
            }
    }

    /// A coordinator with no registries and nothing issued.
    pub fn new() -> (c: Self)
        ensures
            c.wf(),
            c.registries@.len() == 0,
            c.issued@ == Seq::<CatalogUpdate>::empty(),
    {
        Coordinator { registries: Vec::new(), issued: Ghost(Seq::empty()) }
    }

    /// Registers a registry with the coordinator; from now on it
    /// receives every broadcast.  Registration happens exactly once
    /// per registry; one that never registers receives nothing.
    pub fn connect(&mut self, r: WorkerRegistry)
        requires
            old(self).wf(),
            r.log@ == Seq::<CatalogUpdate>::empty(),
        ensures
            final(self).wf(),
            final(self).issued == old(self).issued,
            final(self).registries@.len() == old(self).registries@.len() + 1,
            forall|i: int|
                0 <= i < old(self).registries@.len() ==> final(self).registries@[i] == old(
                    self,
                ).registries@[i],
            final(self).registries@.last().table_sources == r.table_sources,
            final(self).registries@.last().function_sources == r.function_sources,
            final(self).registries@.last().log@ == Seq::<CatalogUpdate>::empty(),
    {
        let mut r = r;
        proof {
            r.missed@ = self.issued@.len();
        }
        self.registries.push(r);
        proof {
            assert(self.issued@.skip(self.issued@.len() as int) =~= Seq::<
                CatalogUpdate,
            >::empty());
        }
    }

    /// Broadcasts a replacement table catalog: exactly one update is
    /// issued, and every registered registry — including the one
    /// that triggered the scan — atomically swaps to the new
    /// snapshot, its function catalog untouched.
    pub fn broadcast_tables(&mut self, cat: Rc<TableSources>)
        requires
            old(self).wf(),
        ensures
            final(self).wf(),
            final(self).issued@ == old(self).issued@.push(CatalogUpdate::Tables(*cat)),
            final(self).registries@.len() == old(self).registries@.len(),
            forall|i: int|
                0 <= i < final(self).registries@.len() ==> {
                    let r = #[trigger] final(self).registries@[i];
                    let o = old(self).registries@[i];
                    &&& r.current_tables() == Option::Some(*cat)
                    &&& r.function_sources == o.function_sources
                    &&& r.log@ == o.log@.push(CatalogUpdate::Tables(*cat))
                    &&& r.missed == o.missed
                },
    {
        let ghost upd = tables_update(cat);
        proof {
            self.issued@ = self.issued@.push(upd);
        }
        let mut pending: Vec<WorkerRegistry> = Vec::new();
        core::mem::swap(&mut pending, &mut self.registries);
        let ghost orig = pending@;
        let mut done: Vec<WorkerRegistry> = Vec::new();
        while pending.len() > 0
            invariant
                done@.len() + pending@.len() == orig.len(),
                pending@ =~= orig.skip(done@.len() as int),
                forall|k: int|
                    0 <= k < done@.len() ==> {
                        let r = #[trigger] done@[k];
                        let o = orig[k];
                        &&& r.current_tables() == Option::Some(*cat)
                        &&& r.function_sources == o.function_sources
                        &&& r.log@ == o.log@.push(CatalogUpdate::Tables(*cat))
                        &&& r.missed == o.missed
                    },
            decreases pending.len(),
        {
            let mut r = pending.remove(0);
            proof {
                assert(orig.skip(done@.len() as int)[0] == orig[done@.len() as int]);
                assert(pending@ =~= orig.skip(done@.len() as int + 1));
            }
            r.replace_tables(rc_dup(&cat));
            done.push(r);
        }
        self.registries = done;
        proof {
            assert forall|i: int| 0 <= i < self.registries@.len() implies {
                let r = #[trigger] self.registries@[i];
                &&& r.missed@ <= self.issued@.len()
                &&& r.log@ == self.issued@.skip(r.missed@ as int)
            } by {
                let r = self.registries@[i];
                let o = orig[i];
                assert(old(self).issued@.skip(o.missed@ as int).push(upd) =~= self.issued@.skip(
                    o.missed@ as int,
                ));
            }
        }
    }

    /// Broadcasts a replacement function catalog, the same way.
    pub fn broadcast_functions(&mut self, cat: Rc<FunctionSources>)
        requires
            old(self).wf(),
        ensures
            final(self).wf(),
            final(self).issued@ == old(self).issued@.push(CatalogUpdate::Functions(*cat)),
            final(self).registries@.len() == old(self).registries@.len(),
            forall|i: int|
                0 <= i < final(self).registries@.len() ==> {
                    let r = #[trigger] final(self).registries@[i];
                    let o = old(self).registries@[i];
                    &&& r.current_functions() == Option::Some(*cat)
                    &&& r.table_sources == o.table_sources
                    &&& r.log@ == o.log@.push(CatalogUpdate::Functions(*cat))
                    &&& r.missed == o.missed
                },
    {
        let ghost upd = functions_update(cat);
        proof {
            self.issued@ = self.issued@.push(upd);
        }
        let mut pending: Vec<WorkerRegistry> = Vec::new();
        core::mem::swap(&mut pending, &mut self.registries);
        let ghost orig = pending@;
        let mut done: Vec<WorkerRegistry> = Vec::new();
        while pending.len() > 0
            invariant
                done@.len() + pending@.len() == orig.len(),
                pending@ =~= orig.skip(done@.len() as int),
                forall|k: int|
                    0 <= k < done@.len() ==> {
                        let r = #[trigger] done@[k];
                        let o = orig[k];
                        &&& r.current_functions() == Option::Some(*cat)
                        &&& r.table_sources == o.table_sources
                        &&& r.log@ == o.log@.push(CatalogUpdate::Functions(*cat))
                        &&& r.missed == o.missed
                    },
            decreases pending.len(),
        {
            let mut r = pending.remove(0);
            proof {
                assert(orig.skip(done@.len() as int)[0] == orig[done@.len() as int]);
                assert(pending@ =~= orig.skip(done@.len() as int + 1));
            }
            r.replace_functions(rc_dup(&cat));
            done.push(r);
        }
        self.registries = done;
        proof {
            assert forall|i: int| 0 <= i < self.registries@.len() implies {
                let r = #[trigger] self.registries@[i];
                &&& r.missed@ <= self.issued@.len()
                &&& r.log@ == self.issued@.skip(r.missed@ as int)
            } by {
                let r = self.registries@[i];
                let o = orig[i];
                assert(old(self).issued@.skip(o.missed@ as int).push(upd) =~= self.issued@.skip(
                    o.missed@ as int,
                ));
            }
        }
    }
}

/// Law: broadcasts reach each registered registry in issuance order.
/// For any two updates issued at positions p1 < p2 after a registry
/// connected, the registry's delivery log holds them at the same
/// relative positions, p1 before p2.
pub proof fn lemma_delivery_in_issuance_order(c: Coordinator, i: int, p1: int, p2: int)
    requires
        c.wf(),
        0 <= i < c.registries@.len(),
        c.registries@[i].missed@ <= p1 < p2 < c.issued@.len(),
    ensures
        ({
            let r = c.registries@[i];
            let m = r.missed@ as int;
            &&& 0 <= p1 - m < p2 - m < r.log@.len()
            &&& r.log@[p1 - m] == c.issued@[p1]
            &&& r.log@[p2 - m] == c.issued@[p2]
        }),
{
    let r = c.registries@[i];
    let m = r.missed@ as int;
    assert(r.log@ == c.issued@.skip(m));
    assert(c.issued@.skip(m)[p1 - m] == c.issued@[p1]);
    assert(c.issued@.skip(m)[p2 - m] == c.issued@[p2]);
}

} // verus!
