use crate::function_source::FunctionSources;
use crate::table_source::{TableSource, TableSources};
use std::rc::Rc;
use vstd::prelude::*;

verus! {

/// One catalog replacement as it travels from the coordinator to the
/// registries.
pub enum CatalogUpdate {
    Tables(TableSources),
    Functions(FunctionSources),
}

/// The update that publishes the table catalog `cat` holds.
pub open spec fn tables_update(cat: Rc<TableSources>) -> CatalogUpdate {
    CatalogUpdate::Tables(*cat)
}

/// The update that publishes the function catalog `cat` holds.
pub open spec fn functions_update(cat: Rc<FunctionSources>) -> CatalogUpdate {
    CatalogUpdate::Functions(*cat)
}

/// Shares a reference-counted catalog snapshot.
///
/// Relies on Rc::clone: the returned handle points to the same
/// allocation, so it carries the same value as the one cloned.
#[verifier::external_body]
pub(crate) fn rc_dup<T>(rc: &Rc<T>) -> (r: Rc<T>)
    ensures
        r == *rc,
{
    Rc::clone(rc)
}

/// The per-process holder of the current source catalogs: zero or one
/// snapshot for tables and zero or one for functions.  "No catalog
/// yet" is distinct from "catalog with zero sources".  Snapshots are
/// reference-counted and immutable once published: a replacement
/// swaps the whole handle, and readers that still hold the old
/// snapshot keep reading the old catalog.
///
/// The ghost log records every update delivered to this registry, in
/// delivery order; `missed` counts the broadcasts issued before the
/// registry connected.
pub struct WorkerRegistry {
    pub table_sources: Option<Rc<TableSources>>,
    pub function_sources: Option<Rc<FunctionSources>>,
    pub log: Ghost<Seq<CatalogUpdate>>,
    pub missed: Ghost<nat>,
}

impl WorkerRegistry {
    /// The table catalog this registry currently serves.
    pub open spec fn current_tables(&self) -> Option<TableSources> {
        match self.table_sources {
            Option::Some(rc) => Option::Some(*rc),
            Option::None => Option::None,
        }
    }

    /// The function catalog this registry currently serves.
    pub open spec fn current_functions(&self) -> Option<FunctionSources> {
        match self.function_sources {
            Option::Some(rc) => Option::Some(*rc),
            Option::None => Option::None,
        }
    }

    /// The registry's answer for a table-source lookup: determined
    /// entirely by the single catalog snapshot it currently holds.
    pub open spec fn spec_lookup_tables(&self, id: Seq<char>) -> Option<TableSource> {
        match self.current_tables() {
            Option::Some(cat) => cat.spec_get(id),
            Option::None => Option::None,
        }
    }

    /// A fresh registry seeded with the given catalogs (absent in
    /// watch mode before the first scan, or supplied from static
    /// configuration).
    pub fn new(tables: Option<Rc<TableSources>>, functions: Option<Rc<FunctionSources>>) -> (r:
        Self)
        ensures
            r.table_sources == tables,
            r.function_sources == functions,
            r.log@ == Seq::<CatalogUpdate>::empty(),
            r.missed@ == 0,
    {
        WorkerRegistry {
            table_sources: tables,
            function_sources: functions,
            log: Ghost(Seq::empty()),
            missed: Ghost(0),
        }
    }

    /// Atomically swaps the held table catalog for `cat`.  Readers
    /// never observe a half-updated catalog: the whole snapshot
    /// handle is replaced in one step, and snapshots taken earlier
    /// are unaffected.
    pub fn replace_tables(&mut self, cat: Rc<TableSources>)
        ensures
            final(self).table_sources == Option::Some(cat),
            final(self).current_tables() == Option::Some(*cat),
            final(self).function_sources == old(self).function_sources,
            final(self).log@ == old(self).log@.push(CatalogUpdate::Tables(*cat)),
            final(self).missed == old(self).missed,
    {
        self.table_sources = Some(cat);
        proof {
            self.log@ = self.log@.push(tables_update(cat));
        }
    }

    /// Atomically swaps the held function catalog for `cat`.
    pub fn replace_functions(&mut self, cat: Rc<FunctionSources>)
        ensures
            final(self).function_sources == Option::Some(cat),
            final(self).current_functions() == Option::Some(*cat),
            final(self).table_sources == old(self).table_sources,
            final(self).log@ == old(self).log@.push(CatalogUpdate::Functions(*cat)),
            final(self).missed == old(self).missed,
    {
        self.function_sources = Some(cat);
        proof {
            self.log@ = self.log@.push(functions_update(cat));
        }
    }

    /// Hands a reader its own handle on the current table-catalog
    /// snapshot; the reader keeps reading that snapshot even if the
    /// registry swaps to a newer one meanwhile.
    pub fn snapshot_tables(&self) -> (r: Option<Rc<TableSources>>)
        ensures
            r == self.table_sources,
    {
        match &self.table_sources {
            Option::Some(rc) => Some(rc_dup(rc)),
            Option::None => None,
        }
    }

    /// Hands a reader its own handle on the current function-catalog
    /// snapshot.
    pub fn snapshot_functions(&self) -> (r: Option<Rc<FunctionSources>>)
        ensures
            r == self.function_sources,
    {
        match &self.function_sources {
            Option::Some(rc) => Some(rc_dup(rc)),
            Option::None => None,
        }
    }
}

/// Law: catalog replacement is atomic from a reader's point of view.
/// A registry's lookup answer is a function of the one catalog
/// snapshot it holds: a reader that resolved against the snapshot
/// `before` held sees `before`'s entries for every identifier, and
/// one that reads after a swap to `cat` sees exactly `cat`'s entries
/// — never a mixture of the two.
pub proof fn lemma_catalog_swap_atomic(
    before: WorkerRegistry,
    after: WorkerRegistry,
    snap: TableSources,
    cat: TableSources,
    id: Seq<char>,
)
    requires
        before.current_tables() == Option::Some(snap),
        after.current_tables() == Option::Some(cat),
    ensures
        before.spec_lookup_tables(id) == snap.spec_get(id),
        after.spec_lookup_tables(id) == cat.spec_get(id),
{
}

} // verus!
