use vstd::prelude::*;

verus! {

/// Lookup over a sequence of keyed entries, later entries taking
/// precedence.
pub open spec fn seq_get<S>(entries: Seq<(Seq<char>, S)>, key: Seq<char>) -> Option<S>
    decreases entries.len(),
{
    if entries.len() == 0 {
        Option::None
    } else if entries.last().0 == key {
        Option::Some(entries.last().1)
    } else {
        seq_get(entries.drop_last(), key)
    }
}

/// No two entries share a key.
pub open spec fn keys_unique<S>(entries: Seq<(Seq<char>, S)>) -> bool {
    forall|i: int, j: int|
        0 <= i < j < entries.len() ==> (#[trigger] entries[i]).0 != (#[trigger] entries[j]).0
}

/// `entries` with every entry keyed `key` removed.
pub open spec fn remove_key<S>(entries: Seq<(Seq<char>, S)>, key: Seq<char>) -> Seq<
    (Seq<char>, S),
>
    decreases entries.len(),
{
    if entries.len() == 0 {
        Seq::empty()
    } else {
        remove_key(entries.drop_last(), key) + (if entries.last().0 == key {
            Seq::<(Seq<char>, S)>::empty()
        } else {
            seq![entries.last()]
        })
    }
}

/// Removing a key removes exactly that key: lookups of other keys
/// are unchanged, the removed key is gone, and every surviving entry
/// is an entry of the input with a different key.
pub proof fn lemma_remove_key_get<S>(entries: Seq<(Seq<char>, S)>, key: Seq<char>)
    ensures
        forall|k: Seq<char>| k != key ==> #[trigger] seq_get(remove_key(entries, key), k)
            == seq_get(entries, k),
        seq_get(remove_key(entries, key), key) is None,
        forall|m: int|
            0 <= m < remove_key(entries, key).len() ==> (#[trigger] remove_key(entries, key)[m]).0
                != key && entries.contains(remove_key(entries, key)[m]),
    decreases entries.len(),
{
    if entries.len() > 0 {
        let du = entries.drop_last();
        lemma_remove_key_get(du, key);
        assert(forall|m: int| 0 <= m < du.len() ==> du[m] == #[trigger] entries[m]);
        assert(forall|e: (Seq<char>, S)| du.contains(e) ==> entries.contains(e));
        if entries.last().0 == key {
            assert(remove_key(entries, key) =~= remove_key(du, key));
            assert(forall|k: Seq<char>|
                k != key ==> #[trigger] seq_get(entries, k) == seq_get(du, k));
        } else {
            let t = remove_key(entries, key);
            assert(t =~= remove_key(du, key).push(entries.last()));
            assert(t.drop_last() =~= remove_key(du, key));
            assert(entries.contains(entries.last())) by {
                assert(entries[entries.len() - 1] == entries.last());
            }
            assert(forall|k: Seq<char>| k != key ==> #[trigger] seq_get(t, k) == seq_get(
                entries,
                k,
            )) by {
                assert(forall|k: Seq<char>|
                    k != key && k != entries.last().0 ==> #[trigger] seq_get(t, k) == seq_get(
                        remove_key(du, key),
                        k,
                    ) && seq_get(entries, k) == seq_get(du, k));
            }
        }
    }
}

/// Removing a key preserves key uniqueness.
pub proof fn lemma_remove_key_unique<S>(entries: Seq<(Seq<char>, S)>, key: Seq<char>)
    requires
        keys_unique(entries),
    ensures
        keys_unique(remove_key(entries, key)),
    decreases entries.len(),
{
    if entries.len() > 0 {
        let du = entries.drop_last();
        assert(forall|m: int| 0 <= m < du.len() ==> du[m] == #[trigger] entries[m]);
        assert(keys_unique(du));
        lemma_remove_key_unique(du, key);
        if entries.last().0 != key {
            let t = remove_key(entries, key);
            let p = remove_key(du, key);
            assert(t =~= p.push(entries.last()));
            assert forall|i: int, j: int| 0 <= i < j < t.len() implies (#[trigger] t[i]).0 != (
            #[trigger] t[j]).0 by {
                if j == t.len() - 1 {
                    // a surviving earlier entry cannot carry the last
                    // entry's key: it is an entry of the prefix, whose
                    // keys the last entry's key differs from
                    lemma_remove_key_get(du, key);
                    assert(du.contains(p[i]));
                    let m = choose|m: int| 0 <= m < du.len() && du[m] == p[i];
                    assert(entries[m] == p[i]);
                    assert(entries[m].0 != entries[entries.len() - 1].0);
                }
            }
        } else {
            assert(remove_key(entries, key) =~= remove_key(du, key));
        }
    }
}

/// An in-memory source catalog: a mapping from source identifier to
/// source definition, built fresh by a metadata scan and treated as
/// an immutable snapshot once published.  Keys are unique: publishing
/// under an existing identifier supersedes the earlier entry.
#[derive(Debug)]
pub struct Catalog<S> {
    entries: Vec<(String, S)>,
}

impl<S> Catalog<S> {
    /// The entries as (identifier view, value) pairs.
    pub closed spec fn entries_view(&self) -> Seq<(Seq<char>, S)> {
        self.entries@.map_values(|e: (String, S)| (e.0@, e.1))
    }

    /// Keys are unique — the catalog is a mapping.
    #[verifier::type_invariant]
    pub open spec fn wf(&self) -> bool {
        keys_unique(self.entries_view())
    }

    /// The value published under `key`, if any.
    pub open spec fn spec_get(&self, key: Seq<char>) -> Option<S> {
        seq_get(self.entries_view(), key)
    }

    /// `key` is published in this catalog.
    pub open spec fn spec_contains(&self, key: Seq<char>) -> bool {
        self.spec_get(key) is Some
    }

    /// An empty catalog.
    pub fn new() -> (c: Self)
        ensures
            c.entries_view() == Seq::<(Seq<char>, S)>::empty(),
    {
        let c = Catalog { entries: Vec::new() };
        proof {
            assert(c.entries_view() =~= Seq::<(Seq<char>, S)>::empty());
        }
        c
    }

    /// The number of entries.
    pub fn len(&self) -> (n: usize)
        ensures
            n == self.entries_view().len(),
    {
        self.entries.len()
    }

    /// Publishes `value` under `id`: an entry already published under
    /// the same identifier is superseded — removed and replaced by
    /// the new one, which takes the latest position.
    pub fn insert(&mut self, id: String, value: S)
        ensures
            final(self).entries_view() == remove_key(old(self).entries_view(), id@).push(
                (id@, value),
            ),
    {
        proof {
            use_type_invariant(&*self);
        }
        let ghost ov = self.entries_view();
        let ghost idv = id@;
        let mut src: Vec<(String, S)> = Vec::new();
        core::mem::swap(&mut src, &mut self.entries);
        let ghost orig = src@;
        let mut kept: Vec<(String, S)> = Vec::new();
        while src.len() > 0
            invariant
                kept@.len() + src@.len() <= orig.len(),
                src@ =~= orig.skip(orig.len() - src@.len()),
                kept@.map_values(|e: (String, S)| (e.0@, e.1)) =~= remove_key(
                    orig.take(orig.len() - src@.len()).map_values(
                        |e: (String, S)| (e.0@, e.1),
                    ),
                    idv,
                ),
                idv == id@,
            decreases src@.len(),
        {
            let ghost done = orig.len() - src@.len();
            let e = src.remove(0);
            proof {
                assert(e == orig[done]);
                assert(src@ =~= orig.skip(done + 1));
                let tn = orig.take(done + 1).map_values(|x: (String, S)| (x.0@, x.1));
                let to = orig.take(done).map_values(|x: (String, S)| (x.0@, x.1));
                assert(tn.drop_last() =~= to);
                assert(tn.last() == (e.0@, e.1));
            }
            if !(e.0 == id) {
                kept.push(e);
            }
            proof {
                assert(kept@.map_values(|x: (String, S)| (x.0@, x.1)) =~= remove_key(
                    orig.take(orig.len() - src@.len()).map_values(
                        |x: (String, S)| (x.0@, x.1),
                    ),
                    idv,
                ));
            }
        }
        proof {
            assert(orig.take(orig.len() as int) =~= orig);
            assert(ov == orig.map_values(|e: (String, S)| (e.0@, e.1)));
        }
        kept.push((id, value));
        proof {
            assert(kept@.map_values(|e: (String, S)| (e.0@, e.1)) =~= remove_key(ov, idv).push(
                (idv, value),
            ));
            lemma_remove_key_unique(ov, idv);
            lemma_remove_key_get(ov, idv);
            let t = remove_key(ov, idv).push((idv, value));
            assert forall|i: int, j: int| 0 <= i < j < t.len() implies (#[trigger] t[i]).0 != (
            #[trigger] t[j]).0 by {
                if j < t.len() - 1 {
                    assert(t[i] == remove_key(ov, idv)[i] && t[j] == remove_key(ov, idv)[j]);
                } else {
                    assert(t[i] == remove_key(ov, idv)[i]);
                    assert(remove_key(ov, idv)[i].0 != idv);
                }
            }
        }
        self.entries = kept;
    }

    /// Takes the entries out, in order; no identifier appears twice.
    pub fn into_entries(self) -> (r: Vec<(String, S)>)
        ensures
            r@.map_values(|e: (String, S)| (e.0@, e.1)) == self.entries_view(),
            keys_unique(self.entries_view()),
    {
        proof {
            use_type_invariant(&self);
        }
        self.entries
    }

    /// Read access to the entries, in order, for callers that list or
    /// serialize the catalog; no identifier appears twice.
    pub fn entries(&self) -> (r: &Vec<(String, S)>)
        ensures
            r@.len() == self.entries_view().len(),
            forall|i: int|
                0 <= i < r@.len() ==> (#[trigger] r@[i]).0@ == self.entries_view()[i].0
                    && r@[i].1 == self.entries_view()[i].1,
            keys_unique(self.entries_view()),
    {
        proof {
            use_type_invariant(&*self);
        }
        &self.entries
    }

    /// Looks `id` up in the catalog.
    pub fn get(&self, id: &String) -> (r: Option<&S>)
        ensures
            match r {
                Option::Some(v) => self.spec_get(id@) == Option::Some(*v),
                Option::None => self.spec_get(id@) is None,
            },
    {
        let mut i = self.entries.len();
        proof {
            assert(self.entries_view().take(i as int) =~= self.entries_view());
        }
        while i > 0
            invariant
                i <= self.entries.len(),
                self.entries_view().len() == self.entries@.len(),
                seq_get(self.entries_view().take(i as int), id@) == self.spec_get(id@),
            decreases i,
        {
            proof {
                assert(self.entries_view().take(i as int).last() == self.entries_view()[
                    i - 1]);
                assert(self.entries_view().take(i as int).drop_last() =~= self.entries_view()
                    .take(i - 1));
            }
            if self.entries[i - 1].0 == *id {
                return Some(&self.entries[i - 1].1);
            }
            i = i - 1;
        }
        None
    }
}

} // verus!
