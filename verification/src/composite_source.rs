use crate::mercator::is_envelope_of;
use crate::source::{BindValue, Tile, TileQuery, XYZ};
use crate::table_source::{table_tile_sql, TableSource};
use vstd::prelude::*;
use vstd::string::StrSliceExecFns;

verus! {

/// An ordered list of table sources merged into one tile response.
#[derive(Clone, Debug)]
pub struct CompositeSource {
    pub id: String,
    pub table_sources: Vec<TableSource>,
}

/// The byte-level concatenation of the constituent payloads, in
/// order.  MVT layers are independently framed, so concatenation is a
/// valid merge.
pub open spec fn merged_payload(parts: Seq<Seq<u8>>) -> Seq<u8>
    decreases parts.len(),
{
    if parts.len() == 0 {
        Seq::empty()
    } else {
        merged_payload(parts.drop_last()) + parts.last()
    }
}

/// Concatenates the constituent tile payloads into one response.
pub fn merge_tiles(parts: &Vec<Tile>) -> (r: Tile)
    ensures
        r@ == merged_payload(parts.deep_view()),
{
    let mut r: Vec<u8> = Vec::new();
    let mut i: usize = 0;
    while i < parts.len()
        invariant
            i <= parts.len(),
            r@ == merged_payload(parts.deep_view().take(i as int)),
        decreases parts.len() - i,
    {
        let part = &parts[i];
        let mut j: usize = 0;
        while j < part.len()
            invariant
                i < parts.len(),
                j <= part.len(),
                part == parts@[i as int],
                r@ == merged_payload(parts.deep_view().take(i as int)) + part@.take(j as int),
            decreases part.len() - j,
        {
            r.push(part[j]);
            proof {
                assert(part@.take(j + 1).drop_last() =~= part@.take(j as int));
                assert(r@ =~= merged_payload(parts.deep_view().take(i as int)) + part@.take(
                    j + 1,
                ));
            }
            j = j + 1;
        }
        proof {
            let t = parts.deep_view().take(i + 1);
            assert(t.drop_last() =~= parts.deep_view().take(i as int));
            assert(t.last() == parts.deep_view()[i as int]);
            assert(parts.deep_view()[i as int] == part@);
            assert(part@.take(part@.len() as int) =~= part@);
            assert(r@ =~= merged_payload(t));
        }
        i = i + 1;
    }
    proof {
        assert(parts.deep_view().take(parts.deep_view().len() as int) =~= parts.deep_view());
    }
    r
}

impl CompositeSource {
    /// The identifier under which this source is published.
    pub fn get_id(&self) -> (r: &str)
        ensures
            r@ == self.id@,
    {
        self.id.as_str()
    }

    /// Synthesizes one tile query per constituent source, in order;
    /// the payloads of the answers are merged with `merge_tiles`.
    pub fn get_tile_queries(&self, xyz: &XYZ) -> (qs: Vec<TileQuery>)
        requires
            xyz.z <= 30,
        ensures
            qs@.len() == self.table_sources@.len(),
            forall|i: int|
                0 <= i < qs@.len() ==> (#[trigger] qs@[i]).sql@ == table_tile_sql(
                    self.table_sources@[i],
                ) && qs@[i].params@.len() == 3 && qs@[i].params@[0] == BindValue::Int(
                    xyz.z as i64,
                ) && qs@[i].params@[1] == BindValue::Int(xyz.x as i64) && qs@[i].params@[2]
                    == BindValue::Int(xyz.y as i64) && is_envelope_of(qs@[i].envelope, *xyz),
    {
        let mut qs: Vec<TileQuery> = Vec::new();
        let mut i: usize = 0;
        while i < self.table_sources.len()
            invariant
                xyz.z <= 30,
                i <= self.table_sources.len(),
                qs@.len() == i,
                forall|k: int|
                    0 <= k < i ==> (#[trigger] qs@[k]).sql@ == table_tile_sql(
                        self.table_sources@[k],
                    ) && qs@[k].params@.len() == 3 && qs@[k].params@[0] == BindValue::Int(
                        xyz.z as i64,
                    ) && qs@[k].params@[1] == BindValue::Int(xyz.x as i64) && qs@[k].params@[2]
                        == BindValue::Int(xyz.y as i64) && is_envelope_of(qs@[k].envelope, *xyz),
            decreases self.table_sources.len() - i,
        {
            qs.push(self.table_sources[i].get_tile_query(xyz));
            i = i + 1;
        }
        qs
    }
}

} // verus!
