use crate::catalog::{keys_unique, lemma_remove_key_get, remove_key, seq_get, Catalog};
use crate::source::Tile;
use vstd::prelude::*;
use vstd::string::{StrSliceExecFns, StringExecFns};

verus! {

/// One row of the database's geometry-columns metadata view, together
/// with the answer of the per-table extent query.  Rows are plain
/// values: the executor that talks to the database hands them to the
/// catalog builders.
#[derive(Clone, Debug)]
pub struct GeomRow {
    pub schema: String,
    pub table: String,
    pub geometry_column: String,
    pub srid: i32,
    pub geometry_type: Option<String>,
    pub properties: Vec<(String, String)>,
    pub bounds_text: Option<String>,
}

/// One row of the metadata scan that lists database functions
/// published as tile sources.
#[derive(Clone, Debug)]
pub struct FunctionRow {
    pub schema: String,
    pub function: String,
}

/// The identifier a metadata row is published under: `schema.table`.
pub open spec fn id_view(row: GeomRow) -> Seq<char> {
    row.schema@ + "."@ + row.table@
}

/// Renders the identifier of `row`.
pub fn row_id(row: &GeomRow) -> (r: String)
    ensures
        r@ == id_view(*row),
{
    let mut r = row.schema.clone();
    r.append(".");
    r.append(row.table.as_str());
    r
}

/// The literal metadata query that lists the published tables; it
/// must be reproduced exactly for compatibility.
pub fn table_sources_query() -> (q: &'static str)
    ensures
        q@ == "
        select
            f_table_schema, f_table_name, f_geometry_column, srid, type
        from geometry_columns
    "@,
{
    "
        select
            f_table_schema, f_table_name, f_geometry_column, srid, type
        from geometry_columns
    "
}

/// The per-table spatial-extent query whose textual box answer
/// becomes the source's bounds.
pub fn bounds_query(id: &str) -> (q: String)
    ensures
        q@ == "SELECT ST_Extent(geom)::TEXT as bounds from  "@ + id@,
{
    let mut q = String::from_str("SELECT ST_Extent(geom)::TEXT as bounds from  ");
    q.append(id);
    q
}

/// Extracts the tile payload from the rows a tile query returned: the
/// payload column of the first row, or a zero-length payload when the
/// query matched no rows (that is a valid "no content" answer, not an
/// error).
pub fn tile_from_rows(rows: Vec<Tile>) -> (t: Tile)
    ensures
        rows@.len() == 0 ==> t@ == Seq::<u8>::empty(),
        rows@.len() > 0 ==> t == rows@[0],
{
    let mut rows = rows;
    if rows.len() == 0 {
        Vec::new()
    } else {
        rows.remove(0)
    }
}

/// One table published under the legacy single-query catalog: the
/// source definition together with its fully rendered tile query.
#[derive(Clone, Debug)]
pub struct Tileset {
    pub schema: String,
    pub table: String,
    pub geometry_column: String,
    pub srid: i32,
    pub extent: i32,
    pub buffer: i32,
    pub clip_geom: bool,
    pub geometry_type: String,
    pub query: String,
}

/// The legacy catalog: tilesets keyed by `schema.table`.
pub type Tilesets = Catalog<Tileset>;

/// The geometry expression of a legacy tileset query: the bare column
/// in Web Mercator, otherwise wrapped in a reprojection.
pub open spec fn tileset_geom_expr(geom: Seq<char>, srid: i32) -> Seq<char> {
    if srid == 3857 {
        geom
    } else {
        "ST_Transform("@ + geom + ", 3857)"@
    }
}

/// The fully rendered tile query of a legacy tileset: the documented
/// defaults of extent 4096, buffer 64 and clipping on, with z, x, y
/// as bind values.
pub open spec fn tileset_sql(schema: Seq<char>, table: Seq<char>, geom: Seq<char>, srid: i32) -> Seq<
    char,
> {
    "SELECT ST_AsMVT(q, '"@ + table + "', 4096, '"@ + geom + "') FROM (SELECT ST_AsMVTGeom("@
        + tileset_geom_expr(geom, srid) + ", TileBBox($1, $2, $3, 3857), 4096, 64, true) AS geom FROM "@
        + schema + "."@ + table + ") AS q;"@
}

/// The geometry-type text of a metadata row; absent means empty.
pub open spec fn row_geom_type(row: GeomRow) -> Seq<char> {
    match row.geometry_type {
        Option::Some(t) => t@,
        Option::None => Seq::empty(),
    }
}

/// The metadata row that defines legacy-catalog key `key`: the last
/// row published under it whose SRID is not the invalid 0.
pub open spec fn tileset_scan_get(rows: Seq<GeomRow>, key: Seq<char>) -> Option<GeomRow>
    decreases rows.len(),
{
    if rows.len() == 0 {
        Option::None
    } else if rows.last().srid != 0 && id_view(rows.last()) == key {
        Option::Some(rows.last())
    } else {
        tileset_scan_get(rows.drop_last(), key)
    }
}

/// `e` is the catalog entry built from metadata row `row`.
pub open spec fn tileset_entry_matches(e: (Seq<char>, Tileset), row: GeomRow) -> bool {
    &&& e.0 == id_view(row)
    &&& e.1.schema@ == row.schema@
    &&& e.1.table@ == row.table@
    &&& e.1.geometry_column@ == row.geometry_column@
    &&& e.1.srid == row.srid
    &&& e.1.extent == 4096
    &&& e.1.buffer == 64
    &&& e.1.clip_geom == true
    &&& e.1.geometry_type@ == row_geom_type(row)
    &&& e.1.query@ == tileset_sql(row.schema@, row.table@, row.geometry_column@, row.srid)
}

fn tileset_query_string(row: &GeomRow) -> (q: String)
    ensures
        q@ == tileset_sql(row.schema@, row.table@, row.geometry_column@, row.srid),
{
    let mut q = String::from_str("SELECT ST_AsMVT(q, '");
    q.append(row.table.as_str());
    q.append("', 4096, '");
    q.append(row.geometry_column.as_str());
    q.append("') FROM (SELECT ST_AsMVTGeom(");
    if row.srid == 3857 {
        q.append(row.geometry_column.as_str());
    } else {
        let mut t = String::from_str("ST_Transform(");
        t.append(row.geometry_column.as_str());
        t.append(", 3857)");
        q.append(t.as_str());
    }
    q.append(", TileBBox($1, $2, $3, 3857), 4096, 64, true) AS geom FROM ");
    q.append(row.schema.as_str());
    q.append(".");
    q.append(row.table.as_str());
    q.append(") AS q;");
    proof {
        assert(q@ =~= tileset_sql(row.schema@, row.table@, row.geometry_column@, row.srid));
    }
    q
}

/// `cat` is exactly the legacy catalog a scan of `rows` yields: its
/// keys are unique; every identifier resolves to the tileset built
/// from the last valid row published under it, and to nothing where
/// no such row exists; and every entry is accounted for by such a
/// row.
pub open spec fn tileset_scan_matches(cat: Tilesets, rows: Seq<GeomRow>) -> bool {
    &&& keys_unique(cat.entries_view())
    &&& forall|k: Seq<char>|
        #![trigger cat.spec_get(k)]
        match tileset_scan_get(rows, k) {
            Option::Some(row) => cat.spec_get(k) matches Option::Some(v)
                && tileset_entry_matches((k, v), row),
            Option::None => cat.spec_get(k) is None,
        }
    &&& forall|m: int|
        0 <= m < cat.entries_view().len() ==> tileset_scan_get(
            rows,
            (#[trigger] cat.entries_view()[m]).0,
        ) is Some
}

/// Builds the legacy catalog from the metadata rows: one tileset per
/// row with a non-zero SRID, each carrying its rendered tile query;
/// a later row under an existing identifier supersedes the earlier
/// one.
pub fn get_tilesets(rows: &Vec<GeomRow>) -> (r: Tilesets)
    ensures
        tileset_scan_matches(r, rows@),
{
    let mut r: Tilesets = Catalog::new();
    let mut i: usize = 0;
    while i < rows.len()
        invariant
            i <= rows.len(),
            forall|k: Seq<char>|
                #![trigger r.spec_get(k)]
                match tileset_scan_get(rows@.take(i as int), k) {
                    Option::Some(row) => r.spec_get(k) matches Option::Some(v)
                        && tileset_entry_matches((k, v), row),
                    Option::None => r.spec_get(k) is None,
                },
            forall|m: int|
                0 <= m < r.entries_view().len() ==> tileset_scan_get(
                    rows@.take(i as int),
                    (#[trigger] r.entries_view()[m]).0,
                ) is Some,
        decreases rows.len() - i,
    {
        let row = &rows[i];
        proof {
            let t = rows@.take(i + 1);
            assert(t.drop_last() =~= rows@.take(i as int));
            assert(t.last() == rows@[i as int]);
        }
        if row.srid != 0 {
            let id = row_id(row);
            let geometry_type = match &row.geometry_type {
                Option::Some(t) => t.clone(),
                Option::None => String::new(),
            };
            let query = tileset_query_string(row);
            let tileset = Tileset {
                schema: row.schema.clone(),
                table: row.table.clone(),
                geometry_column: row.geometry_column.clone(),
                srid: row.srid,
                extent: 4096,
                buffer: 64,
                clip_geom: true,
                geometry_type,
                query,
            };
            let ghost precat = r;
            let ghost prev = r.entries_view();
            let ghost idv = id@;
            let ghost src = tileset;
            r.insert(id, tileset);
            proof {
                let newv = r.entries_view();
                let tn = rows@.take(i + 1);
                assert(idv == id_view(rows@[i as int]));
                assert(tileset_entry_matches((idv, src), rows@[i as int]));
                lemma_remove_key_get(prev, idv);
                assert(newv.drop_last() =~= remove_key(prev, idv));
                assert forall|k: Seq<char>|
                    #![trigger r.spec_get(k)]
                    match tileset_scan_get(tn, k) {
                        Option::Some(row2) => r.spec_get(k) matches Option::Some(v)
                            && tileset_entry_matches((k, v), row2),
                        Option::None => r.spec_get(k) is None,
                    } by {
                    if k == idv {
                        assert(tileset_scan_get(tn, k) == Option::Some(rows@[i as int]));
                        assert(r.spec_get(k) == Option::Some(src));
                    } else {
                        assert(tileset_scan_get(tn, k) == tileset_scan_get(
                            rows@.take(i as int),
                            k,
                        ));
                        assert(r.spec_get(k) == seq_get(remove_key(prev, idv), k));
                        assert(seq_get(remove_key(prev, idv), k) == seq_get(prev, k));
                        assert(precat.spec_get(k) == seq_get(prev, k));
                        assert(r.spec_get(k) == precat.spec_get(k));
                    }
                }
                assert forall|m: int| 0 <= m < newv.len() implies tileset_scan_get(
                    tn,
                    (#[trigger] newv[m]).0,
                ) is Some by {
                    if m == newv.len() - 1 {
                        assert(newv[m].0 == idv);
                        assert(tileset_scan_get(tn, idv) == Option::Some(rows@[i as int]));
                    } else {
                        let e = remove_key(prev, idv)[m];
                        assert(newv[m] == e);
                        assert(prev.contains(e) && e.0 != idv);
                        let m2 = choose|m2: int| 0 <= m2 < prev.len() && prev[m2] == e;
                        assert(precat.entries_view()[m2] == e);
                        assert(tileset_scan_get(rows@.take(i as int), precat.entries_view()[
                            m2].0) is Some);
                        assert(tileset_scan_get(tn, e.0) == tileset_scan_get(
                            rows@.take(i as int),
                            e.0,
                        ));
                    }
                }
            }
        } else {
            proof {
                let tn = rows@.take(i + 1);
                assert(forall|k: Seq<char>| #[trigger] tileset_scan_get(tn, k)
                    == tileset_scan_get(rows@.take(i as int), k));
            }
        }
        i = i + 1;
    }
    proof {
        use_type_invariant(&r);
        assert(rows@.take(rows@.len() as int) =~= rows@);
        assert(forall|k: Seq<char>| #[trigger] tileset_scan_get(rows@, k) == tileset_scan_get(
            rows@.take(rows@.len() as int),
            k,
        ));
    }
    r
}

} // verus!
