use crate::catalog::{keys_unique, lemma_remove_key_get, remove_key, seq_get, Catalog};
use crate::db::{id_view, row_id, GeomRow};
use crate::decimal::Decimal;
use crate::errors::ServeError;
use crate::mercator::tile_envelope;
use crate::numfmt::{bool_str, bool_to_string, dec_str, u64_to_string};
use crate::scan::{bounds_ok, parse_bounds, spec_bounds};
use crate::source::{BindValue, TileQuery, XYZ};
use vstd::prelude::*;
use vstd::string::{StrSliceExecFns, StringExecFns};

verus! {

/// The catalog of table sources, keyed by `schema.table`.
pub type TableSources = Catalog<TableSource>;

/// Default tile extent in pixels.
pub const DEFAULT_EXTENT: u32 = 4096;

/// Default tile buffer in pixels.
pub const DEFAULT_BUFFER: u32 = 64;

/// By default geometries are clipped to the tile envelope.
pub const DEFAULT_CLIP_GEOM: bool = true;

/// A bounding box in the table's native spatial reference:
/// [min x, min y, max x, max y], each an exact decimal.
#[derive(Clone, Copy, Debug, PartialEq, Eq, Structural)]
pub struct Bounds {
    pub min_x: Decimal,
    pub min_y: Decimal,
    pub max_x: Decimal,
    pub max_y: Decimal,
}

/// One database table published as a tile source.
#[derive(Clone, Debug)]
pub struct TableSource {
    pub id: String,
    pub schema: String,
    pub table: String,
    pub id_column: Option<String>,
    pub geometry_column: String,
    pub srid: u32,
    pub extent: Option<u32>,
    pub buffer: Option<u32>,
    pub clip_geom: Option<bool>,
    pub geometry_type: Option<String>,
    pub properties: Vec<(String, String)>,
    pub bounds: Bounds,
}

/// The tile extent of `s`, with the documented default.
pub open spec fn spec_extent(s: TableSource) -> nat {
    match s.extent {
        Option::Some(e) => e as nat,
        Option::None => 4096,
    }
}

/// The tile buffer of `s`, with the documented default.
pub open spec fn spec_buffer(s: TableSource) -> nat {
    match s.buffer {
        Option::Some(b) => b as nat,
        Option::None => 64,
    }
}

/// The clip flag of `s`, with the documented default.
pub open spec fn spec_clip(s: TableSource) -> bool {
    match s.clip_geom {
        Option::Some(c) => c,
        Option::None => true,
    }
}

/// The SQL expression denoting the tile's Web-Mercator envelope; its
/// placeholders take the z, x, y bind values.
pub open spec fn mercator_env_sql() -> Seq<char> {
    "TileBBox($1, $2, $3, 3857)"@
}

/// The geometry expression of the synthesized query: the bare column
/// when the source is already in Web Mercator, otherwise the column
/// wrapped in a reprojection to Web Mercator.
pub open spec fn geom_expr(geom: Seq<char>, srid: u32) -> Seq<char> {
    if srid == 3857 {
        geom
    } else {
        "ST_Transform("@ + geom + ", 3857)"@
    }
}

/// The filter-envelope expression of the synthesized query: the bare
/// Web-Mercator envelope when the source is already in Web Mercator,
/// otherwise the envelope wrapped in a reprojection to the source's
/// native SRID, so filter and geometry share one coordinate space.
pub open spec fn env_expr(srid: u32) -> Seq<char> {
    if srid == 3857 {
        mercator_env_sql()
    } else {
        "ST_Transform("@ + mercator_env_sql() + ", "@ + dec_str(srid as nat) + ")"@
    }
}

/// The optional feature-id argument of the MVT aggregate.
pub open spec fn id_col_sql(c: Option<String>) -> Seq<char> {
    match c {
        Option::None => Seq::empty(),
        Option::Some(col) => ", '"@ + col@ + "'"@,
    }
}

/// A property column name, double-quoted.
pub open spec fn quoted_prop(name: Seq<char>) -> Seq<char> {
    "\""@ + name + "\""@
}

/// The declared property columns, double-quoted and comma-separated,
/// in declaration order.
pub open spec fn props_cols_sql(props: Seq<(String, String)>) -> Seq<char>
    decreases props.len(),
{
    if props.len() == 0 {
        Seq::empty()
    } else if props.len() == 1 {
        quoted_prop(props[0].0@)
    } else {
        props_cols_sql(props.drop_last()) + ","@ + quoted_prop(props.last().0@)
    }
}

/// The property-column clause: empty, or ", " followed by the quoted
/// column list.
pub open spec fn props_sql(props: Seq<(String, String)>) -> Seq<char> {
    if props.len() == 0 {
        Seq::empty()
    } else {
        ", "@ + props_cols_sql(props)
    }
}

/// The synthesized tile query for table source `s`, with the geometry
/// expression and the filter-envelope expression given explicitly.
/// The statement filters rows intersecting the envelope in the
/// table's native coordinate space, transforms each geometry —
/// already reprojected to Web Mercator by `ge` — to the tile extent
/// and buffer against the Web-Mercator envelope with optional
/// clipping, attaches the declared id and property columns, and
/// aggregates the rows into one MVT blob whose layer name is the
/// source id.
pub open spec fn table_tile_sql_with(s: TableSource, ge: Seq<char>, ee: Seq<char>) -> Seq<char> {
    "SELECT ST_AsMVT(tile, '"@ + s.id@ + "', "@ + dec_str(spec_extent(s)) + ", 'geom'"@
        + id_col_sql(s.id_column) + ") FROM (SELECT ST_AsMVTGeom("@ + ge + ", "@
        + mercator_env_sql() + ", "@ + dec_str(spec_extent(s)) + ", "@ + dec_str(spec_buffer(s))
        + ", "@ + bool_str(spec_clip(s)) + ") AS geom"@ + props_sql(s.properties@) + " FROM "@
        + s.schema@ + "."@ + s.table@ + " WHERE "@ + s.geometry_column@ + " && "@ + ee
        + ") AS tile WHERE geom IS NOT NULL"@
}

/// The synthesized tile query for table source `s`.
pub open spec fn table_tile_sql(s: TableSource) -> Seq<char> {
    table_tile_sql_with(s, geom_expr(s.geometry_column@, s.srid), env_expr(s.srid))
}

/// Law: a source whose native SRID is Web Mercator gets no
/// reprojection wrapper — its query carries the bare geometry column
/// and the bare tile envelope; any other SRID has both the geometry
/// and the filter envelope wrapped in a reprojection between Web
/// Mercator and that SRID.
pub proof fn lemma_reprojection_wrapping(s: TableSource)
    ensures
        s.srid == 3857 ==> table_tile_sql(s) == table_tile_sql_with(
            s,
            s.geometry_column@,
            mercator_env_sql(),
        ),
        s.srid != 3857 ==> table_tile_sql(s) == table_tile_sql_with(
            s,
            "ST_Transform("@ + s.geometry_column@ + ", 3857)"@,
            "ST_Transform("@ + mercator_env_sql() + ", "@ + dec_str(s.srid as nat) + ")"@,
        ),
{
}

/// `needle` occurs in `hay` starting at position `at`.
pub open spec fn occurs_at(hay: Seq<char>, needle: Seq<char>, at: int) -> bool {
    &&& 0 <= at
    &&& at + needle.len() <= hay.len()
    &&& hay.subrange(at, at + needle.len()) == needle
}

proof fn lemma_occurs_append_self(a: Seq<char>, b: Seq<char>)
    ensures
        occurs_at(a + b, b, a.len() as int),
{
    assert((a + b).subrange(a.len() as int, a.len() as int + b.len() as int) =~= b);
}

proof fn lemma_occurs_extend(a: Seq<char>, b: Seq<char>, n1: Seq<char>, at1: int, n2: Seq<char>, at2: int)
    requires
        occurs_at(a, n1, at1),
        occurs_at(a, n2, at2),
    ensures
        occurs_at(a + b, n1, at1),
        occurs_at(a + b, n2, at2),
{
    assert((a + b).subrange(at1, at1 + n1.len()) =~= a.subrange(at1, at1 + n1.len()));
    assert((a + b).subrange(at2, at2 + n2.len()) =~= a.subrange(at2, at2 + n2.len()));
}

/// Law (occurrence form of the reprojection rule): the synthesized
/// query text contains the geometry expression and the
/// filter-envelope expression of its source as literal fragments —
/// so for SRID 3857 the bare column and the bare envelope stand in
/// the text, and for any other SRID the two reprojection-wrapped
/// forms do (see `lemma_reprojection_wrapping` for their shapes).
pub proof fn lemma_tile_sql_carries_expressions(s: TableSource)
    ensures
        exists|i: int| occurs_at(table_tile_sql(s), geom_expr(s.geometry_column@, s.srid), i),
        exists|i: int| occurs_at(table_tile_sql(s), env_expr(s.srid), i),
{
    let ge = geom_expr(s.geometry_column@, s.srid);
    let ee = env_expr(s.srid);
    let p1 = "SELECT ST_AsMVT(tile, '"@ + s.id@ + "', "@ + dec_str(spec_extent(s)) + ", 'geom'"@
        + id_col_sql(s.id_column) + ") FROM (SELECT ST_AsMVTGeom("@;
    let at_ge = p1.len() as int;
    let q1 = p1 + ge;
    lemma_occurs_append_self(p1, ge);
    let q2 = q1 + ", "@;
    lemma_occurs_extend(q1, ", "@, ge, at_ge, ge, at_ge);
    let q3 = q2 + mercator_env_sql();
    lemma_occurs_extend(q2, mercator_env_sql(), ge, at_ge, ge, at_ge);
    let q4 = q3 + ", "@;
    lemma_occurs_extend(q3, ", "@, ge, at_ge, ge, at_ge);
    let q5 = q4 + dec_str(spec_extent(s));
    lemma_occurs_extend(q4, dec_str(spec_extent(s)), ge, at_ge, ge, at_ge);
    let q6 = q5 + ", "@;
    lemma_occurs_extend(q5, ", "@, ge, at_ge, ge, at_ge);
    let q7 = q6 + dec_str(spec_buffer(s));
    lemma_occurs_extend(q6, dec_str(spec_buffer(s)), ge, at_ge, ge, at_ge);
    let q8 = q7 + ", "@;
    lemma_occurs_extend(q7, ", "@, ge, at_ge, ge, at_ge);
    let q9 = q8 + bool_str(spec_clip(s));
    lemma_occurs_extend(q8, bool_str(spec_clip(s)), ge, at_ge, ge, at_ge);
    let q10 = q9 + ") AS geom"@;
    lemma_occurs_extend(q9, ") AS geom"@, ge, at_ge, ge, at_ge);
    let q11 = q10 + props_sql(s.properties@);
    lemma_occurs_extend(q10, props_sql(s.properties@), ge, at_ge, ge, at_ge);
    let q12 = q11 + " FROM "@;
    lemma_occurs_extend(q11, " FROM "@, ge, at_ge, ge, at_ge);
    let q13 = q12 + s.schema@;
    lemma_occurs_extend(q12, s.schema@, ge, at_ge, ge, at_ge);
    let q14 = q13 + "."@;
    lemma_occurs_extend(q13, "."@, ge, at_ge, ge, at_ge);
    let q15 = q14 + s.table@;
    lemma_occurs_extend(q14, s.table@, ge, at_ge, ge, at_ge);
    let q16 = q15 + " WHERE "@;
    lemma_occurs_extend(q15, " WHERE "@, ge, at_ge, ge, at_ge);
    let q17 = q16 + s.geometry_column@;
    lemma_occurs_extend(q16, s.geometry_column@, ge, at_ge, ge, at_ge);
    let q18 = q17 + " && "@;
    lemma_occurs_extend(q17, " && "@, ge, at_ge, ge, at_ge);
    let at_ee = q18.len() as int;
    let q19 = q18 + ee;
    lemma_occurs_append_self(q18, ee);
    lemma_occurs_extend(q18, ee, ge, at_ge, ge, at_ge);
    let q20 = q19 + ") AS tile WHERE geom IS NOT NULL"@;
    lemma_occurs_extend(q19, ") AS tile WHERE geom IS NOT NULL"@, ge, at_ge, ee, at_ee);
    assert(table_tile_sql(s) == q20);
    assert(occurs_at(table_tile_sql(s), ge, at_ge));
    assert(occurs_at(table_tile_sql(s), ee, at_ee));
}

fn geom_expr_string(geom: &String, srid: u32) -> (r: String)
    ensures
        r@ == geom_expr(geom@, srid),
{
    if srid == 3857 {
        geom.clone()
    } else {
        let mut r = String::from_str("ST_Transform(");
        r.append(geom.as_str());
        r.append(", 3857)");
        r
    }
}

fn env_expr_string(srid: u32) -> (r: String)
    ensures
        r@ == env_expr(srid),
{
    if srid == 3857 {
        String::from_str("TileBBox($1, $2, $3, 3857)")
    } else {
        let mut r = String::from_str("ST_Transform(");
        r.append("TileBBox($1, $2, $3, 3857)");
        r.append(", ");
        let srid_s = u64_to_string(srid as u64);
        r.append(srid_s.as_str());
        r.append(")");
        r
    }
}

fn id_col_string(c: &Option<String>) -> (r: String)
    ensures
        r@ == id_col_sql(*c),
{
    match c {
        Option::None => String::new(),
        Option::Some(col) => {
            let mut r = String::from_str(", '");
            r.append(col.as_str());
            r.append("'");
            r
        },
    }
}

fn props_cols_string(props: &Vec<(String, String)>) -> (r: String)
    ensures
        r@ == props_cols_sql(props@),
{
    let mut r = String::new();
    let mut i: usize = 0;
    while i < props.len()
        invariant
            i <= props.len(),
            r@ == props_cols_sql(props@.take(i as int)),
        decreases props.len() - i,
    {
        if i > 0 {
            r.append(",");
        }
        r.append("\"");
        r.append(props[i].0.as_str());
        r.append("\"");
        proof {
            let t = props@.take(i + 1);
            assert(t.drop_last() =~= props@.take(i as int));
            assert(t.last() == props@[i as int]);
            assert(r@ =~= props_cols_sql(t));
        }
        i = i + 1;
    }
    proof {
        assert(props@.take(props@.len() as int) =~= props@);
    }
    r
}

fn props_part_string(props: &Vec<(String, String)>) -> (r: String)
    ensures
        r@ == props_sql(props@),
{
    if props.len() == 0 {
        String::new()
    } else {
        let mut r = String::from_str(", ");
        let cols = props_cols_string(props);
        r.append(cols.as_str());
        r
    }
}

impl TableSource {
    /// The identifier under which this source is published.
    pub fn get_id(&self) -> (r: &str)
        ensures
            r@ == self.id@,
    {
        self.id.as_str()
    }

    /// Synthesizes the tile query for tile `xyz`: SQL text following
    /// `table_tile_sql`, the z, x, y bind values in order, and the
    /// exact Web-Mercator envelope those values denote.  Pure: no
    /// database access.
    pub fn get_tile_query(&self, xyz: &XYZ) -> (q: TileQuery)
        requires
            xyz.z <= 30,
        ensures
            q.sql@ == table_tile_sql(*self),
            q.params@.len() == 3,
            q.params@[0] == BindValue::Int(xyz.z as i64),
            q.params@[1] == BindValue::Int(xyz.x as i64),
            q.params@[2] == BindValue::Int(xyz.y as i64),
            crate::mercator::is_envelope_of(q.envelope, *xyz),
    {
        let extent: u32 = match self.extent {
            Option::Some(e) => e,
            Option::None => DEFAULT_EXTENT,
        };
        let buffer: u32 = match self.buffer {
            Option::Some(b) => b,
            Option::None => DEFAULT_BUFFER,
        };
        let clip: bool = match self.clip_geom {
            Option::Some(c) => c,
            Option::None => DEFAULT_CLIP_GEOM,
        };
        let extent_s = u64_to_string(extent as u64);
        let buffer_s = u64_to_string(buffer as u64);
        let clip_s = bool_to_string(clip);
        let geom_s = geom_expr_string(&self.geometry_column, self.srid);
        let env_s = env_expr_string(self.srid);
        let idc_s = id_col_string(&self.id_column);
        let props_s = props_part_string(&self.properties);

        let mut sql = String::from_str("SELECT ST_AsMVT(tile, '");
        sql.append(self.id.as_str());
        sql.append("', ");
        sql.append(extent_s.as_str());
        sql.append(", 'geom'");
        sql.append(idc_s.as_str());
        sql.append(") FROM (SELECT ST_AsMVTGeom(");
        sql.append(geom_s.as_str());
        sql.append(", ");
        sql.append("TileBBox($1, $2, $3, 3857)");
        sql.append(", ");
        sql.append(extent_s.as_str());
        sql.append(", ");
        sql.append(buffer_s.as_str());
        sql.append(", ");
        sql.append(clip_s.as_str());
        sql.append(") AS geom");
        sql.append(props_s.as_str());
        sql.append(" FROM ");
        sql.append(self.schema.as_str());
        sql.append(".");
        sql.append(self.table.as_str());
        sql.append(" WHERE ");
        sql.append(self.geometry_column.as_str());
        sql.append(" && ");
        sql.append(env_s.as_str());
        sql.append(") AS tile WHERE geom IS NOT NULL");

        let mut params: Vec<BindValue> = Vec::new();
        params.push(BindValue::Int(xyz.z as i64));
        params.push(BindValue::Int(xyz.x as i64));
        params.push(BindValue::Int(xyz.y as i64));
        let envelope = tile_envelope(xyz);
        TileQuery { sql, params, envelope }
    }
}

/// A metadata row's bounds answer is present and parses into exactly
/// four decimals.
pub open spec fn row_bounds_ok(row: GeomRow) -> bool {
    match row.bounds_text {
        Option::Some(t) => bounds_ok(t@),
        Option::None => false,
    }
}

/// The metadata row that defines catalog key `key`: the last row
/// with a valid (positive) SRID published under it.  SRID 0 is the
/// invalid marker and such tables are excluded entirely;
/// non-positive values are excluded with them so the stored SRID is
/// always meaningful.
pub open spec fn table_scan_get(rows: Seq<GeomRow>, key: Seq<char>) -> Option<GeomRow>
    decreases rows.len(),
{
    if rows.len() == 0 {
        Option::None
    } else if rows.last().srid > 0 && id_view(rows.last()) == key {
        Option::Some(rows.last())
    } else {
        table_scan_get(rows.drop_last(), key)
    }
}

/// Law: no catalog key ever resolves to a row with an invalid SRID —
/// in particular an SRID of 0 never reaches the catalog; exclusion
/// is not a scan failure (failure is decided by the bounds answers
/// alone, see `get_table_sources`).
pub proof fn lemma_invalid_srid_excluded(rows: Seq<GeomRow>, key: Seq<char>)
    ensures
        table_scan_get(rows, key) matches Option::Some(row) ==> row.srid > 0,
    decreases rows.len(),
{
    if rows.len() > 0 {
        lemma_invalid_srid_excluded(rows.drop_last(), key);
    }
}

/// The property mapping a metadata row's property list denotes:
/// keys unique, a later pair under an existing name superseding the
/// earlier one.
pub open spec fn dedup_props(pairs: Seq<(String, String)>) -> Seq<(Seq<char>, String)>
    decreases pairs.len(),
{
    if pairs.len() == 0 {
        Seq::empty()
    } else {
        remove_key(dedup_props(pairs.drop_last()), pairs.last().0@).push(
            (pairs.last().0@, pairs.last().1),
        )
    }
}

/// `e` is the catalog entry built from metadata row `row`.
pub open spec fn table_entry_matches(e: (Seq<char>, TableSource), row: GeomRow) -> bool {
    &&& e.0 == id_view(row)
    &&& e.1.id@ == id_view(row)
    &&& e.1.schema@ == row.schema@
    &&& e.1.table@ == row.table@
    &&& e.1.id_column is None
    &&& e.1.geometry_column@ == row.geometry_column@
    &&& e.1.srid == row.srid as u32
    &&& e.1.extent == Option::Some(4096u32)
    &&& e.1.buffer == Option::Some(64u32)
    &&& e.1.clip_geom == Option::Some(true)
    &&& (match (e.1.geometry_type, row.geometry_type) {
        (Option::Some(a), Option::Some(b)) => a@ == b@,
        (Option::None, Option::None) => true,
        _ => false,
    })
    &&& e.1.properties@.map_values(|p: (String, String)| (p.0@, p.1)) == dedup_props(
        row.properties@,
    )
    &&& keys_unique(e.1.properties@.map_values(|p: (String, String)| (p.0@, p.1)))
    &&& (row.bounds_text matches Option::Some(t) && e.1.bounds == spec_bounds(t@))
}

fn dedup_pairs(v: &Vec<(String, String)>) -> (r: Vec<(String, String)>)
    ensures
        r@.map_values(|p: (String, String)| (p.0@, p.1)) == dedup_props(v@),
        keys_unique(r@.map_values(|p: (String, String)| (p.0@, p.1))),
{
    let mut pc: Catalog<String> = Catalog::new();
    let mut i: usize = 0;
    while i < v.len()
        invariant
            i <= v.len(),
            pc.entries_view() == dedup_props(v@.take(i as int)),
        decreases v.len() - i,
    {
        pc.insert(v[i].0.clone(), v[i].1.clone());
        proof {
            let t = v@.take(i + 1);
            assert(t.drop_last() =~= v@.take(i as int));
            assert(t.last() == v@[i as int]);
        }
        i = i + 1;
    }
    proof {
        assert(v@.take(v@.len() as int) =~= v@);
    }
    pc.into_entries()
}

/// `cat` is exactly the catalog a successful scan of `rows` yields:
/// its keys are unique; every identifier resolves to the source
/// built from the last valid row published under it, and to nothing
/// where no such row exists; and every entry is accounted for by
/// such a row.
pub open spec fn scan_matches(cat: TableSources, rows: Seq<GeomRow>) -> bool {
    &&& keys_unique(cat.entries_view())
    &&& forall|k: Seq<char>|
        #![trigger cat.spec_get(k)]
        match table_scan_get(rows, k) {
            Option::Some(row) => cat.spec_get(k) matches Option::Some(v)
                && table_entry_matches((k, v), row),
            Option::None => cat.spec_get(k) is None,
        }
    &&& forall|m: int|
        0 <= m < cat.entries_view().len() ==> table_scan_get(
            rows,
            (#[trigger] cat.entries_view()[m]).0,
        ) is Some
}

/// Builds the table-source catalog from the metadata rows and their
/// per-table bounds answers.  Rows with an invalid SRID are excluded
/// without failing the scan; a row whose bounds answer is absent or
/// cannot be parsed into exactly four decimals fails the entire scan
/// — no partial catalog is ever produced.  Each kept row becomes a
/// source with the documented defaults (extent 4096, buffer 64,
/// clipping on) and no explicit id column; a later row under an
/// existing identifier supersedes the earlier one, so the catalog
/// keys stay unique.
pub fn get_table_sources(rows: &Vec<GeomRow>) -> (r: Result<TableSources, ServeError>)
    ensures
        (r matches Ok(cat) ==> {
            &&& forall|i: int| 0 <= i < rows@.len() ==> row_bounds_ok(#[trigger] rows@[i])
            &&& scan_matches(cat, rows@)
        }),
        (r matches Err(e) ==> e == ServeError::MalformedMetadata && exists|i: int|
            0 <= i < rows@.len() && !row_bounds_ok(#[trigger] rows@[i])),
{
    let mut cat: TableSources = Catalog::new();
    let mut i: usize = 0;
    while i < rows.len()
        invariant
            i <= rows.len(),
            forall|k: int| 0 <= k < i ==> row_bounds_ok(#[trigger] rows@[k]),
            forall|k: Seq<char>|
                #![trigger cat.spec_get(k)]
                match table_scan_get(rows@.take(i as int), k) {
                    Option::Some(row) => cat.spec_get(k) matches Option::Some(v)
                        && table_entry_matches((k, v), row),
                    Option::None => cat.spec_get(k) is None,
                },
            forall|m: int|
                0 <= m < cat.entries_view().len() ==> table_scan_get(
                    rows@.take(i as int),
                    (#[trigger] cat.entries_view()[m]).0,
                ) is Some,
        decreases rows.len() - i,
    {
        let row = &rows[i];
        let bt = match &row.bounds_text {
            Option::Some(t) => t,
            Option::None => {
                proof {
                    assert(!row_bounds_ok(rows@[i as int]));
                }
                return Err(ServeError::MalformedMetadata);
            },
        };
        let b = match parse_bounds(bt.as_str()) {
            Option::Some(b) => b,
            Option::None => {
                proof {
                    assert(!row_bounds_ok(rows@[i as int]));
                }
                return Err(ServeError::MalformedMetadata);
            },
        };
        proof {
            let t = rows@.take(i + 1);
            assert(t.drop_last() =~= rows@.take(i as int));
            assert(t.last() == rows@[i as int]);
        }
        if row.srid > 0 {
            let id = row_id(row);
            let geometry_type = match &row.geometry_type {
                Option::Some(t) => Option::Some(t.clone()),
                Option::None => Option::None,
            };
            let source = TableSource {
                id: id.clone(),
                schema: row.schema.clone(),
                table: row.table.clone(),
                id_column: Option::None,
                geometry_column: row.geometry_column.clone(),
                srid: row.srid as u32,
                extent: Option::Some(DEFAULT_EXTENT),
                buffer: Option::Some(DEFAULT_BUFFER),
                clip_geom: Option::Some(DEFAULT_CLIP_GEOM),
                geometry_type,
                properties: dedup_pairs(&row.properties),
                bounds: b,
            };
            let ghost precat = cat;
            let ghost prev = cat.entries_view();
            let ghost idv = id@;
            let ghost src = source;
            cat.insert(id, source);
            proof {
                let newv = cat.entries_view();
                let tn = rows@.take(i + 1);
                assert(idv == id_view(rows@[i as int]));
                assert(table_entry_matches((idv, src), rows@[i as int]));
                lemma_remove_key_get(prev, idv);
                assert(newv.drop_last() =~= remove_key(prev, idv));
                assert forall|k: Seq<char>|
                    #![trigger cat.spec_get(k)]
                    match table_scan_get(tn, k) {
                        Option::Some(row2) => cat.spec_get(k) matches Option::Some(v)
                            && table_entry_matches((k, v), row2),
                        Option::None => cat.spec_get(k) is None,
                    } by {
                    if k == idv {
                        assert(table_scan_get(tn, k) == Option::Some(rows@[i as int]));
                        assert(cat.spec_get(k) == Option::Some(src));
                    } else {
                        assert(table_scan_get(tn, k) == table_scan_get(
                            rows@.take(i as int),
                            k,
                        ));
                        assert(cat.spec_get(k) == seq_get(remove_key(prev, idv), k));
                        assert(seq_get(remove_key(prev, idv), k) == seq_get(prev, k));
                        assert(precat.spec_get(k) == seq_get(prev, k));
                        assert(cat.spec_get(k) == precat.spec_get(k));
                    }
                }
                assert forall|m: int| 0 <= m < newv.len() implies table_scan_get(
                    tn,
                    (#[trigger] newv[m]).0,
                ) is Some by {
                    if m == newv.len() - 1 {
                        assert(newv[m].0 == idv);
                        assert(table_scan_get(tn, idv) == Option::Some(rows@[i as int]));
                    } else {
                        let e = remove_key(prev, idv)[m];
                        assert(newv[m] == e);
                        assert(prev.contains(e) && e.0 != idv);
                        let m2 = choose|m2: int| 0 <= m2 < prev.len() && prev[m2] == e;
                        assert(precat.entries_view()[m2] == e);
                        assert(table_scan_get(rows@.take(i as int), precat.entries_view()[
                            m2].0) is Some);
                        assert(table_scan_get(tn, e.0) == table_scan_get(
                            rows@.take(i as int),
                            e.0,
                        ));
                    }
                }
            }
        } else {
            proof {
                let tn = rows@.take(i + 1);
                assert(forall|k: Seq<char>| #[trigger] table_scan_get(tn, k) == table_scan_get(
                    rows@.take(i as int),
                    k,
                ));
            }
        }
        i = i + 1;
    }
    proof {
        use_type_invariant(&cat);
        assert(rows@.take(rows@.len() as int) =~= rows@);
        assert(forall|k: Seq<char>| #[trigger] table_scan_get(rows@, k) == table_scan_get(
            rows@.take(rows@.len() as int),
            k,
        ));
    }
    Ok(cat)
}

} // verus!
