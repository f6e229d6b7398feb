use crate::coordinator::Coordinator;
use crate::db::{FunctionRow, GeomRow};
use crate::errors::ServeError;
use crate::function_source::{
    function_scan_matches, function_tile_sql, get_function_sources, json_object, FunctionSources,
};
use crate::mercator::is_envelope_of;
use crate::registry::{functions_update, rc_dup, tables_update};
use crate::source::{BindValue, Query, TileQuery, XYZ};
use crate::table_source::{get_table_sources, row_bounds_ok, scan_matches, table_tile_sql, TableSources};
use crate::tilejson::{build_tiles_url, tiles_url, TileJson};
use std::rc::Rc;
use vstd::prelude::*;

verus! {

/// Configuration of the surrounding bearer-token middleware.  The
/// core's catalog and tile operations are invoked only after that
/// middleware has accepted the token; the core itself has no
/// authentication logic and treats every caller as authorized.
#[derive(Clone, Debug)]
pub struct JWTConfig {
    pub jwt_secret: String,
    pub jwt_algorithm: String,
    pub jwt_check_exp_time: bool,
}

/// The health answer.
pub fn get_health() -> (r: &'static str)
    ensures
        r@ == "OK"@,
{
    "OK"
}

/// The path the tiles URL template is built from: the override header
/// installed by a reverse proxy when present, the request path
/// otherwise.
pub open spec fn effective_path(rewrite: Option<String>, path: Seq<char>) -> Seq<char> {
    match rewrite {
        Option::Some(h) => h@,
        Option::None => path,
    }
}

/// Serves the table-source index.  With watch mode off the current
/// catalog is served as it is and nothing else happens.  With watch
/// mode on, the supplied metadata rows are the result of exactly one
/// fresh scan: the catalog built from them is broadcast through the
/// coordinator exactly once — so every registered registry, the
/// caller's included, swaps to it — and is also the answer.  A scan
/// failure leaves the coordinator untouched.
pub fn get_table_sources_index(
    coord: &mut Coordinator,
    watch_mode: bool,
    current: Option<Rc<TableSources>>,
    scan_rows: &Vec<GeomRow>,
) -> (r: Result<Option<Rc<TableSources>>, ServeError>)
    requires
        old(coord).wf(),
    ensures
        final(coord).wf(),
        !watch_mode ==> r == Ok::<Option<Rc<TableSources>>, ServeError>(current) && *final(coord)
            == *old(coord),
        watch_mode ==> match r {
            Ok(out) => {
                &&& out matches Option::Some(rc)
                &&& scan_matches(*rc, scan_rows@)
                &&& forall|i: int| 0 <= i < scan_rows@.len() ==> row_bounds_ok(
                    #[trigger] scan_rows@[i],
                )
                &&& final(coord).issued@ == old(coord).issued@.push(tables_update(rc))
                &&& final(coord).registries@.len() == old(coord).registries@.len()
                &&& forall|i: int|
                    0 <= i < final(coord).registries@.len() ==> {
                        let reg = #[trigger] final(coord).registries@[i];
                        let o = old(coord).registries@[i];
                        &&& reg.current_tables() == Option::Some(*rc)
                        &&& reg.function_sources == o.function_sources
                        &&& reg.log@ == o.log@.push(tables_update(rc))
                        &&& reg.missed == o.missed
                    }
            },
            Err(e) => e == ServeError::MalformedMetadata && *final(coord) == *old(coord)
                && exists|i: int|
                0 <= i < scan_rows@.len() && !row_bounds_ok(#[trigger] scan_rows@[i]),
        },
{
    if !watch_mode {
        return Ok(current);
    }
    match get_table_sources(scan_rows) {
        Result::Ok(cat) => {
            let rc = Rc::new(cat);
            let shared = rc_dup(&rc);
            coord.broadcast_tables(shared);
            Ok(Some(rc))
        },
        Result::Err(e) => Err(e),
    }
}

/// Serves the function-source index, the same way.
pub fn get_function_sources_index(
    coord: &mut Coordinator,
    watch_mode: bool,
    current: Option<Rc<FunctionSources>>,
    scan_rows: &Vec<FunctionRow>,
) -> (r: Option<Rc<FunctionSources>>)
    requires
        old(coord).wf(),
    ensures
        final(coord).wf(),
        !watch_mode ==> r == current && *final(coord) == *old(coord),
        watch_mode ==> {
            &&& r matches Option::Some(rc)
            &&& function_scan_matches(*rc, scan_rows@)
            &&& final(coord).issued@ == old(coord).issued@.push(functions_update(rc))
            &&& final(coord).registries@.len() == old(coord).registries@.len()
            &&& forall|i: int|
                0 <= i < final(coord).registries@.len() ==> {
                    let reg = #[trigger] final(coord).registries@[i];
                    let o = old(coord).registries@[i];
                    &&& reg.current_functions() == Option::Some(*rc)
                    &&& reg.table_sources == o.table_sources
                    &&& reg.log@ == o.log@.push(functions_update(rc))
                    &&& reg.missed == o.missed
                }
        },
{
    if !watch_mode {
        return current;
    }
    let cat = get_function_sources(scan_rows);
    let rc = Rc::new(cat);
    let shared = rc_dup(&rc);
    coord.broadcast_functions(shared);
    Some(rc)
}

/// Serves one table source's TileJSON: resolves the identifier in the
/// current catalog snapshot and rebuilds the tiles URL template from
/// the request's scheme, host, path (or the proxy override) and query
/// string.  A missing catalog and an unknown identifier are distinct
/// not-found outcomes.
pub fn get_table_source(
    tables: &Option<Rc<TableSources>>,
    source_id: &String,
    scheme: &str,
    host: &str,
    path: &str,
    query_string: &str,
    rewrite_path: &Option<String>,
) -> (r: Result<TileJson, ServeError>)
    ensures
        tables is None ==> r == Err::<TileJson, ServeError>(ServeError::CatalogUnavailable),
        (match *tables {
            Option::Some(cat) => match cat.spec_get(source_id@) {
                Option::Some(src) => r matches Ok(tj) && tj.name@ == src.id@ && tj.scheme@
                    == "xyz"@ && tj.bounds == Option::Some(src.bounds) && tj.tiles@.len() == 1
                    && tj.tiles@[0]@ == tiles_url(
                    scheme@,
                    host@,
                    effective_path(*rewrite_path, path@),
                    query_string@,
                ),
                Option::None => r matches Err(e) && (e matches ServeError::SourceNotFound(s)
                    && s@ == source_id@),
            },
            Option::None => true,
        }),
{
    let cat = match tables {
        Option::Some(cat) => cat,
        Option::None => {
            return Err(ServeError::CatalogUnavailable);
        },
    };
    let src = match cat.get(source_id) {
        Option::Some(src) => src,
        Option::None => {
            return Err(ServeError::SourceNotFound(source_id.clone()));
        },
    };
    let mut tj = src.get_tilejson();
    let url = match rewrite_path {
        Option::Some(h) => build_tiles_url(scheme, host, h.as_str(), query_string),
        Option::None => build_tiles_url(scheme, host, path, query_string),
    };
    tj.set_tiles_url(url);
    Ok(tj)
}

/// Resolves a table-source tile request to the query to run: an
/// unknown identifier is answered with `SourceNotFound` here, before
/// any database work; only an `Ok` carries a query for the executor.
pub fn get_table_source_tile(
    tables: &Option<Rc<TableSources>>,
    source_id: &String,
    xyz: &XYZ,
) -> (r: Result<TileQuery, ServeError>)
    requires
        xyz.z <= 30,
    ensures
        tables is None ==> r == Err::<TileQuery, ServeError>(ServeError::CatalogUnavailable),
        (match *tables {
            Option::Some(cat) => match cat.spec_get(source_id@) {
                Option::Some(src) => r matches Ok(q) && q.sql@ == table_tile_sql(src)
                    && q.params@.len() == 3 && q.params@[0] == BindValue::Int(xyz.z as i64)
                    && q.params@[1] == BindValue::Int(xyz.x as i64) && q.params@[2]
                    == BindValue::Int(xyz.y as i64) && is_envelope_of(q.envelope, *xyz),
                Option::None => r matches Err(e) && (e matches ServeError::SourceNotFound(s)
                    && s@ == source_id@),
            },
            Option::None => true,
        }),
{
    let cat = match tables {
        Option::Some(cat) => cat,
        Option::None => {
            return Err(ServeError::CatalogUnavailable);
        },
    };
    match cat.get(source_id) {
        Option::Some(src) => Ok(src.get_tile_query(xyz)),
        Option::None => Err(ServeError::SourceNotFound(source_id.clone())),
    }
}

/// Serves one function source's TileJSON, as `get_table_source` does
/// for tables.
pub fn get_function_source(
    functions: &Option<Rc<FunctionSources>>,
    source_id: &String,
    scheme: &str,
    host: &str,
    path: &str,
    query_string: &str,
    rewrite_path: &Option<String>,
) -> (r: Result<TileJson, ServeError>)
    ensures
        functions is None ==> r == Err::<TileJson, ServeError>(ServeError::CatalogUnavailable),
        (match *functions {
            Option::Some(cat) => match cat.spec_get(source_id@) {
                Option::Some(src) => r matches Ok(tj) && tj.name@ == src.id@ && tj.scheme@
                    == "xyz"@ && tj.bounds is None && tj.tiles@.len() == 1 && tj.tiles@[0]@
                    == tiles_url(
                    scheme@,
                    host@,
                    effective_path(*rewrite_path, path@),
                    query_string@,
                ),
                Option::None => r matches Err(e) && (e matches ServeError::SourceNotFound(s)
                    && s@ == source_id@),
            },
            Option::None => true,
        }),
{
    let cat = match functions {
        Option::Some(cat) => cat,
        Option::None => {
            return Err(ServeError::CatalogUnavailable);
        },
    };
    let src = match cat.get(source_id) {
        Option::Some(src) => src,
        Option::None => {
            return Err(ServeError::SourceNotFound(source_id.clone()));
        },
    };
    let mut tj = src.get_tilejson();
    let url = match rewrite_path {
        Option::Some(h) => build_tiles_url(scheme, host, h.as_str(), query_string),
        Option::None => build_tiles_url(scheme, host, path, query_string),
    };
    tj.set_tiles_url(url);
    Ok(tj)
}

/// Resolves a function-source tile request to the call to run, with
/// the extra query parameters passed through as a JSON bind value.
pub fn get_function_source_tile(
    functions: &Option<Rc<FunctionSources>>,
    source_id: &String,
    xyz: &XYZ,
    query: &Option<Query>,
) -> (r: Result<TileQuery, ServeError>)
    requires
        xyz.z <= 30,
    ensures
        functions is None ==> r == Err::<TileQuery, ServeError>(ServeError::CatalogUnavailable),
        (match *functions {
            Option::Some(cat) => match cat.spec_get(source_id@) {
                Option::Some(src) => r matches Ok(q) && q.sql@ == function_tile_sql(
                    src,
                    query is Some,
                ) && q.params@[0] == BindValue::Int(xyz.z as i64) && q.params@[1]
                    == BindValue::Int(xyz.x as i64) && q.params@[2] == BindValue::Int(
                    xyz.y as i64,
                ) && (match query {
                    Option::Some(pairs) => q.params@.len() == 4 && (q.params@[3] matches
                    BindValue::Text(j) && j@ == json_object(pairs@)),
                    Option::None => q.params@.len() == 3,
                }) && is_envelope_of(q.envelope, *xyz),
                Option::None => r matches Err(e) && (e matches ServeError::SourceNotFound(s)
                    && s@ == source_id@),
            },
            Option::None => true,
        }),
{
    let cat = match functions {
        Option::Some(cat) => cat,
        Option::None => {
            return Err(ServeError::CatalogUnavailable);
        },
    };
    match cat.get(source_id) {
        Option::Some(src) => Ok(src.get_tile_query(xyz, query)),
        Option::None => Err(ServeError::SourceNotFound(source_id.clone())),
    }
}

} // verus!
