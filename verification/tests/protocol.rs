use std::rc::Rc;

use tileserve::coordinator::Coordinator;
use tileserve::db::GeomRow;
use tileserve::errors::ServeError;
use tileserve::executor::DbExecutorPool;
use tileserve::pool::setup_connection_pool;
use tileserve::registry::WorkerRegistry;
use tileserve::server::{
    get_function_source, get_function_sources_index, get_health, get_table_source,
    get_table_source_tile, get_table_sources_index,
};
use tileserve::source::XYZ;
use tileserve::table_source::{get_table_sources, TableSources};

fn row(table: &str, srid: i32) -> GeomRow {
    GeomRow {
        schema: "public".to_string(),
        table: table.to_string(),
        geometry_column: "geom".to_string(),
        srid,
        geometry_type: None,
        properties: Vec::new(),
        bounds_text: Some("BOX(-10 -10,10 10)".to_string()),
    }
}

fn catalog_of(tables: &[&str]) -> TableSources {
    let rows: Vec<GeomRow> = tables.iter().map(|t| row(t, 3857)).collect();
    get_table_sources(&rows).expect("scan succeeds")
}

#[test]
fn health_answer() {
    assert_eq!(get_health(), "OK");
}

#[test]
fn reader_sees_whole_old_or_whole_new_catalog() {
    let old_cat = catalog_of(&["roads", "rivers"]);
    let new_cat = catalog_of(&["buildings"]);
    let mut reg = WorkerRegistry::new(Some(Rc::new(old_cat)), None);

    // a reader resolves its snapshot before the swap
    let snapshot = reg.snapshot_tables().expect("seeded");

    reg.replace_tables(Rc::new(new_cat));

    // the in-flight reader still sees the full old catalog
    assert!(snapshot.get(&"public.roads".to_string()).is_some());
    assert!(snapshot.get(&"public.rivers".to_string()).is_some());
    assert!(snapshot.get(&"public.buildings".to_string()).is_none());

    // a reader arriving after the swap sees the full new catalog
    let current = reg.snapshot_tables().expect("still seeded");
    assert!(current.get(&"public.buildings".to_string()).is_some());
    assert!(current.get(&"public.roads".to_string()).is_none());
    assert!(current.get(&"public.rivers".to_string()).is_none());
}

#[test]
fn broadcast_reaches_every_registered_registry_in_order() {
    let mut coord = Coordinator::new();
    coord.connect(WorkerRegistry::new(None, None));
    coord.connect(WorkerRegistry::new(None, None));

    let cat1 = Rc::new(catalog_of(&["roads"]));
    let cat2 = Rc::new(catalog_of(&["rivers"]));

    coord.broadcast_tables(cat1);
    for reg in coord.registries.iter() {
        let snap = reg.snapshot_tables().expect("delivered");
        assert!(snap.get(&"public.roads".to_string()).is_some());
    }

    coord.broadcast_tables(cat2);
    for reg in coord.registries.iter() {
        let snap = reg.snapshot_tables().expect("delivered");
        // the later broadcast supersedes the earlier one everywhere
        assert!(snap.get(&"public.rivers".to_string()).is_some());
        assert!(snap.get(&"public.roads".to_string()).is_none());
    }
}

#[test]
fn unregistered_registry_receives_nothing() {
    let mut coord = Coordinator::new();
    coord.connect(WorkerRegistry::new(None, None));
    let lone = WorkerRegistry::new(Some(Rc::new(catalog_of(&["roads"]))), None);

    coord.broadcast_tables(Rc::new(catalog_of(&["rivers"])));

    // the lone registry never connected: it keeps its last-known catalog
    let snap = lone.snapshot_tables().expect("untouched");
    assert!(snap.get(&"public.roads".to_string()).is_some());
    assert!(snap.get(&"public.rivers".to_string()).is_none());
}

#[test]
fn index_request_without_watch_serves_current_catalog() {
    let mut coord = Coordinator::new();
    coord.connect(WorkerRegistry::new(None, None));
    let current = Some(Rc::new(catalog_of(&["roads"])));
    let scan_rows = vec![row("rivers", 3857)];

    let served = get_table_sources_index(&mut coord, false, current, &scan_rows)
        .expect("static mode never fails");
    let served = served.expect("was seeded");
    assert!(served.get(&"public.roads".to_string()).is_some());
    // no broadcast happened: the registry still has no catalog
    assert!(coord.registries[0].snapshot_tables().is_none());
}

#[test]
fn index_request_in_watch_mode_scans_and_broadcasts_once() {
    let mut coord = Coordinator::new();
    coord.connect(WorkerRegistry::new(Some(Rc::new(catalog_of(&["roads"]))), None));
    coord.connect(WorkerRegistry::new(None, None));

    // a tile request in flight resolved its snapshot before the index request
    let in_flight = coord.registries[0].snapshot_tables().expect("seeded");

    let scan_rows = vec![row("rivers", 3857)];
    let served = get_table_sources_index(&mut coord, true, None, &scan_rows)
        .expect("scan succeeds")
        .expect("watch mode always answers with the fresh catalog");

    // the answer is the freshly scanned catalog
    assert!(served.get(&"public.rivers".to_string()).is_some());
    // every registered registry swapped to it, the trigger's included
    for reg in coord.registries.iter() {
        let snap = reg.snapshot_tables().expect("delivered");
        assert!(snap.get(&"public.rivers".to_string()).is_some());
    }
    // the in-flight request completes against the old snapshot
    assert!(in_flight.get(&"public.roads".to_string()).is_some());
    assert!(in_flight.get(&"public.rivers".to_string()).is_none());
}

#[test]
fn index_request_in_watch_mode_fails_whole_on_bad_scan() {
    let mut coord = Coordinator::new();
    coord.connect(WorkerRegistry::new(None, None));
    let bad = GeomRow {
        bounds_text: Some("BOX(broken)".to_string()),
        ..row("rivers", 3857)
    };
    let r = get_table_sources_index(&mut coord, true, None, &vec![bad]);
    assert_eq!(r.unwrap_err(), ServeError::MalformedMetadata);
    // nothing was broadcast
    assert!(coord.registries[0].snapshot_tables().is_none());
}

#[test]
fn function_index_in_watch_mode_broadcasts() {
    let mut coord = Coordinator::new();
    coord.connect(WorkerRegistry::new(None, None));
    let rows = vec![tileserve::db::FunctionRow {
        schema: "public".to_string(),
        function: "tiles".to_string(),
    }];
    let served =
        get_function_sources_index(&mut coord, true, None, &rows).expect("always answers");
    assert!(served.get(&"public.tiles".to_string()).is_some());
    let snap = coord.registries[0].snapshot_functions().expect("delivered");
    assert!(snap.get(&"public.tiles".to_string()).is_some());
}

#[test]
fn tile_request_resolves_before_any_database_work() {
    let tables = Some(Rc::new(catalog_of(&["roads"])));
    let xyz = XYZ { z: 0, x: 0, y: 0 };

    // unknown identifier: a not-found outcome, and no query to run
    let miss = get_table_source_tile(&tables, &"public.nowhere".to_string(), &xyz);
    assert_eq!(
        miss.unwrap_err(),
        ServeError::SourceNotFound("public.nowhere".to_string())
    );

    // known identifier: the query for the executor
    let hit = get_table_source_tile(&tables, &"public.roads".to_string(), &xyz).expect("found");
    assert!(hit.sql.contains("public.roads"));

    // no catalog yet: the distinct unavailable outcome
    let none = get_table_source_tile(&None, &"public.roads".to_string(), &xyz);
    assert_eq!(none.unwrap_err(), ServeError::CatalogUnavailable);
}

#[test]
fn table_source_tilejson_with_rewrite_and_query() {
    let tables = Some(Rc::new(catalog_of(&["roads"])));
    let tj = get_table_source(
        &tables,
        &"public.roads".to_string(),
        "https",
        "example.com",
        "/public.roads.json",
        "size=512",
        &None,
    )
    .expect("found");
    assert_eq!(tj.name, "public.roads");
    assert_eq!(tj.scheme, "xyz");
    assert_eq!(
        tj.tiles,
        vec!["https://example.com/public.roads/{z}/{x}/{y}.pbf?size=512".to_string()]
    );

    // a reverse proxy's override replaces the path used for the template
    let tj = get_table_source(
        &tables,
        &"public.roads".to_string(),
        "https",
        "example.com",
        "/public.roads.json",
        "",
        &Some("/tiles/public.roads.json".to_string()),
    )
    .expect("found");
    assert_eq!(
        tj.tiles,
        vec!["https://example.com/tiles/public.roads/{z}/{x}/{y}.pbf".to_string()]
    );
}

#[test]
fn function_source_tilejson_resolution() {
    let mut coord = Coordinator::new();
    coord.connect(WorkerRegistry::new(None, None));
    let rows = vec![tileserve::db::FunctionRow {
        schema: "public".to_string(),
        function: "tiles".to_string(),
    }];
    let functions = get_function_sources_index(&mut coord, true, None, &rows);

    let tj = get_function_source(
        &functions,
        &"public.tiles".to_string(),
        "http",
        "localhost",
        "/rpc/public.tiles.json",
        "",
        &None,
    )
    .expect("found");
    assert_eq!(tj.name, "public.tiles");
    assert!(tj.bounds.is_none());

    let miss = get_function_source(
        &functions,
        &"public.absent".to_string(),
        "http",
        "localhost",
        "/rpc/public.absent.json",
        "",
        &None,
    );
    assert_eq!(
        miss.unwrap_err(),
        ServeError::SourceNotFound("public.absent".to_string())
    );
}

#[test]
fn connection_pool_checkout_and_exhaustion() {
    let mut pool = setup_connection_pool(2);
    let c1 = pool.acquire().expect("free");
    let c2 = pool.acquire().expect("free");
    assert_ne!(c1.id, c2.id);
    assert!(!c1.broken && !c2.broken);
    assert_eq!(pool.acquire().unwrap_err(), ServeError::PoolExhausted);
    pool.release(c2);
    let c3 = pool.acquire().expect("released one");
    assert!(!c3.broken);
}

#[test]
fn executors_dispatch_among_idle_workers_only() {
    let mut pool = DbExecutorPool::new(2);
    let a = pool.dispatch().expect("idle worker");
    let b = pool.dispatch().expect("idle worker");
    assert_ne!(a, b);
    assert_eq!(pool.dispatch(), None);
    // completion with a connection failure: repaired on next accept
    pool.complete(a, true);
    assert!(pool.executors[a].conn.broken);
    let c = pool.dispatch().expect("idle again");
    assert_eq!(c, a);
    assert!(!pool.executors[c].conn.broken);
}

#[test]
fn end_to_end_roads_tile_query() {
    // a scanned table source public.roads with SRID 4326 and bounds
    // [-10,-10,10,10], asked for tile (z=1, x=0, y=0)
    let rows = vec![row("roads", 4326)];
    let cat = get_table_sources(&rows).expect("scan succeeds");
    let tables = Some(Rc::new(cat));
    let q = get_table_source_tile(&tables, &"public.roads".to_string(), &XYZ {
        z: 1,
        x: 0,
        y: 0,
    })
    .expect("found");

    // the envelope bound to the placeholders is the mercator NW quadrant
    assert_eq!(q.envelope.shift, 1);
    assert_eq!(q.envelope.west, -4007501668); // -20037508.34 m over 2^1, in cm
    assert_eq!(q.envelope.east, 0);
    assert_eq!(q.envelope.north, 4007501668);
    assert_eq!(q.envelope.south, 0);

    // geometry and filter are wrapped in reprojections through 4326
    assert!(q.sql.contains("ST_Transform(geom, 3857)"));
    assert!(q.sql.contains("ST_Transform(TileBBox($1, $2, $3, 3857), 4326)"));

    // the source carries the parsed bounds
    let src = tables
        .as_ref()
        .unwrap()
        .get(&"public.roads".to_string())
        .expect("present");
    assert!(src.bounds.min_x.neg && src.bounds.min_x.mantissa == 10);
    assert!(!src.bounds.max_y.neg && src.bounds.max_y.mantissa == 10);
}
