use tileserve::composite_source::{merge_tiles, CompositeSource};
use tileserve::function_source::{query_to_json, FunctionSource};
use tileserve::mercator::{pow2_u64, tile_envelope};
use tileserve::numfmt::{bool_to_string, u64_to_string};
use tileserve::source::{BindValue, Source, XYZ};
use tileserve::table_source::{Bounds, TableSource};
use tileserve::decimal::Decimal;
use tileserve::tilejson::{build_tiles_url, trim_json_suffix};

fn roads(srid: u32) -> TableSource {
    TableSource {
        id: "public.roads".to_string(),
        schema: "public".to_string(),
        table: "roads".to_string(),
        id_column: None,
        geometry_column: "geom".to_string(),
        srid,
        extent: Some(4096),
        buffer: Some(64),
        clip_geom: Some(true),
        geometry_type: None,
        properties: Vec::new(),
        bounds: Bounds {
            min_x: Decimal::new(true, 10, 0),
            min_y: Decimal::new(true, 10, 0),
            max_x: Decimal::new(false, 10, 0),
            max_y: Decimal::new(false, 10, 0),
        },
    }
}

#[test]
fn u64_rendering() {
    assert_eq!(u64_to_string(0), "0");
    assert_eq!(u64_to_string(7), "7");
    assert_eq!(u64_to_string(4096), "4096");
    assert_eq!(u64_to_string(18446744073709551615), "18446744073709551615");
    assert_eq!(bool_to_string(true), "true");
    assert_eq!(bool_to_string(false), "false");
}

#[test]
fn pow2_values() {
    assert_eq!(pow2_u64(0), 1);
    assert_eq!(pow2_u64(1), 2);
    assert_eq!(pow2_u64(30), 1073741824);
}

#[test]
fn envelope_zoom0_covers_world() {
    let e = tile_envelope(&XYZ { z: 0, x: 0, y: 0 });
    assert_eq!(e.shift, 0);
    assert_eq!(e.west, -2003750834);
    assert_eq!(e.south, -2003750834);
    assert_eq!(e.east, 2003750834);
    assert_eq!(e.north, 2003750834);
}

#[test]
fn envelope_children_partition_parent() {
    let parent = tile_envelope(&XYZ { z: 3, x: 5, y: 2 });
    let nw = tile_envelope(&XYZ { z: 4, x: 10, y: 4 });
    let ne = tile_envelope(&XYZ { z: 4, x: 11, y: 4 });
    let sw = tile_envelope(&XYZ { z: 4, x: 10, y: 5 });
    let se = tile_envelope(&XYZ { z: 4, x: 11, y: 5 });
    // numerators at zoom 4 carry twice the denominator of zoom 3
    assert_eq!(nw.west, 2 * parent.west);
    assert_eq!(se.east, 2 * parent.east);
    assert_eq!(nw.north, 2 * parent.north);
    assert_eq!(se.south, 2 * parent.south);
    // the inner edges meet at one shared cut per axis
    assert_eq!(nw.east, ne.west);
    assert_eq!(sw.east, se.west);
    assert_eq!(nw.south, sw.north);
    assert_eq!(ne.south, se.north);
    // the children tile the parent exactly
    assert_eq!(ne.east, 2 * parent.east);
    assert_eq!(sw.west, 2 * parent.west);
}

#[test]
fn envelope_nw_quadrant_at_zoom1() {
    let e = tile_envelope(&XYZ { z: 1, x: 0, y: 0 });
    assert_eq!(e.shift, 1);
    // in centimeters: west -20037508.34 m, east 0, north 20037508.34 m, south 0
    assert_eq!(e.west, -4007501668);
    assert_eq!(e.east, 0);
    assert_eq!(e.north, 4007501668);
    assert_eq!(e.south, 0);
}

#[test]
fn table_query_web_mercator_has_no_reprojection() {
    let src = roads(3857);
    let q = src.get_tile_query(&XYZ { z: 0, x: 0, y: 0 });
    assert_eq!(
        q.sql,
        "SELECT ST_AsMVT(tile, 'public.roads', 4096, 'geom') FROM (SELECT ST_AsMVTGeom(geom, \
         TileBBox($1, $2, $3, 3857), 4096, 64, true) AS geom FROM public.roads WHERE geom && \
         TileBBox($1, $2, $3, 3857)) AS tile WHERE geom IS NOT NULL"
    );
    assert!(!q.sql.contains("ST_Transform"));
    assert_eq!(
        q.params,
        vec![BindValue::Int(0), BindValue::Int(0), BindValue::Int(0)]
    );
}

#[test]
fn table_query_foreign_srid_wraps_filter_and_geometry() {
    let src = roads(4326);
    let q = src.get_tile_query(&XYZ { z: 1, x: 0, y: 0 });
    assert_eq!(
        q.sql,
        "SELECT ST_AsMVT(tile, 'public.roads', 4096, 'geom') FROM (SELECT \
         ST_AsMVTGeom(ST_Transform(geom, 3857), TileBBox($1, $2, $3, 3857), 4096, 64, true) AS \
         geom FROM public.roads WHERE geom && ST_Transform(TileBBox($1, $2, $3, 3857), 4326)) \
         AS tile WHERE geom IS NOT NULL"
    );
    assert!(q.sql.contains("ST_Transform(geom, 3857)"));
    assert!(q.sql.contains("ST_Transform(TileBBox($1, $2, $3, 3857), 4326)"));
    assert_eq!(
        q.params,
        vec![BindValue::Int(1), BindValue::Int(0), BindValue::Int(0)]
    );
    // the envelope bound to the placeholders is the NW quadrant
    assert_eq!(q.envelope.west, -4007501668);
    assert_eq!(q.envelope.east, 0);
    assert_eq!(q.envelope.north, 4007501668);
    assert_eq!(q.envelope.south, 0);
}

#[test]
fn table_query_defaults_apply_when_fields_absent() {
    let mut src = roads(3857);
    src.extent = None;
    src.buffer = None;
    src.clip_geom = None;
    let q = src.get_tile_query(&XYZ { z: 0, x: 0, y: 0 });
    assert!(q.sql.contains(", 4096, 64, true)"));
}

#[test]
fn table_query_renders_id_column_and_properties() {
    let mut src = roads(3857);
    src.id_column = Some("gid".to_string());
    src.properties = vec![
        ("name".to_string(), "text".to_string()),
        ("kind".to_string(), "int4".to_string()),
    ];
    let q = src.get_tile_query(&XYZ { z: 0, x: 0, y: 0 });
    assert!(q.sql.contains("4096, 'geom', 'gid') FROM"));
    assert!(q.sql.contains("AS geom, \"name\",\"kind\" FROM public.roads"));
}

#[test]
fn table_query_zero_buffer_is_valid() {
    let mut src = roads(3857);
    src.buffer = Some(0);
    let q = src.get_tile_query(&XYZ { z: 0, x: 0, y: 0 });
    assert!(q.sql.contains(", 4096, 0, true)"));
}

#[test]
fn function_query_without_parameters() {
    let src = FunctionSource {
        id: "public.function_source".to_string(),
        schema: "public".to_string(),
        function: "function_source".to_string(),
    };
    let q = src.get_tile_query(&XYZ { z: 5, x: 1, y: 2 }, &None);
    assert_eq!(q.sql, "SELECT public.function_source($1, $2, $3)");
    assert_eq!(
        q.params,
        vec![BindValue::Int(5), BindValue::Int(1), BindValue::Int(2)]
    );
}

#[test]
fn function_query_with_parameters_binds_json() {
    let src = FunctionSource {
        id: "public.function_source".to_string(),
        schema: "public".to_string(),
        function: "function_source".to_string(),
    };
    let query = vec![("filter".to_string(), "ro\"ad\\s".to_string())];
    let q = src.get_tile_query(&XYZ { z: 0, x: 0, y: 0 }, &Some(query));
    assert_eq!(q.sql, "SELECT public.function_source($1, $2, $3, $4::json)");
    assert_eq!(q.params.len(), 4);
    match &q.params[3] {
        BindValue::Text(j) => assert_eq!(j, "{\"filter\":\"ro\\\"ad\\\\s\"}"),
        other => panic!("expected a JSON text bind value, got {:?}", other),
    }
}

#[test]
fn json_object_rendering() {
    assert_eq!(query_to_json(&vec![]), "{}");
    let pairs = vec![
        ("a".to_string(), "1".to_string()),
        ("b".to_string(), "2".to_string()),
    ];
    assert_eq!(query_to_json(&pairs), "{\"a\":\"1\",\"b\":\"2\"}");
}

#[test]
fn composite_concatenates_payloads() {
    let parts = vec![vec![1u8, 2, 3], vec![], vec![4u8]];
    assert_eq!(merge_tiles(&parts), vec![1u8, 2, 3, 4]);
    let empty: Vec<Vec<u8>> = Vec::new();
    assert_eq!(merge_tiles(&empty), Vec::<u8>::new());
}

#[test]
fn composite_synthesizes_one_query_per_source() {
    let comp = CompositeSource {
        id: "public.all".to_string(),
        table_sources: vec![roads(3857), roads(4326)],
    };
    let qs = comp.get_tile_queries(&XYZ { z: 0, x: 0, y: 0 });
    assert_eq!(qs.len(), 2);
    assert!(!qs[0].sql.contains("ST_Transform"));
    assert!(qs[1].sql.contains("ST_Transform"));
}

#[test]
fn tiles_url_building() {
    assert_eq!(
        build_tiles_url("https", "example.com", "/public.roads.json", ""),
        "https://example.com/public.roads/{z}/{x}/{y}.pbf"
    );
    assert_eq!(
        build_tiles_url("http", "localhost:3000", "/public.roads.json", "size=512"),
        "http://localhost:3000/public.roads/{z}/{x}/{y}.pbf?size=512"
    );
}

#[test]
fn trim_json_removes_every_trailing_suffix() {
    assert_eq!(trim_json_suffix("/a.json"), "/a");
    assert_eq!(trim_json_suffix("/a.json.json"), "/a");
    assert_eq!(trim_json_suffix("/a.jsonx"), "/a.jsonx");
    assert_eq!(trim_json_suffix(""), "");
}

#[test]
fn source_variants_share_one_interface() {
    let table = Source::Table(roads(3857));
    let function = Source::Function(FunctionSource {
        id: "public.fn".to_string(),
        schema: "public".to_string(),
        function: "fn".to_string(),
    });
    let composite = Source::Composite(CompositeSource {
        id: "public.all".to_string(),
        table_sources: vec![roads(3857), roads(4326)],
    });

    assert_eq!(table.get_id(), "public.roads");
    assert_eq!(function.get_id(), "public.fn");
    assert_eq!(composite.get_id(), "public.all");

    let xyz = XYZ { z: 0, x: 0, y: 0 };
    assert_eq!(table.get_tile_queries(&xyz, &None).len(), 1);
    assert_eq!(function.get_tile_queries(&xyz, &None).len(), 1);
    assert_eq!(composite.get_tile_queries(&xyz, &None).len(), 2);

    let tj = composite.get_tilejson();
    assert_eq!(tj.name, "public.all");
    assert_eq!(tj.scheme, "xyz");
    assert!(tj.bounds.is_none());
}
