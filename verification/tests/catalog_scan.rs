use tileserve::catalog::Catalog;
use tileserve::db::{
    bounds_query, get_tilesets, table_sources_query, tile_from_rows, GeomRow,
};
use tileserve::decimal::{parse_decimal, Decimal};
use tileserve::dev::{mock_function_sources, mock_table_sources};
use tileserve::errors::ServeError;
use tileserve::function_source::get_function_sources;
use tileserve::db::FunctionRow;
use tileserve::scan::parse_bounds;
use tileserve::table_source::get_table_sources;

fn row(schema: &str, table: &str, srid: i32, bounds: Option<&str>) -> GeomRow {
    GeomRow {
        schema: schema.to_string(),
        table: table.to_string(),
        geometry_column: "geom".to_string(),
        srid,
        geometry_type: Some("POINT".to_string()),
        properties: vec![("name".to_string(), "text".to_string())],
        bounds_text: bounds.map(|b| b.to_string()),
    }
}

#[test]
fn decimal_parsing_accepts_plain_numerals() {
    assert_eq!(parse_decimal("0"), Some(Decimal::new(false, 0, 0)));
    assert_eq!(parse_decimal("-10"), Some(Decimal::new(true, 10, 0)));
    assert_eq!(parse_decimal("10.5"), Some(Decimal::new(false, 105, 1)));
    assert_eq!(
        parse_decimal("-20037508.34"),
        Some(Decimal::new(true, 2003750834, 2))
    );
}

#[test]
fn decimal_parsing_rejects_malformed_tokens() {
    assert_eq!(parse_decimal(""), None);
    assert_eq!(parse_decimal("-"), None);
    assert_eq!(parse_decimal("."), None);
    assert_eq!(parse_decimal(".5"), None);
    assert_eq!(parse_decimal("1."), None);
    assert_eq!(parse_decimal("1..2"), None);
    assert_eq!(parse_decimal("1e5"), None);
    assert_eq!(parse_decimal("ten"), None);
    assert_eq!(parse_decimal("10 "), None);
    // more digits than a machine-word mantissa can hold
    assert_eq!(parse_decimal("1234567890123456789"), None);
}

#[test]
fn bounds_parsing_reads_the_box_text() {
    let b = parse_bounds("BOX(-10 -10,10 10)").expect("well-formed box");
    assert_eq!(b.min_x, Decimal::new(true, 10, 0));
    assert_eq!(b.min_y, Decimal::new(true, 10, 0));
    assert_eq!(b.max_x, Decimal::new(false, 10, 0));
    assert_eq!(b.max_y, Decimal::new(false, 10, 0));

    let b = parse_bounds("BOX(-180.0 -90.0,180.0 90.0)").expect("world box");
    assert_eq!(b.min_x, Decimal::new(true, 1800, 1));
    assert_eq!(b.max_y, Decimal::new(false, 900, 1));
}

#[test]
fn bounds_parsing_rejects_other_shapes() {
    assert_eq!(parse_bounds(""), None);
    assert_eq!(parse_bounds("BOX(-10 -10,10)"), None);
    assert_eq!(parse_bounds("BOX(-10 -10,10 10 10)"), None);
    assert_eq!(parse_bounds("not a box"), None);
    assert_eq!(parse_bounds("BOX(a b,c d)"), None);
}

#[test]
fn scan_skips_srid_zero_without_failing() {
    let rows = vec![
        row("public", "roads", 4326, Some("BOX(-10 -10,10 10)")),
        row("public", "legacy", 0, Some("BOX(0 0,1 1)")),
        row("public", "rivers", 3857, Some("BOX(-5 -5,5 5)")),
    ];
    let cat = get_table_sources(&rows).expect("scan succeeds");
    assert_eq!(cat.entries().len(), 2);
    assert!(cat.get(&"public.roads".to_string()).is_some());
    assert!(cat.get(&"public.legacy".to_string()).is_none());
    assert!(cat.get(&"public.rivers".to_string()).is_some());
}

#[test]
fn scan_fails_entirely_on_malformed_bounds() {
    let rows = vec![
        row("public", "roads", 4326, Some("BOX(-10 -10,10 10)")),
        row("public", "broken", 4326, Some("BOX(-10 -10)")),
    ];
    assert_eq!(
        get_table_sources(&rows).unwrap_err(),
        ServeError::MalformedMetadata
    );

    let rows = vec![row("public", "roads", 4326, None)];
    assert_eq!(
        get_table_sources(&rows).unwrap_err(),
        ServeError::MalformedMetadata
    );
}

#[test]
fn scan_builds_sources_with_documented_defaults() {
    let rows = vec![row("public", "roads", 4326, Some("BOX(-10 -10,10 10)"))];
    let cat = get_table_sources(&rows).expect("scan succeeds");
    let src = cat.get(&"public.roads".to_string()).expect("present");
    assert_eq!(src.id, "public.roads");
    assert_eq!(src.schema, "public");
    assert_eq!(src.table, "roads");
    assert_eq!(src.srid, 4326);
    assert_eq!(src.extent, Some(4096));
    assert_eq!(src.buffer, Some(64));
    assert_eq!(src.clip_geom, Some(true));
    assert_eq!(src.id_column, None);
    assert_eq!(src.geometry_type.as_deref(), Some("POINT"));
    assert_eq!(src.properties.len(), 1);
    assert_eq!(src.bounds.min_x, Decimal::new(true, 10, 0));
}

#[test]
fn function_scan_builds_one_source_per_row() {
    let rows = vec![FunctionRow {
        schema: "public".to_string(),
        function: "tiles".to_string(),
    }];
    let cat = get_function_sources(&rows);
    assert_eq!(cat.entries().len(), 1);
    let src = cat.get(&"public.tiles".to_string()).expect("present");
    assert_eq!(src.id, "public.tiles");
}

#[test]
fn tilesets_carry_rendered_legacy_queries() {
    let rows = vec![
        row("public", "roads", 4326, None),
        row("public", "legacy", 0, None),
    ];
    let ts = get_tilesets(&rows);
    assert_eq!(ts.entries().len(), 1);
    let t = ts.get(&"public.roads".to_string()).expect("present");
    assert_eq!(t.extent, 4096);
    assert_eq!(t.buffer, 64);
    assert!(t.clip_geom);
    assert_eq!(
        t.query,
        "SELECT ST_AsMVT(q, 'roads', 4096, 'geom') FROM (SELECT \
         ST_AsMVTGeom(ST_Transform(geom, 3857), TileBBox($1, $2, $3, 3857), 4096, 64, true) AS \
         geom FROM public.roads) AS q;"
    );
}

#[test]
fn metadata_query_texts() {
    assert_eq!(
        table_sources_query(),
        "\n        select\n            f_table_schema, f_table_name, f_geometry_column, srid, \
         type\n        from geometry_columns\n    "
    );
    assert_eq!(
        bounds_query("public.roads"),
        "SELECT ST_Extent(geom)::TEXT as bounds from  public.roads"
    );
}

#[test]
fn empty_result_set_yields_zero_length_payload() {
    assert_eq!(tile_from_rows(Vec::new()), Vec::<u8>::new());
    assert_eq!(tile_from_rows(vec![vec![7u8, 8]]), vec![7u8, 8]);
    assert_eq!(tile_from_rows(vec![vec![1u8], vec![2u8]]), vec![1u8]);
}

#[test]
fn catalog_lookup_and_supersession() {
    let mut cat: Catalog<u32> = Catalog::new();
    assert_eq!(cat.len(), 0);
    assert!(cat.get(&"a".to_string()).is_none());
    cat.insert("a".to_string(), 1);
    cat.insert("b".to_string(), 2);
    assert_eq!(cat.get(&"a".to_string()), Some(&1));
    assert_eq!(cat.get(&"b".to_string()), Some(&2));
    // a later entry under the same identifier supersedes the earlier:
    // the key stays unique, so the listing never shows it twice
    cat.insert("a".to_string(), 3);
    assert_eq!(cat.len(), 2);
    assert_eq!(cat.entries().len(), 2);
    assert_eq!(cat.get(&"a".to_string()), Some(&3));
    assert!(cat.get(&"c".to_string()).is_none());
}

#[test]
fn scan_supersedes_duplicate_identifiers() {
    // a table with two geometry columns yields two metadata rows with
    // one identifier: the later row wins and the catalog stays a map
    let mut first = row("public", "roads", 4326, Some("BOX(-10 -10,10 10)"));
    first.geometry_column = "geom_a".to_string();
    let mut second = row("public", "roads", 4326, Some("BOX(-10 -10,10 10)"));
    second.geometry_column = "geom_b".to_string();
    let cat = get_table_sources(&vec![first, second]).expect("scan succeeds");
    assert_eq!(cat.entries().len(), 1);
    let src = cat.get(&"public.roads".to_string()).expect("present");
    assert_eq!(src.geometry_column, "geom_b");
}

#[test]
fn scan_deduplicates_property_names() {
    let mut r = row("public", "roads", 4326, Some("BOX(-10 -10,10 10)"));
    r.properties = vec![
        ("name".to_string(), "text".to_string()),
        ("kind".to_string(), "int4".to_string()),
        ("name".to_string(), "varchar".to_string()),
    ];
    let cat = get_table_sources(&vec![r]).expect("scan succeeds");
    let src = cat.get(&"public.roads".to_string()).expect("present");
    // the later declaration supersedes; each name appears once
    assert_eq!(src.properties.len(), 2);
    assert_eq!(src.properties[0], ("kind".to_string(), "int4".to_string()));
    assert_eq!(src.properties[1], ("name".to_string(), "varchar".to_string()));
}

#[test]
fn mock_catalogs_hold_their_single_source() {
    let tables = mock_table_sources().expect("present");
    let src = tables
        .get(&"public.table_source".to_string())
        .expect("present");
    assert_eq!(src.srid, 3857);
    assert_eq!(src.bounds.min_x, Decimal::new(true, 1800, 1));

    let functions = mock_function_sources().expect("present");
    assert!(functions.get(&"public.function_source".to_string()).is_some());
}

#[test]
fn error_status_classes() {
    assert_eq!(ServeError::SourceNotFound("x".to_string()).status_class(), 404);
    assert_eq!(ServeError::CatalogUnavailable.status_class(), 404);
    assert_eq!(ServeError::PoolExhausted.status_class(), 500);
    assert_eq!(ServeError::ConnectionError.status_class(), 500);
    assert_eq!(ServeError::QueryError.status_class(), 500);
    assert_eq!(ServeError::MalformedMetadata.status_class(), 500);
}
