use crate::catalog::Catalog;
use crate::decimal::Decimal;
use crate::function_source::{FunctionSource, FunctionSources};
use crate::table_source::{Bounds, TableSource, TableSources};
use vstd::prelude::*;
use vstd::string::StringExecFns;

verus! {

/// A one-source table catalog for exercising the serving paths
/// without a database: `public.table_source` in Web Mercator with
/// the default extent, buffer and clipping and world-degree bounds.
pub fn mock_table_sources() -> (r: Option<TableSources>)
    ensures
        (match r {
            Option::Some(cat) => {
                &&& cat.entries_view().len() == 1
                &&& cat.entries_view()[0].0 == "public.table_source"@
                &&& cat.entries_view()[0].1.id@ == "public.table_source"@
                &&& cat.entries_view()[0].1.schema@ == "public"@
                &&& cat.entries_view()[0].1.table@ == "table_source"@
                &&& cat.entries_view()[0].1.id_column is None
                &&& cat.entries_view()[0].1.geometry_column@ == "geom"@
                &&& cat.entries_view()[0].1.srid == 3857
                &&& cat.entries_view()[0].1.extent == Option::Some(4096u32)
                &&& cat.entries_view()[0].1.buffer == Option::Some(64u32)
                &&& cat.entries_view()[0].1.clip_geom == Option::Some(true)
                &&& cat.entries_view()[0].1.geometry_type is None
                &&& cat.entries_view()[0].1.properties@ == Seq::<(String, String)>::empty()
                &&& cat.entries_view()[0].1.bounds == (Bounds {
                    min_x: Decimal { neg: true, mantissa: 1800, scale: 1 },
                    min_y: Decimal { neg: true, mantissa: 900, scale: 1 },
                    max_x: Decimal { neg: false, mantissa: 1800, scale: 1 },
                    max_y: Decimal { neg: false, mantissa: 900, scale: 1 },
                })
            },
            Option::None => false,
        }),
{
    let source = TableSource {
        id: String::from_str("public.table_source"),
        schema: String::from_str("public"),
        table: String::from_str("table_source"),
        id_column: None,
        geometry_column: String::from_str("geom"),
        srid: 3857,
        extent: Some(4096),
        buffer: Some(64),
        clip_geom: Some(true),
        geometry_type: None,
        properties: Vec::new(),
        bounds: Bounds {
            min_x: Decimal::new(true, 1800, 1),
            min_y: Decimal::new(true, 900, 1),
            max_x: Decimal::new(false, 1800, 1),
            max_y: Decimal::new(false, 900, 1),
        },
    };
    let mut cat: TableSources = Catalog::new();
    cat.insert(String::from_str("public.table_source"), source);
    Some(cat)
}

/// A one-source function catalog for exercising the serving paths
/// without a database: `public.function_source`.
pub fn mock_function_sources() -> (r: Option<FunctionSources>)
    ensures
        (match r {
            Option::Some(cat) => {
                &&& cat.entries_view().len() == 1
                &&& cat.entries_view()[0].0 == "public.function_source"@
                &&& cat.entries_view()[0].1.id@ == "public.function_source"@
                &&& cat.entries_view()[0].1.schema@ == "public"@
                &&& cat.entries_view()[0].1.function@ == "function_source"@
            },
            Option::None => false,
        }),
{
    let source = FunctionSource {
        id: String::from_str("public.function_source"),
        schema: String::from_str("public"),
        function: String::from_str("function_source"),
    };
    let mut cat: FunctionSources = Catalog::new();
    cat.insert(String::from_str("public.function_source"), source);
    Some(cat)
}

} // verus!
