use crate::mercator::Envelope;
use vstd::prelude::*;

verus! {

/// A slippy-map tile address: zoom level and tile column/row.
/// Validity of the range is not enforced by the core; out-of-range
/// coordinates simply produce an empty or error result downstream.
#[derive(Clone, Copy, Debug, PartialEq, Eq, Structural)]
pub struct XYZ {
    pub z: u32,
    pub x: u32,
    pub y: u32,
}

/// A raw binary MVT payload.  A zero-length payload is a valid
/// "no content for this tile" response, distinct from an error.
pub type Tile = Vec<u8>;

/// Extra query parameters handed to a function source: ordered
/// key/value pairs.
pub type Query = Vec<(String, String)>;

/// A value bound to a placeholder of a synthesized SQL statement.
#[derive(Clone, Debug, PartialEq)]
pub enum BindValue {
    Int(i64),
    Text(String),
}

/// A synthesized tile query: SQL text, positional bind values for its
/// placeholders, and the exact Web-Mercator envelope that the tile
/// coordinate bound to those placeholders denotes.
#[derive(Clone, Debug)]
pub struct TileQuery {
    pub sql: String,
    pub params: Vec<BindValue>,
    pub envelope: Envelope,
}

/// A tile source: the closed set of variants the catalog can hold.
/// The set is fixed, so exhaustive matching covers every source a
/// request can resolve.
#[derive(Clone, Debug)]
pub enum Source {
    Table(crate::table_source::TableSource),
    Function(crate::function_source::FunctionSource),
    Composite(crate::composite_source::CompositeSource),
}

impl Source {
    /// The identifier under which this source is published.
    pub fn get_id(&self) -> (r: &str)
        ensures
            (match self {
                Source::Table(s) => r@ == s.id@,
                Source::Function(s) => r@ == s.id@,
                Source::Composite(s) => r@ == s.id@,
            }),
    {
        match self {
            Source::Table(s) => s.get_id(),
            Source::Function(s) => s.get_id(),
            Source::Composite(s) => s.get_id(),
        }
    }

    /// The TileJSON descriptor of this source.
    pub fn get_tilejson(&self) -> (t: crate::tilejson::TileJson)
        ensures
            t.scheme@ == "xyz"@,
            (match self {
                Source::Table(s) => t.name@ == s.id@ && t.bounds == Option::Some(s.bounds),
                Source::Function(s) => t.name@ == s.id@ && t.bounds is None,
                Source::Composite(s) => t.name@ == s.id@ && t.bounds is None,
            }),
    {
        match self {
            Source::Table(s) => s.get_tilejson(),
            Source::Function(s) => s.get_tilejson(),
            Source::Composite(s) => s.get_tilejson(),
        }
    }

    /// The queries whose answers, concatenated, form this source's
    /// tile: one for a table or function source, one per constituent
    /// for a composite.
    pub fn get_tile_queries(&self, xyz: &XYZ, query: &Option<Query>) -> (qs: Vec<TileQuery>)
        requires
            xyz.z <= 30,
        ensures
            forall|i: int|
                0 <= i < qs@.len() ==> (#[trigger] qs@[i]).params@[0] == BindValue::Int(
                    xyz.z as i64,
                ) && qs@[i].params@[1] == BindValue::Int(xyz.x as i64) && qs@[i].params@[2]
                    == BindValue::Int(xyz.y as i64) && crate::mercator::is_envelope_of(
                    qs@[i].envelope,
                    *xyz,
                ),
            (match self {
                Source::Table(s) => qs@.len() == 1 && qs@[0].sql@
                    == crate::table_source::table_tile_sql(*s) && qs@[0].params@.len() == 3,
                Source::Function(s) => qs@.len() == 1 && qs@[0].sql@
                    == crate::function_source::function_tile_sql(*s, query is Some) && (
                match query {
                    Option::Some(pairs) => qs@[0].params@.len() == 4 && (qs@[0].params@[3] matches
                    BindValue::Text(j) && j@ == crate::function_source::json_object(pairs@)),
                    Option::None => qs@[0].params@.len() == 3,
                }),
                Source::Composite(s) => qs@.len() == s.table_sources@.len() && forall|i: int|
                    0 <= i < qs@.len() ==> (#[trigger] qs@[i]).sql@
                        == crate::table_source::table_tile_sql(s.table_sources@[i]) && qs@[i]
                        .params@.len() == 3,
            }),
    {
        match self {
            Source::Table(s) => {
                let mut qs: Vec<TileQuery> = Vec::new();
                qs.push(s.get_tile_query(xyz));
                qs
            },
            Source::Function(s) => {
                let mut qs: Vec<TileQuery> = Vec::new();
                qs.push(s.get_tile_query(xyz, query));
                qs
            },
            Source::Composite(s) => s.get_tile_queries(xyz),
        }
    }
}

} // verus!
