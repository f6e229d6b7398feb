use crate::composite_source::CompositeSource;
use crate::function_source::FunctionSource;
use crate::table_source::{Bounds, TableSource};
use vstd::prelude::*;
use vstd::string::{StrSliceExecFns, StringExecFns};

verus! {

/// The TileJSON descriptor of a source, holding the fields this core
/// must populate: scheme "xyz", name equal to the source id, the
/// source bounds where the source has any, and the tiles URL template
/// rebuilt per request.
#[derive(Clone, Debug)]
pub struct TileJson {
    pub tilejson: String,
    pub name: String,
    pub scheme: String,
    pub bounds: Option<Bounds>,
    pub tiles: Vec<String>,
}

/// `s` with every trailing ".json" removed.
pub open spec fn trim_json(s: Seq<char>) -> Seq<char>
    decreases s.len(),
{
    if s.len() >= 5 && s.subrange(s.len() - 5, s.len() as int) == ".json"@ {
        trim_json(s.take(s.len() - 5))
    } else {
        s
    }
}

/// Removes every trailing ".json" from `path`, as the tiles URL
/// template requires.
pub fn trim_json_suffix(path: &str) -> (r: String)
    ensures
        r@ == trim_json(path@),
{
    let n = path.unicode_len();
    let mut end = n;
    proof {
        assert(path@.take(n as int) =~= path@);
    }
    while end >= 5 && path.get_char(end - 5) == '.' && path.get_char(end - 4) == 'j'
        && path.get_char(end - 3) == 's' && path.get_char(end - 2) == 'o' && path.get_char(
        end - 1,
    ) == 'n'
        invariant
            n == path@.len(),
            end <= n,
            trim_json(path@) == trim_json(path@.take(end as int)),
        decreases end,
    {
        proof {
            reveal_strlit(".json");
            let t = path@.take(end as int);
            assert(t.subrange(t.len() - 5, t.len() as int) =~= ".json"@);
            assert(t.take(t.len() - 5) =~= path@.take(end - 5));
        }
        end = end - 5;
    }
    let r = String::from_str(path.substring_char(0, end));
    proof {
        reveal_strlit(".json");
        let t = path@.take(end as int);
        if t.len() >= 5 {
            assert(t.subrange(t.len() - 5, t.len() as int) != ".json"@) by {
                if t.subrange(t.len() - 5, t.len() as int) == ".json"@ {
                    assert(t.subrange(t.len() - 5, t.len() as int)[0] == path@[end - 5]);
                    assert(t.subrange(t.len() - 5, t.len() as int)[1] == path@[end - 4]);
                    assert(t.subrange(t.len() - 5, t.len() as int)[2] == path@[end - 3]);
                    assert(t.subrange(t.len() - 5, t.len() as int)[3] == path@[end - 2]);
                    assert(t.subrange(t.len() - 5, t.len() as int)[4] == path@[end - 1]);
                }
            }
        }
        assert(trim_json(t) == t);
        assert(r@ == path@.subrange(0, end as int));
        assert(r@ =~= t);
    }
    r
}

/// The tiles URL template: scheme, host and trimmed path with the
/// tile-coordinate placeholders appended and the original query
/// string preserved.
pub open spec fn tiles_url(scheme: Seq<char>, host: Seq<char>, path: Seq<char>, qs: Seq<char>) -> Seq<
    char,
> {
    scheme + "://"@ + host + trim_json(path) + "/{z}/{x}/{y}.pbf"@ + (if qs.len() == 0 {
        Seq::<char>::empty()
    } else {
        "?"@ + qs
    })
}

/// Builds the tiles URL template from the inbound request's scheme,
/// host, path and query string.  The path has any ".json" suffix
/// removed; a non-empty query string is kept behind '?'.
pub fn build_tiles_url(scheme: &str, host: &str, path: &str, query_string: &str) -> (r: String)
    ensures
        r@ == tiles_url(scheme@, host@, path@, query_string@),
{
    let trimmed = trim_json_suffix(path);
    let mut r = String::from_str(scheme);
    r.append("://");
    r.append(host);
    r.append(trimmed.as_str());
    r.append("/{z}/{x}/{y}.pbf");
    if !query_string.is_empty() {
        let mut q = String::from_str("?");
        q.append(query_string);
        r.append(q.as_str());
    }
    proof {
        assert(r@ =~= tiles_url(scheme@, host@, path@, query_string@));
    }
    r
}

impl TileJson {
    /// Installs the per-request tiles URL as the single template.
    pub fn set_tiles_url(&mut self, url: String)
        ensures
            final(self).tiles@.len() == 1,
            final(self).tiles@[0]@ == url@,
            final(self).tilejson == old(self).tilejson,
            final(self).name == old(self).name,
            final(self).scheme == old(self).scheme,
            final(self).bounds == old(self).bounds,
    {
        let mut tiles: Vec<String> = Vec::new();
        tiles.push(url);
        self.tiles = tiles;
    }
}

impl TableSource {
    /// The TileJSON descriptor of this source: scheme "xyz", name
    /// equal to the source id, the source bounds, and no tiles URL
    /// yet (it is rebuilt per request).
    pub fn get_tilejson(&self) -> (t: TileJson)
        ensures
            t.tilejson@ == "2.2.0"@,
            t.scheme@ == "xyz"@,
            t.name@ == self.id@,
            t.bounds == Option::Some(self.bounds),
            t.tiles@.len() == 0,
    {
        TileJson {
            tilejson: String::from_str("2.2.0"),
            name: self.id.clone(),
            scheme: String::from_str("xyz"),
            bounds: Some(self.bounds),
            tiles: Vec::new(),
        }
    }
}

impl FunctionSource {
    /// The TileJSON descriptor of this source: scheme "xyz", name
    /// equal to the source id, no bounds of its own, and no tiles URL
    /// yet (it is rebuilt per request).
    pub fn get_tilejson(&self) -> (t: TileJson)
        ensures
            t.tilejson@ == "2.2.0"@,
            t.scheme@ == "xyz"@,
            t.name@ == self.id@,
            t.bounds is None,
            t.tiles@.len() == 0,
    {
        TileJson {
            tilejson: String::from_str("2.2.0"),
            name: self.id.clone(),
            scheme: String::from_str("xyz"),
            bounds: None,
            tiles: Vec::new(),
        }
    }
}

impl CompositeSource {
    /// The TileJSON descriptor of this source: scheme "xyz", name
    /// equal to the composite id, no bounds of its own, and no tiles
    /// URL yet (it is rebuilt per request).
    pub fn get_tilejson(&self) -> (t: TileJson)
        ensures
            t.tilejson@ == "2.2.0"@,
            t.scheme@ == "xyz"@,
            t.name@ == self.id@,
            t.bounds is None,
            t.tiles@.len() == 0,
    {
        TileJson {
            tilejson: String::from_str("2.2.0"),
            name: self.id.clone(),
            scheme: String::from_str("xyz"),
            bounds: None,
            tiles: Vec::new(),
        }
    }
}

} // verus!
