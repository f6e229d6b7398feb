use crate::catalog::{keys_unique, lemma_remove_key_get, remove_key, seq_get, Catalog};
use crate::db::FunctionRow;
use crate::mercator::tile_envelope;
use crate::source::{BindValue, Query, TileQuery, XYZ};
use vstd::prelude::*;
use vstd::string::{StrSliceExecFns, StringExecFns};

verus! {

/// The catalog of function sources, keyed by `schema.function`.
pub type FunctionSources = Catalog<FunctionSource>;

/// One database function published as a tile source: it is invoked
/// with the tile coordinate (and optional extra parameters) and must
/// itself return an MVT blob.
#[derive(Clone, Debug)]
pub struct FunctionSource {
    pub id: String,
    pub schema: String,
    pub function: String,
}

/// A character as it appears inside a JSON string: '"' and '\' take a
/// backslash escape, every other character stands for itself.
pub open spec fn json_esc_char(c: char) -> Seq<char> {
    if c == '"' {
        "\\\""@
    } else if c == '\\' {
        "\\\\"@
    } else {
        seq![c]
    }
}

/// The JSON-string escaping of `s`.
pub open spec fn json_esc(s: Seq<char>) -> Seq<char>
    decreases s.len(),
{
    if s.len() == 0 {
        Seq::empty()
    } else {
        json_esc(s.drop_last()) + json_esc_char(s.last())
    }
}

/// One `"key":"value"` member of a JSON object.
pub open spec fn json_member(k: Seq<char>, v: Seq<char>) -> Seq<char> {
    "\""@ + json_esc(k) + "\":\""@ + json_esc(v) + "\""@
}

/// The members of a JSON object built from `pairs`, in order,
/// comma-separated.
pub open spec fn json_members(pairs: Seq<(String, String)>) -> Seq<char>
    decreases pairs.len(),
{
    if pairs.len() == 0 {
        Seq::empty()
    } else if pairs.len() == 1 {
        json_member(pairs[0].0@, pairs[0].1@)
    } else {
        json_members(pairs.drop_last()) + ","@ + json_member(
            pairs.last().0@,
            pairs.last().1@,
        )
    }
}

/// The JSON object text built from `pairs`.
pub open spec fn json_object(pairs: Seq<(String, String)>) -> Seq<char> {
    "{"@ + json_members(pairs) + "}"@
}

/// The synthesized call for function source `s`: the placeholders
/// take z, x, y, and, when extra parameters are present, their JSON
/// object as a fourth bind value.
pub open spec fn function_tile_sql(s: FunctionSource, has_query: bool) -> Seq<char> {
    "SELECT "@ + s.schema@ + "."@ + s.function@ + (if has_query {
        "($1, $2, $3, $4::json)"@
    } else {
        "($1, $2, $3)"@
    })
}

/// Appends the JSON-string escaping of `s` to `out`.
fn append_json_escaped(out: &mut String, s: &String)
    ensures
        final(out)@ == old(out)@ + json_esc(s@),
{
    let n = s.as_str().unicode_len();
    let mut i: usize = 0;
    while i < n
        invariant
            n == s@.len(),
            i <= n,
            out@ == old(out)@ + json_esc(s@.take(i as int)),
        decreases n - i,
    {
        let c = s.as_str().get_char(i);
        if c == '"' {
            out.append("\\\"");
        } else if c == '\\' {
            out.append("\\\\");
        } else {
            let piece = s.as_str().substring_char(i, i + 1);
            proof {
                assert(piece@ =~= seq![s@[i as int]]);
            }
            out.append(piece);
        }
        proof {
            let t = s@.take(i + 1);
            assert(t.drop_last() =~= s@.take(i as int));
            assert(t.last() == s@[i as int]);
            assert(out@ =~= old(out)@ + json_esc(t));
        }
        i = i + 1;
    }
    proof {
        assert(s@.take(s@.len() as int) =~= s@);
    }
}

/// Renders `pairs` as a JSON object, escaping '"' and '\' inside keys
/// and values.
pub fn query_to_json(pairs: &Query) -> (r: String)
    ensures
        r@ == json_object(pairs@),
{
    let mut members = String::new();
    let mut i: usize = 0;
    while i < pairs.len()
        invariant
            i <= pairs.len(),
            members@ == json_members(pairs@.take(i as int)),
        decreases pairs.len() - i,
    {
        if i > 0 {
            members.append(",");
        }
        members.append("\"");
        append_json_escaped(&mut members, &pairs[i].0);
        members.append("\":\"");
        append_json_escaped(&mut members, &pairs[i].1);
        members.append("\"");
        proof {
            let t = pairs@.take(i + 1);
            assert(t.drop_last() =~= pairs@.take(i as int));
            assert(t.last() == pairs@[i as int]);
            assert(members@ =~= json_members(t));
        }
        i = i + 1;
    }
    proof {
        assert(pairs@.take(pairs@.len() as int) =~= pairs@);
    }
    let mut r = String::from_str("{");
    r.append(members.as_str());
    r.append("}");
    proof {
        assert(r@ =~= json_object(pairs@));
    }
    r
}

impl FunctionSource {
    /// The identifier under which this source is published.
    pub fn get_id(&self) -> (r: &str)
        ensures
            r@ == self.id@,
    {
        self.id.as_str()
    }

    /// Synthesizes the call to the source's database function for
    /// tile `xyz`: SQL text following `function_tile_sql`, the z, x,
    /// y bind values, and, when extra parameters are given, their
    /// JSON object as a fourth bind value.  Pure: no database access.
    pub fn get_tile_query(&self, xyz: &XYZ, query: &Option<Query>) -> (q: TileQuery)
        requires
            xyz.z <= 30,
        ensures
            q.sql@ == function_tile_sql(*self, query is Some),
            (match query {
                Option::Some(pairs) => q.params@.len() == 4 && (q.params@[3] matches
                BindValue::Text(j) && j@ == json_object(pairs@)),
                Option::None => q.params@.len() == 3,
            }),
            q.params@[0] == BindValue::Int(xyz.z as i64),
            q.params@[1] == BindValue::Int(xyz.x as i64),
            q.params@[2] == BindValue::Int(xyz.y as i64),
            crate::mercator::is_envelope_of(q.envelope, *xyz),
    {
        let mut sql = String::from_str("SELECT ");
        sql.append(self.schema.as_str());
        sql.append(".");
        sql.append(self.function.as_str());
        let mut params: Vec<BindValue> = Vec::new();
        params.push(BindValue::Int(xyz.z as i64));
        params.push(BindValue::Int(xyz.x as i64));
        params.push(BindValue::Int(xyz.y as i64));
        match query {
            Option::Some(pairs) => {
                sql.append("($1, $2, $3, $4::json)");
                params.push(BindValue::Text(query_to_json(pairs)));
            },
            Option::None => {
                sql.append("($1, $2, $3)");
            },
        }
        let envelope = tile_envelope(xyz);
        TileQuery { sql, params, envelope }
    }
}

/// The identifier a function row is published under:
/// `schema.function`.
pub open spec fn function_id_view(row: FunctionRow) -> Seq<char> {
    row.schema@ + "."@ + row.function@
}

/// `e` is the catalog entry built from function row `row`.
pub open spec fn function_entry_matches(e: (Seq<char>, FunctionSource), row: FunctionRow) -> bool {
    &&& e.0 == function_id_view(row)
    &&& e.1.id@ == function_id_view(row)
    &&& e.1.schema@ == row.schema@
    &&& e.1.function@ == row.function@
}

/// The metadata row that defines catalog key `key`: the last row
/// published under it (a function scan keeps every row).
pub open spec fn function_scan_get(rows: Seq<FunctionRow>, key: Seq<char>) -> Option<FunctionRow>
    decreases rows.len(),
{
    if rows.len() == 0 {
        Option::None
    } else if function_id_view(rows.last()) == key {
        Option::Some(rows.last())
    } else {
        function_scan_get(rows.drop_last(), key)
    }
}

/// `cat` is exactly the catalog a scan of `rows` yields: its keys
/// are unique; every identifier resolves to the source built from
/// the last row published under it, and to nothing where no such row
/// exists; and every entry is accounted for by such a row.
pub open spec fn function_scan_matches(cat: FunctionSources, rows: Seq<FunctionRow>) -> bool {
    &&& keys_unique(cat.entries_view())
    &&& forall|k: Seq<char>|
        #![trigger cat.spec_get(k)]
        match function_scan_get(rows, k) {
            Option::Some(row) => cat.spec_get(k) matches Option::Some(v)
                && function_entry_matches((k, v), row),
            Option::None => cat.spec_get(k) is None,
        }
    &&& forall|m: int|
        0 <= m < cat.entries_view().len() ==> function_scan_get(
            rows,
            (#[trigger] cat.entries_view()[m]).0,
        ) is Some
}

/// Builds the function-source catalog from the metadata rows: one
/// source per row, keyed by `schema.function`.  There is no bounds
/// query and no SRID for a function, so this scan never fails and
/// never skips a row; a later row under an existing identifier
/// supersedes the earlier one.
pub fn get_function_sources(rows: &Vec<FunctionRow>) -> (r: FunctionSources)
    ensures
        function_scan_matches(r, rows@),
{
    let mut r: FunctionSources = Catalog::new();
    let mut i: usize = 0;
    while i < rows.len()
        invariant
            i <= rows.len(),
            forall|k: Seq<char>|
                #![trigger r.spec_get(k)]
                match function_scan_get(rows@.take(i as int), k) {
                    Option::Some(row) => r.spec_get(k) matches Option::Some(v)
                        && function_entry_matches((k, v), row),
                    Option::None => r.spec_get(k) is None,
                },
            forall|m: int|
                0 <= m < r.entries_view().len() ==> function_scan_get(
                    rows@.take(i as int),
                    (#[trigger] r.entries_view()[m]).0,
                ) is Some,
        decreases rows.len() - i,
    {
        let row = &rows[i];
        proof {
            let t = rows@.take(i + 1);
            assert(t.drop_last() =~= rows@.take(i as int));
            assert(t.last() == rows@[i as int]);
        }
        let mut id = row.schema.clone();
        id.append(".");
        id.append(row.function.as_str());
        let source = FunctionSource {
            id: id.clone(),
            schema: row.schema.clone(),
            function: row.function.clone(),
        };
        let ghost precat = r;
        let ghost prev = r.entries_view();
        let ghost idv = id@;
        let ghost src = source;
        r.insert(id, source);
        proof {
            let newv = r.entries_view();
            let tn = rows@.take(i + 1);
            assert(idv == function_id_view(rows@[i as int]));
            assert(function_entry_matches((idv, src), rows@[i as int]));
            lemma_remove_key_get(prev, idv);
            assert(newv.drop_last() =~= remove_key(prev, idv));
            assert forall|k: Seq<char>|
                #![trigger r.spec_get(k)]
                match function_scan_get(tn, k) {
                    Option::Some(row2) => r.spec_get(k) matches Option::Some(v)
                        && function_entry_matches((k, v), row2),
                    Option::None => r.spec_get(k) is None,
                } by {
                if k == idv {
                    assert(function_scan_get(tn, k) == Option::Some(rows@[i as int]));
                    assert(r.spec_get(k) == Option::Some(src));
                } else {
                    assert(function_scan_get(tn, k) == function_scan_get(
                        rows@.take(i as int),
                        k,
                    ));
                    assert(r.spec_get(k) == seq_get(remove_key(prev, idv), k));
                    assert(seq_get(remove_key(prev, idv), k) == seq_get(prev, k));
                    assert(precat.spec_get(k) == seq_get(prev, k));
                    assert(r.spec_get(k) == precat.spec_get(k));
                }
            }
            assert forall|m: int| 0 <= m < newv.len() implies function_scan_get(
                tn,
                (#[trigger] newv[m]).0,
            ) is Some by {
                if m == newv.len() - 1 {
                    assert(newv[m].0 == idv);
                    assert(function_scan_get(tn, idv) == Option::Some(rows@[i as int]));
                } else {
                    let e = remove_key(prev, idv)[m];
                    assert(newv[m] == e);
                    assert(prev.contains(e) && e.0 != idv);
                    let m2 = choose|m2: int| 0 <= m2 < prev.len() && prev[m2] == e;
                    assert(precat.entries_view()[m2] == e);
                    assert(function_scan_get(rows@.take(i as int), precat.entries_view()[
                        m2].0) is Some);
                    assert(function_scan_get(tn, e.0) == function_scan_get(
                        rows@.take(i as int),
                        e.0,
                    ));
                }
            }
        }
        i = i + 1;
    }
    proof {
        use_type_invariant(&r);
        assert(rows@.take(rows@.len() as int) =~= rows@);
        assert(forall|k: Seq<char>| #[trigger] function_scan_get(rows@, k)
            == function_scan_get(rows@.take(rows@.len() as int), k));
    }
    r
}

} // verus!
