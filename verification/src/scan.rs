use crate::decimal::{
    dec_mantissa, dec_scale, is_dec_token, parse_decimal, Decimal,
};
use crate::table_source::Bounds;
use vstd::prelude::*;
use vstd::string::{StrSliceExecFns, StringExecFns};

verus! {

/// `s` with every occurrence of `c` removed.
pub open spec fn remove_char(s: Seq<char>, c: char) -> Seq<char>
    decreases s.len(),
{
    if s.len() == 0 {
        Seq::empty()
    } else {
        remove_char(s.drop_last(), c) + (if s.last() == c {
            Seq::<char>::empty()
        } else {
            seq![s.last()]
        })
    }
}

/// `s` with every occurrence of the text "BOX" removed, scanning left
/// to right without rescanning.
pub open spec fn strip_box(s: Seq<char>) -> Seq<char>
    decreases s.len(),
{
    if s.len() >= 3 && s[0] == 'B' && s[1] == 'O' && s[2] == 'X' {
        strip_box(s.skip(3))
    } else if s.len() == 0 {
        Seq::empty()
    } else {
        seq![s[0]] + strip_box(s.skip(1))
    }
}

/// `s` with every space turned into a comma.
pub open spec fn spaces_to_commas(s: Seq<char>) -> Seq<char>
    decreases s.len(),
{
    if s.len() == 0 {
        Seq::empty()
    } else {
        spaces_to_commas(s.drop_last()) + seq![
            if s.last() == ' ' {
                ','
            } else {
                s.last()
            },
        ]
    }
}

/// The cleaning the textual box representation goes through before
/// being split: parentheses stripped, the "BOX" marker stripped,
/// spaces turned into commas.
pub open spec fn clean_bounds(s: Seq<char>) -> Seq<char> {
    spaces_to_commas(strip_box(remove_char(remove_char(s, '('), ')')))
}

/// The index of the first ',' in `s`, or `s.len()` if there is none.
pub open spec fn comma_index(s: Seq<char>) -> int
    decreases s.len(),
{
    if s.len() == 0 {
        0
    } else if s[0] == ',' {
        0
    } else {
        1 + comma_index(s.skip(1))
    }
}

/// `s` split on ',' into its (possibly empty) tokens.
pub open spec fn split_commas(s: Seq<char>) -> Seq<Seq<char>>
    decreases s.len(),
{
    let d = comma_index(s);
    if 0 <= d < s.len() {
        seq![s.take(d)] + split_commas(s.skip(d + 1))
    } else {
        seq![s]
    }
}

/// If no ',' occurs before position `k` and one occurs at `k` (or `k`
/// is the end), then `k` is the first-comma index.
proof fn lemma_comma_index_at(s: Seq<char>, k: int)
    requires
        0 <= k <= s.len(),
        forall|j: int| 0 <= j < k ==> s[j] != ',',
        k < s.len() ==> s[k] == ',',
    ensures
        comma_index(s) == k,
    decreases s.len(),
{
    if s.len() > 0 {
        if k == 0 {
        } else {
            assert(forall|j: int| 0 <= j < k - 1 ==> #[trigger] s.skip(1)[j] == s[j + 1]);
            lemma_comma_index_at(s.skip(1), k - 1);
        }
    }
}

fn remove_char_string(s: &str, c: char) -> (r: String)
    ensures
        r@ == remove_char(s@, c),
{
    let n = s.unicode_len();
    let mut r = String::new();
    let mut i: usize = 0;
    while i < n
        invariant
            n == s@.len(),
            i <= n,
            r@ == remove_char(s@.take(i as int), c),
        decreases n - i,
    {
        let ch = s.get_char(i);
        if ch != c {
            let piece = s.substring_char(i, i + 1);
            proof {
                assert(piece@ =~= seq![s@[i as int]]);
            }
            r.append(piece);
        }
        proof {
            let t = s@.take(i + 1);
            assert(t.drop_last() =~= s@.take(i as int));
            assert(t.last() == s@[i as int]);
            assert(r@ =~= remove_char(t, c));
        }
        i = i + 1;
    }
    proof {
        assert(s@.take(s@.len() as int) =~= s@);
    }
    r
}

fn spaces_to_commas_string(s: &str) -> (r: String)
    ensures
        r@ == spaces_to_commas(s@),
{
    let n = s.unicode_len();
    let mut r = String::new();
    let mut i: usize = 0;
    while i < n
        invariant
            n == s@.len(),
            i <= n,
            r@ == spaces_to_commas(s@.take(i as int)),
        decreases n - i,
    {
        let ch = s.get_char(i);
        if ch == ' ' {
            proof {
                reveal_strlit(",");
            }
            r.append(",");
        } else {
            let piece = s.substring_char(i, i + 1);
            proof {
                assert(piece@ =~= seq![s@[i as int]]);
            }
            r.append(piece);
        }
        proof {
            let t = s@.take(i + 1);
            assert(t.drop_last() =~= s@.take(i as int));
            assert(t.last() == s@[i as int]);
            assert(r@ =~= spaces_to_commas(t));
        }
        i = i + 1;
    }
    proof {
        assert(s@.take(s@.len() as int) =~= s@);
    }
    r
}

fn strip_box_string(s: &str) -> (r: String)
    ensures
        r@ == strip_box(s@),
{
    let n = s.unicode_len();
    let mut r = String::new();
    let mut i: usize = 0;
    proof {
        assert(s@.skip(0) =~= s@);
        assert(Seq::<char>::empty() + strip_box(s@) =~= strip_box(s@));
    }
    while i < n
        invariant
            n == s@.len(),
            i <= n,
            strip_box(s@) == r@ + strip_box(s@.skip(i as int)),
        decreases n - i,
    {
        let is_box = n - i > 2 && s.get_char(i) == 'B' && s.get_char(i + 1) == 'O' && s.get_char(
            i + 2,
        ) == 'X';
        proof {
            let rest = s@.skip(i as int);
            assert(rest.len() == n - i);
            assert(forall|j: int| 0 <= j < rest.len() ==> #[trigger] rest[j] == s@[i + j]);
        }
        if is_box {
            proof {
                let rest = s@.skip(i as int);
                assert(rest.len() >= 3 && rest[0] == 'B' && rest[1] == 'O' && rest[2] == 'X');
                assert(rest.skip(3) =~= s@.skip(i + 3));
            }
            i = i + 3;
        } else {
            let piece = s.substring_char(i, i + 1);
            proof {
                let rest = s@.skip(i as int);
                assert(piece@ =~= seq![s@[i as int]]);
                assert(!(rest.len() >= 3 && rest[0] == 'B' && rest[1] == 'O' && rest[2]
                    == 'X'));
                assert(rest.skip(1) =~= s@.skip(i + 1));
                assert(strip_box(rest) == seq![s@[i as int]] + strip_box(s@.skip(i + 1)));
            }
            r.append(piece);
            proof {
                assert(strip_box(s@) =~= r@ + strip_box(s@.skip(i + 1)));
            }
            i = i + 1;
        }
    }
    proof {
        assert(s@.skip(s@.len() as int) =~= Seq::<char>::empty());
        assert(r@ + strip_box(Seq::<char>::empty()) =~= r@);
    }
    r
}

fn split_commas_vec(s: &str) -> (toks: Vec<String>)
    ensures
        toks.deep_view() == split_commas(s@),
{
    let n = s.unicode_len();
    let mut toks: Vec<String> = Vec::new();
    let mut tstart: usize = 0;
    let mut i: usize = 0;
    proof {
        assert(s@.skip(0) =~= s@);
        assert(toks.deep_view() =~= Seq::<Seq<char>>::empty());
        assert(Seq::<Seq<char>>::empty() + split_commas(s@) =~= split_commas(s@));
    }
    while i < n
        invariant
            n == s@.len(),
            tstart <= i <= n,
            forall|j: int| tstart <= j < i ==> s@[j] != ',',
            split_commas(s@) =~= toks.deep_view() + split_commas(s@.skip(tstart as int)),
        decreases n - i,
    {
        let ch = s.get_char(i);
        if ch == ',' {
            let tok = String::from_str(s.substring_char(tstart, i));
            proof {
                let rest = s@.skip(tstart as int);
                assert(forall|j: int|
                    0 <= j < rest.len() ==> #[trigger] rest[j] == s@[tstart + j]);
                lemma_comma_index_at(rest, i - tstart);
                assert(rest.take(i - tstart) =~= s@.subrange(tstart as int, i as int));
                assert(rest.skip(i - tstart + 1) =~= s@.skip(i + 1));
                assert(tok@ == rest.take(i - tstart));
            }
            let ghost tv = toks.deep_view();
            let ghost tokv = tok@;
            toks.push(tok);
            proof {
                assert(toks.deep_view() =~= tv.push(tokv));
                assert(split_commas(s@) =~= toks.deep_view() + split_commas(s@.skip(i + 1)));
            }
            tstart = i + 1;
        }
        i = i + 1;
    }
    let last_tok = String::from_str(s.substring_char(tstart, n));
    proof {
        let rest = s@.skip(tstart as int);
        assert(forall|j: int| 0 <= j < rest.len() ==> #[trigger] rest[j] == s@[tstart + j]);
        lemma_comma_index_at(rest, rest.len() as int);
        assert(last_tok@ =~= rest);
    }
    let ghost tv = toks.deep_view();
    let ghost lastv = last_tok@;
    toks.push(last_tok);
    proof {
        assert(toks.deep_view() =~= tv.push(lastv));
        assert(toks.deep_view() =~= split_commas(s@));
    }
    toks
}

/// The tokens a bounds string yields after cleaning and splitting.
pub open spec fn bounds_tokens(s: Seq<char>) -> Seq<Seq<char>> {
    split_commas(clean_bounds(s))
}

/// The bounds string parses into exactly four decimal coordinates.
pub open spec fn bounds_ok(s: Seq<char>) -> bool {
    &&& bounds_tokens(s).len() == 4
    &&& forall|i: int| 0 <= i < 4 ==> is_dec_token(#[trigger] bounds_tokens(s)[i])
}

/// The exact decimal a token denotes.
pub open spec fn token_dec(t: Seq<char>) -> Decimal {
    Decimal {
        neg: t.len() > 0 && t[0] == '-',
        mantissa: dec_mantissa(t) as u64,
        scale: dec_scale(t) as u32,
    }
}

/// The bounding box a well-formed bounds string denotes:
/// min x, min y, max x, max y in token order.
pub open spec fn spec_bounds(s: Seq<char>) -> Bounds {
    Bounds {
        min_x: token_dec(bounds_tokens(s)[0]),
        min_y: token_dec(bounds_tokens(s)[1]),
        max_x: token_dec(bounds_tokens(s)[2]),
        max_y: token_dec(bounds_tokens(s)[3]),
    }
}

/// Parses the textual box representation of a table's extent: strip
/// "BOX", parentheses and spaces, split on commas, and read exactly
/// four decimal coordinates.  Returns None exactly when that fails.
pub fn parse_bounds(text: &str) -> (r: Option<Bounds>)
    ensures
        match r {
            Option::Some(b) => bounds_ok(text@) && b == spec_bounds(text@),
            Option::None => !bounds_ok(text@),
        }
{
    let c1 = remove_char_string(text, '(');
    let c2 = remove_char_string(c1.as_str(), ')');
    let c3 = strip_box_string(c2.as_str());
    let c4 = spaces_to_commas_string(c3.as_str());
    let toks = split_commas_vec(c4.as_str());
    if toks.len() != 4 {
        return None;
    }
    proof {
        assert(toks.deep_view().len() == toks@.len());
        assert(toks.deep_view()[0] == toks@[0]@);
        assert(toks.deep_view()[1] == toks@[1]@);
        assert(toks.deep_view()[2] == toks@[2]@);
        assert(toks.deep_view()[3] == toks@[3]@);
    }
    let d0 = parse_decimal(toks[0].as_str());
    let d1 = parse_decimal(toks[1].as_str());
    let d2 = parse_decimal(toks[2].as_str());
    let d3 = parse_decimal(toks[3].as_str());
    match (d0, d1, d2, d3) {
        (Option::Some(b0), Option::Some(b1), Option::Some(b2), Option::Some(b3)) => {
            Some(Bounds { min_x: b0, min_y: b1, max_x: b2, max_y: b3 })
        },
        _ => None,
    }
}

} // verus!
