use vstd::prelude::*;
use vstd::string::StrSliceExecFns;

verus! {

/// An exact decimal coordinate: the value is
/// `(-1 if neg else 1) * mantissa / 10^scale`.
///
/// Bounding-box coordinates reach the core as decimal text inside the
/// database's box representation; they are carried through unchanged,
/// so an exact fixed-point form is kept instead of a binary float.
#[derive(Clone, Copy, Debug, PartialEq, Eq, Structural)]
pub struct Decimal {
    pub neg: bool,
    pub mantissa: u64,
    pub scale: u32,
}

impl Decimal {
    /// The value `(-1 if neg else 1) * mantissa / 10^scale`.
    pub fn new(neg: bool, mantissa: u64, scale: u32) -> (d: Decimal)
        ensures
            d == (Decimal { neg, mantissa, scale }),
    {
        Decimal { neg, mantissa, scale }
    }
}

/// `c` is a decimal digit.
pub open spec fn is_digit(c: char) -> bool {
    '0' <= c && c <= '9'
}

/// The numeric value of digit `c`.
pub open spec fn digit_val(c: char) -> nat {
    (c as u32 - 48) as nat
}

/// Every character of `s` is a decimal digit.
pub open spec fn all_digits(s: Seq<char>) -> bool {
    forall|j: int| 0 <= j < s.len() ==> is_digit(#[trigger] s[j])
}

/// The numeric value of digit string `s`, most significant first.
pub open spec fn digits_value(s: Seq<char>) -> nat
    decreases s.len(),
{
    if s.len() == 0 {
        0
    } else {
        digits_value(s.drop_last()) * 10 + digit_val(s.last())
    }
}

/// 10 raised to `e`.
pub open spec fn pow10(e: nat) -> nat
    decreases e,
{
    if e == 0 {
        1
    } else {
        10 * pow10((e - 1) as nat)
    }
}

/// The index of the first '.' in `s`, or `s.len()` if there is none.
pub open spec fn dot_index(s: Seq<char>) -> int
    decreases s.len(),
{
    if s.len() == 0 {
        0
    } else if s[0] == '.' {
        0
    } else {
        1 + dot_index(s.skip(1))
    }
}

/// The unsigned body of token `s`: everything after a leading '-'.
pub open spec fn dec_body(s: Seq<char>) -> Seq<char> {
    if s.len() > 0 && s[0] == '-' {
        s.skip(1)
    } else {
        s
    }
}

/// The integer-part digits of the body of `s`.
pub open spec fn dec_int_digits(s: Seq<char>) -> Seq<char> {
    dec_body(s).take(dot_index(dec_body(s)))
}

/// The fraction digits of the body of `s` (empty if there is no '.').
pub open spec fn dec_frac_digits(s: Seq<char>) -> Seq<char> {
    let b = dec_body(s);
    if dot_index(b) == b.len() {
        Seq::empty()
    } else {
        b.skip(dot_index(b) + 1)
    }
}

/// `s` is a decimal numeral this core accepts: an optional leading
/// '-', one or more integer digits, optionally followed by '.' and
/// one or more fraction digits, with at most 18 digits in all (so the
/// mantissa fits a machine word).
pub open spec fn is_dec_token(s: Seq<char>) -> bool {
    let b = dec_body(s);
    let d = dot_index(b);
    &&& d >= 1
    &&& all_digits(dec_int_digits(s))
    &&& (d < b.len() ==> b.len() - d - 1 >= 1 && all_digits(dec_frac_digits(s)))
    &&& dec_int_digits(s).len() + dec_frac_digits(s).len() <= 18
}

/// The mantissa encoded by token `s`: the integer digits shifted past
/// the fraction digits.
pub open spec fn dec_mantissa(s: Seq<char>) -> nat {
    digits_value(dec_int_digits(s)) * pow10(dec_frac_digits(s).len()) + digits_value(
        dec_frac_digits(s),
    )
}

/// The scale encoded by token `s`: the number of fraction digits.
pub open spec fn dec_scale(s: Seq<char>) -> nat {
    dec_frac_digits(s).len()
}

/// pow10 is monotone in the exponent.
proof fn lemma_pow10_le(a: nat, b: nat)
    requires
        a <= b,
    ensures
        pow10(a) <= pow10(b),
        pow10(b) >= 1,
    decreases b,
{
    if b > 0 {
        if a == b {
            lemma_pow10_le((a - 1) as nat, (b - 1) as nat);
        } else {
            lemma_pow10_le(a, (b - 1) as nat);
        }
    }
}

/// The first-dot index lies within the sequence's bounds.
proof fn lemma_dot_index_le(s: Seq<char>)
    ensures
        0 <= dot_index(s) <= s.len(),
    decreases s.len(),
{
    if s.len() > 0 && s[0] != '.' {
        lemma_dot_index_le(s.skip(1));
    }
}

/// If no '.' occurs before position `k`, the first-dot index is at
/// least `k`.
proof fn lemma_dot_index_ge(s: Seq<char>, k: int)
    requires
        0 <= k <= s.len(),
        forall|j: int| 0 <= j < k ==> s[j] != '.',
    ensures
        dot_index(s) >= k,
    decreases s.len(),
{
    if s.len() > 0 && k > 0 {
        assert(s[0] != '.');
        assert(forall|j: int| 0 <= j < k - 1 ==> #[trigger] s.skip(1)[j] == s[j + 1]);
        lemma_dot_index_ge(s.skip(1), k - 1);
    } else {
        lemma_dot_index_le(s);
    }
}

/// If no '.' occurs before position `k` and one occurs at `k` (or `k`
/// is the end), then `k` is the first-dot index.
proof fn lemma_dot_index_at(s: Seq<char>, k: int)
    requires
        0 <= k <= s.len(),
        forall|j: int| 0 <= j < k ==> s[j] != '.',
        k < s.len() ==> s[k] == '.',
    ensures
        dot_index(s) == k,
    decreases s.len(),
{
    if s.len() > 0 {
        if k == 0 {
        } else {
            lemma_dot_index_at(s.skip(1), k - 1);
        }
    }
}

/// Concrete powers of ten used for overflow bounds.
proof fn lemma_pow10_vals()
    ensures
        pow10(17) == 100_000_000_000_000_000,
        pow10(18) == 1_000_000_000_000_000_000,
{
    reveal_with_fuel(pow10, 19);
}

/// A digit prefix of `s` consists of digits, none of which is '.'.
proof fn lemma_all_digits_below(s: Seq<char>, m: int)
    requires
        0 <= m <= s.len(),
        all_digits(s.take(m)),
    ensures
        forall|j: int| 0 <= j < m ==> is_digit(#[trigger] s[j]) && s[j] != '.',
{
    assert(forall|j: int| 0 <= j < m ==> #[trigger] s[j] == s.take(m)[j]);
}

fn digit_at(s: &str, i: usize) -> (r: bool)
    requires
        i < s@.len(),
    ensures
        r == is_digit(s@[i as int]),
{
    let c = s.get_char(i);
    let u = c as u32;
    48 <= u && u <= 57
}

/// Parses one bounding-box coordinate token into the exact decimal it
/// denotes.  Returns None exactly when the token is not a decimal
/// numeral this core accepts (see `is_dec_token`).
pub fn parse_decimal(tok: &str) -> (r: Option<Decimal>)
    ensures
        match r {
            Some(d) => {
                &&& is_dec_token(tok@)
                &&& d.neg == (tok@.len() > 0 && tok@[0] == '-')
                &&& d.mantissa == dec_mantissa(tok@)
                &&& d.scale == dec_scale(tok@)
            },
            None => !is_dec_token(tok@),
        }
{
    let n = tok.unicode_len();
    if n == 0 {
        return None;
    }
    let neg = tok.get_char(0) == '-';
    let start: usize = if neg {
        1
    } else {
        0
    };
    let ghost b = dec_body(tok@);
    proof {
        assert(b =~= tok@.skip(start as int));
    }
    let mut i = start;
    let mut mant: u64 = 0;
    while i < n && digit_at(tok, i)
        invariant
            n == tok@.len(),
            start <= i <= n,
            neg == (tok@.len() > 0 && tok@[0] == '-'),
            start == if neg { 1int } else { 0int },
            b == dec_body(tok@),
            b =~= tok@.skip(start as int),
            all_digits(b.take(i - start)),
            mant == digits_value(b.take(i - start)),
            i - start <= 18,
            mant < pow10((i - start) as nat),
        decreases n - i,
    {
        proof {
            assert(is_digit(tok@[i as int]));
            assert(b[i - start] == tok@[i as int]);
            lemma_all_digits_below(b, i - start);
        }
        if i - start >= 18 {
            // a 19th integer digit: the token has too many digits
            proof {
                lemma_dot_index_ge(b, i + 1 - start);
                lemma_dot_index_le(b);
            }
            return None;
        }
        let c = tok.get_char(i);
        proof {
            assert(is_digit(b[i - start]));
            assert('0' <= c && c <= '9');
            assert(b.take(i + 1 - start).drop_last() =~= b.take(i - start));
            assert(b.take(i + 1 - start).last() == b[i - start]);
            assert(all_digits(b.take(i + 1 - start))) by {
                assert(forall|j: int|
                    0 <= j < i + 1 - start ==> #[trigger] b.take(i + 1 - start)[j] == b[j]);
            }
            assert(pow10((i + 1 - start) as nat) == 10 * pow10((i - start) as nat));
            lemma_pow10_le((i - start) as nat, 17);
            lemma_pow10_vals();
        }
        mant = mant * 10 + ((c as u32 - 48) as u64);
        i = i + 1;
    }
    let int_len = i - start;
    proof {
        lemma_dot_index_le(b);
        lemma_all_digits_below(b, int_len as int);
        lemma_dot_index_ge(b, int_len as int);
    }
    if int_len == 0 {
        // empty integer part: "", "-", ".5", or a stray character
        proof {
            if dot_index(b) >= 1 {
                assert(b.len() > 0);
                assert(i < n);
                assert(!is_digit(tok@[i as int]));
                assert(dec_int_digits(tok@)[0] == b[0]);
                assert(!is_digit(dec_int_digits(tok@)[0]));
            }
        }
        return None;
    }
    if i == n {
        // no fraction part
        proof {
            lemma_dot_index_at(b, int_len as int);
            assert(dec_int_digits(tok@) =~= b.take(int_len as int));
            assert(dec_frac_digits(tok@) =~= Seq::<char>::empty());
            assert(pow10(0) == 1);
            assert(digits_value(dec_frac_digits(tok@)) == 0);
            assert(mant * pow10(0) == mant) by (nonlinear_arith)
                requires
                    pow10(0) == 1,
            ;
            assert(dec_mantissa(tok@) == mant);
        }
        return Some(Decimal { neg, mantissa: mant, scale: 0 });
    }
    // the loop stopped on a non-digit before the end
    let c = tok.get_char(i);
    proof {
        assert(!is_digit(b[int_len as int]));
    }
    if c != '.' {
        // a character that is neither digit nor '.'
        proof {
            assert(b[int_len as int] != '.');
            lemma_dot_index_ge(b, int_len as int + 1);
            assert(!is_digit(dec_int_digits(tok@)[int_len as int]));
        }
        return None;
    }
    proof {
        lemma_dot_index_at(b, int_len as int);
    }
    i = i + 1;
    let fs = i;
    let mut scale: u32 = 0;
    let ghost iv = digits_value(b.take(int_len as int));
    proof {
        assert(b.subrange(int_len + 1, i - start) =~= Seq::<char>::empty());
        assert(pow10(0) == 1);
        assert(iv * pow10(0) == iv) by (nonlinear_arith)
            requires
                pow10(0) == 1,
        ;
    }
    while i < n && digit_at(tok, i)
        invariant
            n == tok@.len(),
            start <= n,
            fs <= i <= n,
            fs == start + int_len + 1,
            1 <= int_len <= 18,
            neg == (tok@.len() > 0 && tok@[0] == '-'),
            start == if neg { 1int } else { 0int },
            b == dec_body(tok@),
            b =~= tok@.skip(start as int),
            dot_index(b) == int_len as int,
            all_digits(b.take(int_len as int)),
            iv == digits_value(b.take(int_len as int)),
            iv < pow10(int_len as nat),
            scale == i - fs,
            all_digits(b.subrange(int_len + 1, i - start)),
            mant == iv * pow10(scale as nat) + digits_value(b.subrange(int_len + 1, i - start)),
            int_len + scale <= 18,
            mant < pow10((int_len + scale) as nat),
        decreases n - i,
    {
        proof {
            assert(is_digit(tok@[i as int]));
            assert(b[i - start] == tok@[i as int]);
        }
        if int_len + (scale as usize) >= 18 {
            // a further fraction digit: the token has too many digits
            proof {
                let fr = dec_frac_digits(tok@);
                assert(fr == b.skip(int_len + 1));
                assert(fr.len() >= scale + 1) by {
                    assert(b.len() > i - start);
                }
                assert(dec_int_digits(tok@).len() == int_len as int);
            }
            return None;
        }
        let c = tok.get_char(i);
        proof {
            assert('0' <= c && c <= '9');
            lemma_pow10_le((int_len + scale) as nat, 17);
            lemma_pow10_vals();
            let ghost sofar = b.subrange(int_len + 1, i - start);
            let ghost next = b.subrange(int_len + 1, i + 1 - start);
            assert(is_digit(b[i - start]));
            assert(next.drop_last() =~= sofar);
            assert(next.last() == b[i - start]);
            assert(all_digits(next)) by {
                assert(forall|j: int| 0 <= j < next.len() ==> next[j] == b[int_len + 1 + j]);
            }
            assert(pow10((scale + 1) as nat) == 10 * pow10(scale as nat));
            assert(iv * pow10((scale + 1) as nat) == (iv * pow10(scale as nat)) * 10)
                by (nonlinear_arith)
                requires
                    pow10((scale + 1) as nat) == 10 * pow10(scale as nat),
            ;
            assert(pow10((int_len + scale + 1) as nat) == 10 * pow10((int_len + scale) as nat));
        }
        mant = mant * 10 + ((c as u32 - 48) as u64);
        scale = scale + 1;
        i = i + 1;
    }
    if i < n {
        // a character after the fraction digits that is not a digit
        proof {
            assert(!is_digit(b[i - start]));
            let fr = dec_frac_digits(tok@);
            assert(fr == b.skip(int_len + 1));
            assert(!is_digit(fr[i - start - int_len - 1]));
        }
        return None;
    }
    if scale == 0 {
        // trailing '.': the fraction part is empty
        proof {
            assert(b.len() - dot_index(b) - 1 == 0);
        }
        return None;
    }
    proof {
        assert(dec_int_digits(tok@) =~= b.take(int_len as int));
        assert(dec_frac_digits(tok@) =~= b.subrange(int_len + 1, i - start));
        assert(dec_mantissa(tok@) == mant);
    }
    Some(Decimal { neg, mantissa: mant, scale })
}

} // verus!
