//! Character-level text utilities shared by the index loader, the error
//! formatter and the query parser.

use vstd::prelude::*;
use vstd::std_specs::iter::IteratorSpec;

verus! {

broadcast use vstd::string::group_string_axioms;

/// Collects the characters of a string slice into a vector.
pub fn chars_of(s: &str) -> (r: Vec<char>)
    ensures
        r@ == s@,
{
    let mut r: Vec<char> = Vec::new();
    let mut it = s.chars();
    loop
        invariant
            s@ == r@ + it.remaining(),
            IteratorSpec::decrease(&it) is Some,
        ensures
            r@ == s@,
        decreases IteratorSpec::decrease(&it)->0,
    {
        match it.next() {
            Some(c) => {
                r.push(c);
            },
            None => {
                proof {
                    assert(r@ =~= s@);
                }
                break ;
            },
        }
    }
    r
}

/// Relies on `String: FromIterator<char>` of std: collecting characters
/// yields the string with exactly those characters.
#[verifier::external_body]
pub fn string_from_chars(v: &Vec<char>) -> (s: String)
    ensures
        s@ == v@,
{
    v.iter().collect()
}

/// Relies on `PartialEq for str` of std: slices are equal exactly when their
/// characters are.
#[verifier::external_body]
pub fn str_eq(a: &str, b: &str) -> (r: bool)
    ensures
        r == (a@ == b@),
{
    a == b
}

pub open spec fn is_digit(c: char) -> bool {
    '0' <= c && c <= '9'
}

pub open spec fn digit_val(c: char) -> int {
    c as u32 - '0' as u32
}

/// The value of a plain run of decimal digits.
pub open spec fn digits_val(s: Seq<char>) -> int
    decreases s.len(),
{
    if s.len() == 0 {
        0
    } else {
        digits_val(s.drop_last()) * 10 + digit_val(s.last())
    }
}

pub open spec fn all_digits(s: Seq<char>) -> bool {
    forall|i: int| 0 <= i < s.len() ==> is_digit(s[i])
}

/// The integer denoted by an optional sign followed by one or more decimal
/// digits, exactly as `str::parse` reads integers; anything else is `None`.
pub open spec fn spec_parse_int(s: Seq<char>) -> Option<int> {
    if s.len() == 0 {
        None
    } else {
        let negative = s[0] == '-';
        let digits = if s[0] == '-' || s[0] == '+' {
            s.drop_first()
        } else {
            s
        };
        if digits.len() == 0 || !all_digits(digits) {
            None
        } else if negative {
            Some(-digits_val(digits))
        } else {
            Some(digits_val(digits))
        }
    }
}

/// `spec_parse_int` narrowed to values that fit an `i32`.
pub open spec fn spec_parse_i32(s: Seq<char>) -> Option<i32> {
    match spec_parse_int(s) {
        Some(v) => if i32::MIN <= v <= i32::MAX {
            Some(v as i32)
        } else {
            None
        },
        None => None,
    }
}

pub proof fn lemma_digits_val_nonneg(s: Seq<char>)
    requires
        all_digits(s),
    ensures
        digits_val(s) >= 0,
    decreases s.len(),
{
    if s.len() > 0 {
        assert(all_digits(s.drop_last()));
        lemma_digits_val_nonneg(s.drop_last());
    }
}

/// Parses the characters `s[start..end]` as a signed 32-bit integer.
#[verifier::loop_isolation(false)]
pub fn parse_i32_range(s: &Vec<char>, start: usize, end: usize) -> (r: Option<i32>)
    requires
        start <= end <= s@.len(),
    ensures
        r == spec_parse_i32(s@.subrange(start as int, end as int)),
{
    let ghost whole = s@.subrange(start as int, end as int);
    if start == end {
        return None;
    }
    let first = s[start];
    let negative = first == '-';
    let from = if first == '-' || first == '+' {
        start + 1
    } else {
        start
    };
    let ghost digits = s@.subrange(from as int, end as int);
    proof {
        assert(whole[0] == s@[start as int]);
        if first == '-' || first == '+' {
            assert(digits =~= whole.drop_first());
        } else {
            assert(digits =~= whole);
        }
    }
    if from == end {
        return None;
    }
    // Accumulate saturating at a cap above every i32 magnitude: once the
    // value is known to be out of range, its exact size no longer matters.
    let cap: i64 = 3_000_000_000;
    let mut acc: i64 = 0;
    let mut i: usize = from;
    while i < end
        invariant
            from <= i <= end <= s@.len(),
            digits == s@.subrange(from as int, end as int),
            all_digits(s@.subrange(from as int, i as int)),
            0 <= acc <= 3_000_000_000,
            acc < 3_000_000_000 ==> acc == digits_val(s@.subrange(from as int, i as int)),
            acc == 3_000_000_000 ==> digits_val(s@.subrange(from as int, i as int))
                >= 3_000_000_000,
        decreases end - i,
    {
        let c = s[i];
        if !('0' <= c && c <= '9') {
            proof {
                assert(digits[i - from] == s@[i as int]);
                assert(!is_digit(digits[i - from]));
                assert(!all_digits(digits));
                assert(spec_parse_int(whole) is None);
            }
            return None;
        }
        let d: i64 = (c as u32 as i64) - 48;
        let ghost seen = s@.subrange(from as int, i as int);
        let ghost seen2 = s@.subrange(from as int, i as int + 1);
        proof {
            assert(48 <= c as u32 <= 57);
            assert(0 <= d <= 9);
            assert(seen2.drop_last() =~= seen);
            assert(seen2.last() == s@[i as int]);
            lemma_digits_val_nonneg(seen);
            assert(digits_val(seen2) == digits_val(seen) * 10 + d);
        }
        if acc >= 300_000_000 {
            acc = cap;
        } else {
            acc = acc * 10 + d;
        }
        i = i + 1;
    }
    proof {
        assert(s@.subrange(from as int, end as int) =~= digits);
        lemma_digits_val_nonneg(digits);
    }
    if acc >= cap {
        return None;
    }
    if negative {
        if acc > 2_147_483_648 {
            None
        } else {
            Some((-acc) as i32)
        }
    } else {
        if acc > 2_147_483_647 {
            None
        } else {
            Some(acc as i32)
        }
    }
}

pub open spec fn spec_digit_char(d: int) -> char {
    if d == 0 {
        '0'
    } else if d == 1 {
        '1'
    } else if d == 2 {
        '2'
    } else if d == 3 {
        '3'
    } else if d == 4 {
        '4'
    } else if d == 5 {
        '5'
    } else if d == 6 {
        '6'
    } else if d == 7 {
        '7'
    } else if d == 8 {
        '8'
    } else {
        '9'
    }
}

/// The decimal digit characters of `n`, most significant first.
pub open spec fn spec_decimal(n: int) -> Seq<char>
    decreases n,
{
    if n < 10 {
        seq![spec_digit_char(n)]
    } else {
        spec_decimal(n / 10).push(spec_digit_char(n % 10))
    }
}

fn digit_char(d: u64) -> (c: char)
    requires
        d < 10,
    ensures
        c == spec_digit_char(d as int),
{
    if d == 0 {
        '0'
    } else if d == 1 {
        '1'
    } else if d == 2 {
        '2'
    } else if d == 3 {
        '3'
    } else if d == 4 {
        '4'
    } else if d == 5 {
        '5'
    } else if d == 6 {
        '6'
    } else if d == 7 {
        '7'
    } else if d == 8 {
        '8'
    } else {
        '9'
    }
}

/// Writes `n` in decimal.
pub fn decimal_string(n: u64) -> (s: String)
    ensures
        s@ == spec_decimal(n as int),
{
    let mut rev: Vec<char> = Vec::new();
    let mut cur: u64 = n;
    loop
        invariant_except_break
            spec_decimal(n as int) == spec_decimal(cur as int) + rev@.reverse(),
        ensures
            spec_decimal(n as int) == rev@.reverse(),
        decreases cur,
    {
        let d = digit_char(cur % 10);
        let ghost prev = rev@;
        rev.push(d);
        proof {
            assert(rev@.reverse() =~= seq![d] + prev.reverse());
            if cur >= 10 {
                assert(spec_decimal(cur as int) == spec_decimal(cur as int / 10).push(
                    spec_digit_char(cur as int % 10)));
                assert(spec_decimal(cur as int) + prev.reverse() =~= spec_decimal(cur as int / 10)
                    + rev@.reverse());
            } else {
                assert(spec_decimal(cur as int) =~= seq![d]);
                assert(spec_decimal(n as int) =~= rev@.reverse());
            }
        }
        if cur < 10 {
            break ;
        }
        cur = cur / 10;
    }
    let mut out: Vec<char> = Vec::new();
    let mut i: usize = rev.len();
    while i > 0
        invariant
            i <= rev@.len(),
            out@ == rev@.reverse().take(rev@.len() - i),
        decreases i,
    {
        i = i - 1;
        let c = rev[i];
        out.push(c);
        proof {
            assert(out@ =~= rev@.reverse().take(rev@.len() - i));
        }
    }
    proof {
        assert(out@ =~= rev@.reverse());
    }
    string_from_chars(&out)
}

/// Whether `lit` occurs in `s` starting at position `pos`.
pub open spec fn spec_match_at(s: Seq<char>, pos: int, lit: Seq<char>) -> bool {
    &&& 0 <= pos
    &&& pos + lit.len() <= s.len()
    &&& s.subrange(pos, pos + lit.len()) == lit
}

/// Compares the characters of `s` at `pos` with the literal `lit`.
pub fn match_at(s: &Vec<char>, pos: usize, lit: &str) -> (r: bool)
    requires
        pos <= s@.len(),
    ensures
        r == spec_match_at(s@, pos as int, lit@),
{
    let n = lit.unicode_len();
    let limit = s.len();
    if n > limit - pos {
        return false;
    }
    let mut k: usize = 0;
    while k < n
        invariant
            k <= n,
            pos + n <= limit,
            limit == s@.len(),
            n == lit@.len(),
            forall|j: int| 0 <= j < k ==> s@[pos + j] == lit@[j],
        decreases n - k,
    {
        if s[pos + k] != lit.get_char(k) {
            proof {
                assert(s@.subrange(pos as int, pos + lit@.len())[k as int] != lit@[k as int]);
            }
            return false;
        }
        k = k + 1;
    }
    proof {
        assert(s@.subrange(pos as int, pos + lit@.len()) =~= lit@);
    }
    true
}

} // verus!
