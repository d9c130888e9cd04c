//! Verified text helpers: decimal rendering and parsing of unsigned
//! integers, character search, and slice comparison over `&str`.
//!
//! These are the building blocks of the bearer-token payload format and
//! of identifier parsing at the request boundary.

use vstd::prelude::*;
use vstd::string::StrSliceExecFns;
use vstd::string::StringExecFns;

verus! {

/// The decimal digit character for a value in 0..10.
pub open spec fn dec_digit_char(d: int) -> char {
    if d == 0 {
        '0'
    } else if d == 1 {
        '1'
    } else if d == 2 {
        '2'
    } else if d == 3 {
        '3'
    } else if d == 4 {
        '4'
    } else if d == 5 {
        '5'
    } else if d == 6 {
        '6'
    } else if d == 7 {
        '7'
    } else if d == 8 {
        '8'
    } else {
        '9'
    }
}

pub open spec fn is_dec_digit(c: char) -> bool {
    c == '0' || c == '1' || c == '2' || c == '3' || c == '4' || c == '5' || c == '6' || c == '7'
        || c == '8' || c == '9'
}

/// The numeric value of a decimal digit character.
pub open spec fn digit_val(c: char) -> nat {
    if c == '0' {
        0
    } else if c == '1' {
        1
    } else if c == '2' {
        2
    } else if c == '3' {
        3
    } else if c == '4' {
        4
    } else if c == '5' {
        5
    } else if c == '6' {
        6
    } else if c == '7' {
        7
    } else if c == '8' {
        8
    } else {
        9
    }
}

/// The canonical decimal rendering of a natural number (no leading zeros).
pub open spec fn dec_str(n: nat) -> Seq<char>
    decreases n,
{
    if n < 10 {
        seq![dec_digit_char(n as int)]
    } else {
        dec_str(n / 10) + seq![dec_digit_char((n % 10) as int)]
    }
}

pub open spec fn all_digits(s: Seq<char>) -> bool {
    forall|i: int| 0 <= i < s.len() ==> is_dec_digit(#[trigger] s[i])
}

/// The value of a digit string, most significant digit first.
pub open spec fn digits_val(s: Seq<char>) -> nat
    decreases s.len(),
{
    if s.len() == 0 {
        0
    } else {
        digits_val(s.drop_last()) * 10 + digit_val(s.last())
    }
}

/// `dec_str` produces a non-empty digit string whose value is the number
/// it was rendered from.
pub proof fn lemma_dec_str_props(n: nat)
    ensures
        dec_str(n).len() >= 1,
        all_digits(dec_str(n)),
        digits_val(dec_str(n)) == n,
    decreases n,
{
    if n < 10 {
        let s = dec_str(n);
        assert(s == seq![dec_digit_char(n as int)]);
        assert(s.drop_last() =~= Seq::<char>::empty());
        assert(digits_val(Seq::<char>::empty()) == 0);
        assert(s.last() == dec_digit_char(n as int));
        assert(digits_val(s) == 0 * 10 + digit_val(dec_digit_char(n as int)));
    } else {
        lemma_dec_str_props(n / 10);
        let s = dec_str(n);
        let hi = dec_str(n / 10);
        assert(s.drop_last() =~= hi);
        assert(s.last() == dec_digit_char((n % 10) as int));
        assert(digits_val(s) == (n / 10) * 10 + n % 10);
    }
}

/// The value of a digit-string prefix never exceeds the value of the whole.
pub proof fn lemma_digits_val_prefix(s: Seq<char>, i: int)
    requires
        0 <= i <= s.len(),
    ensures
        digits_val(s.take(i)) <= digits_val(s),
    decreases s.len() - i,
{
    if i < s.len() {
        assert(s.take(i + 1).drop_last() =~= s.take(i));
        assert(s.take(i + 1).last() == s[i]);
        assert(digits_val(s.take(i)) <= digits_val(s.take(i)) * 10 + digit_val(s[i]));
        lemma_digits_val_prefix(s, i + 1);
    } else {
        assert(s.take(i) =~= s);
    }
}

/// What `parse_u64` accepts: a non-empty, all-digit string whose value
/// fits in a `u64`.
pub open spec fn spec_parse_u64(s: Seq<char>) -> Option<u64> {
    if s.len() >= 1 && all_digits(s) && digits_val(s) <= u64::MAX {
        Some(digits_val(s) as u64)
    } else {
        None
    }
}

/// Parsing inverts rendering.
pub proof fn lemma_parse_dec_str(n: u64)
    ensures
        spec_parse_u64(dec_str(n as nat)) == Some(n),
{
    lemma_dec_str_props(n as nat);
}

fn digit_literal(d: u64) -> (r: &'static str)
    requires
        d < 10,
    ensures
        r@ == seq![dec_digit_char(d as int)],
{
    if d == 0 {
        proof {
            reveal_strlit("0");
        }
        assert("0"@ =~= seq![dec_digit_char(0)]);
        "0"
    } else if d == 1 {
        proof {
            reveal_strlit("1");
        }
        assert("1"@ =~= seq![dec_digit_char(1)]);
        "1"
    } else if d == 2 {
        proof {
            reveal_strlit("2");
        }
        assert("2"@ =~= seq![dec_digit_char(2)]);
        "2"
    } else if d == 3 {
        proof {
            reveal_strlit("3");
        }
        assert("3"@ =~= seq![dec_digit_char(3)]);
        "3"
    } else if d == 4 {
        proof {
            reveal_strlit("4");
        }
        assert("4"@ =~= seq![dec_digit_char(4)]);
        "4"
    } else if d == 5 {
        proof {
            reveal_strlit("5");
        }
        assert("5"@ =~= seq![dec_digit_char(5)]);
        "5"
    } else if d == 6 {
        proof {
            reveal_strlit("6");
        }
        assert("6"@ =~= seq![dec_digit_char(6)]);
        "6"
    } else if d == 7 {
        proof {
            reveal_strlit("7");
        }
        assert("7"@ =~= seq![dec_digit_char(7)]);
        "7"
    } else if d == 8 {
        proof {
            reveal_strlit("8");
        }
        assert("8"@ =~= seq![dec_digit_char(8)]);
        "8"
    } else {
        proof {
            reveal_strlit("9");
        }
        assert("9"@ =~= seq![dec_digit_char(9)]);
        "9"
    }
}

/// Renders `n` in canonical decimal.
pub fn u64_to_string(n: u64) -> (r: String)
    ensures
        r@ == dec_str(n as nat),
    decreases n,
{
    let d = n % 10;
    if n < 10 {
        let s = digit_literal(d);
        s.to_owned()
    } else {
        let mut r = u64_to_string(n / 10);
        let s = digit_literal(d);
        r.append(s);
        r
    }
}

/// The decimal rendering of a possibly negative integer.
pub open spec fn int_str(n: int) -> Seq<char> {
    if n < 0 {
        seq!['-'] + dec_str((-n) as nat)
    } else {
        dec_str(n as nat)
    }
}

/// Renders `n` in canonical decimal, with a leading minus where needed.
pub fn i64_to_string(n: i64) -> (r: String)
    ensures
        r@ == int_str(n as int),
{
    if n < 0 {
        let mag: u64 = ((-(n + 1)) as u64) + 1;
        proof {
            reveal_strlit("-");
            assert("-"@ =~= seq!['-']);
            assert(mag as nat == (-(n as int)) as nat);
        }
        let mut s = "-".to_owned();
        let m = u64_to_string(mag);
        s.append(m.as_str());
        proof {
            assert(s@ =~= int_str(n as int));
        }
        s
    } else {
        u64_to_string(n as u64)
    }
}

fn digit_of_char(c: char) -> (r: Option<u64>)
    ensures
        match r {
            Some(d) => d < 10 && is_dec_digit(c) && d as nat == digit_val(c),
            None => !is_dec_digit(c),
        },
{
    if c == '0' {
        Some(0)
    } else if c == '1' {
        Some(1)
    } else if c == '2' {
        Some(2)
    } else if c == '3' {
        Some(3)
    } else if c == '4' {
        Some(4)
    } else if c == '5' {
        Some(5)
    } else if c == '6' {
        Some(6)
    } else if c == '7' {
        Some(7)
    } else if c == '8' {
        Some(8)
    } else if c == '9' {
        Some(9)
    } else {
        None
    }
}

/// Parses the characters of `s` between `from` and `to` as a decimal
/// `u64`; fails on an empty range, a non-digit, or overflow.
pub fn parse_u64_range(s: &str, from: usize, to: usize) -> (r: Option<u64>)
    requires
        from <= to <= s@.len(),
    ensures
        r == spec_parse_u64(s@.subrange(from as int, to as int)),
{
    let ghost f = s@.subrange(from as int, to as int);
    if from == to {
        return None;
    }
    let mut acc: u64 = 0;
    let mut i = from;
    while i < to
        invariant
            from <= i <= to <= s@.len(),
            f == s@.subrange(from as int, to as int),
            all_digits(f.take(i - from)),
            acc as nat == digits_val(f.take(i - from)),
        decreases to - i,
    {
        let c = s.get_char(i);
        proof {
            assert(f[i - from] == s@[i as int]);
        }
        let d = match digit_of_char(c) {
            Some(d) => d,
            None => {
                proof {
                    assert(!is_dec_digit(f[i - from]));
                }
                return None;
            },
        };
        proof {
            assert(f.take(i - from + 1).drop_last() =~= f.take(i - from));
            assert(f.take(i - from + 1).last() == f[i - from]);
        }
        let next = match acc.checked_mul(10) {
            Some(x) => x.checked_add(d),
            None => None,
        };
        acc = match next {
            Some(y) => y,
            None => {
                proof {
                    assert(digits_val(f.take(i - from + 1)) > u64::MAX);
                    lemma_digits_val_prefix(f, i - from + 1);
                }
                return None;
            },
        };
        i = i + 1;
    }
    proof {
        assert(f.take(to - from) =~= f);
    }
    Some(acc)
}

/// The least index of `c` in `s`, or -1 if `c` does not occur.
pub open spec fn find_char(s: Seq<char>, c: char) -> int
    decreases s.len(),
{
    if s.len() == 0 {
        -1
    } else if s[0] == c {
        0
    } else {
        let r = find_char(s.drop_first(), c);
        if r == -1 {
            -1
        } else {
            r + 1
        }
    }
}

pub proof fn lemma_find_char_props(s: Seq<char>, c: char)
    ensures
        find_char(s, c) == -1 ==> forall|i: int| 0 <= i < s.len() ==> s[i] != c,
        find_char(s, c) != -1 ==> {
            let r = find_char(s, c);
            &&& 0 <= r < s.len()
            &&& s[r] == c
            &&& forall|i: int| 0 <= i < r ==> s[i] != c
        },
    decreases s.len(),
{
    if s.len() > 0 && s[0] != c {
        let t = s.drop_first();
        lemma_find_char_props(t, c);
        let r1 = find_char(t, c);
        if r1 == -1 {
            assert forall|i: int| 0 <= i < s.len() implies s[i] != c by {
                if i > 0 {
                    assert(t[i - 1] != c);
                }
            }
        } else {
            assert(s[r1 + 1] == t[r1]);
            assert forall|i: int| 0 <= i < r1 + 1 implies s[i] != c by {
                if i > 0 {
                    assert(t[i - 1] != c);
                }
            }
        }
    }
}

/// `find_char` is pinned by the least-index characterization.
pub proof fn lemma_find_char_is(s: Seq<char>, c: char, j: int)
    requires
        0 <= j < s.len(),
        s[j] == c,
        forall|i: int| 0 <= i < j ==> s[i] != c,
    ensures
        find_char(s, c) == j,
{
    lemma_find_char_props(s, c);
    let r = find_char(s, c);
    if r == -1 {
        assert(s[j] != c);
    } else if r < j {
        assert(s[r] != c);
    } else if j < r {
        assert(s[j] != c);
    }
}

/// Finds the least occurrence of `c` in `s` at or after `from`.
pub fn find_char_from(s: &str, from: usize, c: char) -> (r: Option<usize>)
    requires
        from <= s@.len(),
    ensures
        match r {
            Some(i) => from <= i < s@.len() && find_char(s@.skip(from as int), c) == i - from,
            None => find_char(s@.skip(from as int), c) == -1,
        },
{
    let ghost t = s@.skip(from as int);
    proof {
        assert(forall|k: int| 0 <= k < t.len() ==> t[k] == s@[from + k]);
    }
    let n = s.unicode_len();
    let mut i = from;
    while i < n
        invariant
            from <= i <= n == s@.len(),
            t == s@.skip(from as int),
            forall|j: int| from <= j < i ==> s@[j] != c,
        decreases n - i,
    {
        if s.get_char(i) == c {
            proof {
                lemma_find_char_is(t, c, i - from);
            }
            return Some(i);
        }
        i = i + 1;
    }
    proof {
        lemma_find_char_props(t, c);
        if find_char(t, c) != -1 {
            let r = find_char(t, c);
            assert(s@[from + r] != c);
        }
    }
    None
}

/// Character-wise equality of two string slices.
pub fn str_eq(a: &str, b: &str) -> (r: bool)
    ensures
        r == (a@ == b@),
{
    let n = a.unicode_len();
    let m = b.unicode_len();
    if n != m {
        return false;
    }
    let mut i: usize = 0;
    while i < n
        invariant
            0 <= i <= n,
            n == a@.len() && n == b@.len(),
            forall|j: int| 0 <= j < i ==> a@[j] == b@[j],
        decreases n - i,
    {
        if a.get_char(i) != b.get_char(i) {
            return false;
        }
        i = i + 1;
    }
    proof {
        assert(a@ =~= b@);
    }
    true
}

/// Whether the characters of `s` between `from` and `to` are exactly `t`.
pub fn range_is(s: &str, from: usize, to: usize, t: &str) -> (r: bool)
    requires
        from <= to <= s@.len(),
    ensures
        r == (s@.subrange(from as int, to as int) == t@),
{
    let ghost f = s@.subrange(from as int, to as int);
    let m = t.unicode_len();
    if to - from != m {
        return false;
    }
    let mut j: usize = 0;
    while j < m
        invariant
            0 <= j <= m == t@.len(),
            from + m == to <= s@.len(),
            f == s@.subrange(from as int, to as int),
            forall|k: int| 0 <= k < j ==> f[k] == t@[k],
        decreases m - j,
    {
        if s.get_char(from + j) != t.get_char(j) {
            proof {
                assert(f[j as int] == s@[from + j]);
            }
            return false;
        }
        proof {
            assert(f[j as int] == s@[from + j]);
        }
        j = j + 1;
    }
    proof {
        assert(f =~= t@);
    }
    true
}

} // verus!
