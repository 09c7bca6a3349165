//! Small string and byte utilities: line counting for diagnostics and
//! decimal rendering of numbers for reports.

use crate::decimal::Dec;
use vstd::prelude::*;

verus! {

/// How often byte `b` occurs in `s`.
pub open spec fn count_byte(s: Seq<u8>, b: u8) -> int
    decreases s.len(),
{
    if s.len() == 0 {
        0
    } else {
        count_byte(s.drop_last(), b) + if s.last() == b {
            1int
        } else {
            0int
        }
    }
}

/// The 1-based line number of byte offset `off` in `text`: one more than
/// the number of newlines before it.
pub open spec fn spec_line_of(text: Seq<u8>, off: int) -> int {
    1 + count_byte(text.take(off), 10)
}

proof fn lemma_count_byte_bound(s: Seq<u8>, b: u8)
    ensures
        0 <= count_byte(s, b) <= s.len(),
    decreases s.len(),
{
    if s.len() > 0 {
        lemma_count_byte_bound(s.drop_last(), b);
    }
}

/// Counts the newlines before `off` and returns the 1-based line number.
pub fn line_of(text: &[u8], off: usize) -> (line: usize)
    requires
        off <= text@.len(),
        text@.len() < usize::MAX,
    ensures
        line == spec_line_of(text@, off as int),
{
    let mut k: usize = 0;
    let mut cnt: usize = 0;
    proof {
        assert(text@.take(0) =~= Seq::<u8>::empty());
    }
    while k < off
        invariant
            k <= off <= text@.len() < usize::MAX,
            cnt == count_byte(text@.take(k as int), 10),
            0 <= cnt <= k,
        decreases off - k,
    {
        proof {
            assert(text@.take(k + 1).drop_last() =~= text@.take(k as int));
            assert(text@.take(k + 1).last() == text@[k as int]);
            lemma_count_byte_bound(text@.take(k as int), 10);
        }
        if text[k] == 10 {
            cnt += 1;
        }
        k += 1;
    }
    1 + cnt
}

/// Whether two byte strings hold the same bytes.
pub fn bytes_eq(a: &[u8], b: &[u8]) -> (r: bool)
    ensures
        r == (a@ == b@),
{
    if a.len() != b.len() {
        assert(a@ != b@);
        return false;
    }
    let n = a.len();
    let mut k: usize = 0;
    while k < n
        invariant
            k <= n,
            n == a@.len() == b@.len(),
            forall|j: int| 0 <= j < k ==> a@[j] == b@[j],
        decreases n - k,
    {
        if a[k] != b[k] {
            return false;
        }
        k += 1;
    }
    proof {
        assert(a@ =~= b@);
    }
    true
}

/// Whether `p@` is a prefix of `s@`, over characters.
pub fn str_starts_with(s: &str, p: &str) -> (r: bool)
    ensures
        r == (s@.len() >= p@.len() && s@.take(p@.len() as int) == p@),
{
    let n = p.unicode_len();
    let sn = s.unicode_len();
    if sn < n {
        return false;
    }
    let mut k: usize = 0;
    while k < n
        invariant
            k <= n == p@.len() <= sn == s@.len(),
            forall|j: int| 0 <= j < k ==> s@[j] == p@[j],
        decreases n - k,
    {
        if s.get_char(k) != p.get_char(k) {
            assert(s@.take(p@.len() as int)[k as int] == s@[k as int]);
            return false;
        }
        k += 1;
    }
    proof {
        assert(s@.take(p@.len() as int) =~= p@);
    }
    true
}

/// The decimal digit characters.
pub open spec fn digit_char(d: int) -> char {
    "0123456789"@[d]
}

/// The decimal digits of `v`, most significant first.
pub open spec fn spec_digits(v: int) -> Seq<char>
    decreases v,
{
    if v < 10 {
        seq![digit_char(v)]
    } else {
        spec_digits(v / 10).push(digit_char(v % 10))
    }
}

/// The decimal rendering of a signed value.
pub open spec fn spec_int_str(v: int) -> Seq<char> {
    if v < 0 {
        seq!['-'] + spec_digits(-v)
    } else {
        spec_digits(v)
    }
}

/// Renders an unsigned number in decimal.
pub fn u64_to_string(v: u64) -> (s: String)
    ensures
        s@ == spec_digits(v as int),
    decreases v,
{
    let ds = "0123456789";
    proof {
        reveal_strlit("0123456789");
    }
    if v < 10 {
        let c = ds.substring_char(v as usize, v as usize + 1);
        proof {
            assert(c@ =~= seq![digit_char(v as int)]);
        }
        String::from_str(c)
    } else {
        let mut s = u64_to_string(v / 10);
        let d = (v % 10) as usize;
        let c = ds.substring_char(d, d + 1);
        proof {
            assert(c@ =~= seq![digit_char((v % 10) as int)]);
        }
        s.append(c);
        proof {
            assert(s@ =~= spec_digits((v / 10) as int).push(digit_char((v % 10) as int)));
        }
        s
    }
}

/// Renders a signed number in decimal.
pub fn i64_to_string(v: i64) -> (s: String)
    ensures
        s@ == spec_int_str(v as int),
{
    if v < 0 {
        let m: u64 = (-(v as i128)) as u64;
        let mut s = String::from_str("-");
        proof {
            reveal_strlit("-");
        }
        let digits = u64_to_string(m);
        s.append(digits.as_str());
        proof {
            assert(s@ =~= seq!['-'] + spec_digits(m as int));
        }
        s
    } else {
        u64_to_string(v as u64)
    }
}

/// Renders a count (a machine-sized value) in decimal.
pub fn usize_to_string(v: usize) -> (s: String)
    ensures
        s@ == spec_digits(v as int),
{
    u64_to_string(v as u64)
}

/// The rendering of a decimal value: sign, mantissa, and a power-of-ten
/// suffix when the exponent is not zero.
pub open spec fn spec_dec_str(d: Dec) -> Seq<char> {
    (if d.neg {
        seq!['-']
    } else {
        Seq::<char>::empty()
    }) + spec_digits(d.mant as int) + if d.exp != 0 {
        seq!['e'] + spec_int_str(d.exp as int)
    } else {
        Seq::<char>::empty()
    }
}

/// Renders a decimal value, as in `-25e-3` for `-0.025`.
pub fn dec_to_string(d: &Dec) -> (s: String)
    ensures
        s@ == spec_dec_str(*d),
{
    let mut s = String::new();
    if d.neg {
        s.append("-");
        proof {
            reveal_strlit("-");
        }
    }
    let m = u64_to_string(d.mant);
    s.append(m.as_str());
    if d.exp != 0 {
        s.append("e");
        proof {
            reveal_strlit("e");
        }
        let e = i64_to_string(d.exp);
        s.append(e.as_str());
    }
    proof {
        assert(s@ =~= spec_dec_str(*d));
    }
    s
}

/// Seconds with two decimals, from milliseconds: `1.23` for 1234 ms.
pub open spec fn spec_secs_str(ms: int) -> Seq<char> {
    spec_digits(ms / 1000) + seq!['.'] + seq![
        digit_char((ms % 1000) / 100),
        digit_char((ms % 100) / 10),
    ]
}

/// Renders a duration in milliseconds as seconds with two decimals.
pub fn millis_to_secs_string(ms: u64) -> (s: String)
    ensures
        s@ == spec_secs_str(ms as int),
{
    let ds = "0123456789";
    proof {
        reveal_strlit("0123456789");
    }
    let mut s = u64_to_string(ms / 1000);
    s.append(".");
    proof {
        reveal_strlit(".");
    }
    let d1 = ((ms % 1000) / 100) as usize;
    let d2 = ((ms % 100) / 10) as usize;
    let c1 = ds.substring_char(d1, d1 + 1);
    s.append(c1);
    let c2 = ds.substring_char(d2, d2 + 1);
    s.append(c2);
    proof {
        assert(s@ =~= spec_secs_str(ms as int));
    }
    s
}

/// The suffix of `s` after the last occurrence of `c` (all of `s` when `c`
/// does not occur).
pub open spec fn after_last(s: Seq<char>, c: char) -> Seq<char>
    decreases s.len(),
{
    if s.len() == 0 {
        s
    } else if s.last() == c {
        Seq::<char>::empty()
    } else {
        after_last(s.drop_last(), c).push(s.last())
    }
}

/// The prefix of `s` before the last occurrence of `c` (all of `s` when
/// `c` does not occur).
pub open spec fn before_last(s: Seq<char>, c: char) -> Seq<char>
    decreases s.len(),
{
    if s.len() == 0 {
        s
    } else if s.last() == c {
        s.drop_last()
    } else {
        before_last(s.drop_last(), c)
    }
}

pub open spec fn contains_char(s: Seq<char>, c: char) -> bool {
    exists|i: int| 0 <= i < s.len() && s[i] == c
}

proof fn lemma_split_at_last(s: Seq<char>, c: char, i: int)
    requires
        0 <= i < s.len(),
        s[i] == c,
        forall|j: int| i < j < s.len() ==> s[j] != c,
    ensures
        after_last(s, c) =~= s.subrange(i + 1, s.len() as int),
        before_last(s, c) =~= s.subrange(0, i),
    decreases s.len(),
{
    if s.len() - 1 == i {
        assert(s.drop_last() =~= s.subrange(0, i));
    } else {
        lemma_split_at_last(s.drop_last(), c, i);
        assert(after_last(s.drop_last(), c).push(s.last()) =~= s.subrange(i + 1, s.len() as int));
        assert(before_last(s.drop_last(), c) =~= s.subrange(0, i));
    }
}

proof fn lemma_no_char(s: Seq<char>, c: char)
    requires
        !contains_char(s, c),
    ensures
        after_last(s, c) =~= s,
    decreases s.len(),
{
    if s.len() > 0 {
        assert(!contains_char(s.drop_last(), c));
        lemma_no_char(s.drop_last(), c);
        assert(after_last(s.drop_last(), c).push(s.last()) =~= s);
    }
}

/// The index of the last occurrence of `c` in `s`, if any.
pub fn find_last_char(s: &str, c: char) -> (r: Option<usize>)
    ensures
        r matches Some(i) ==> i < s@.len() && s@[i as int] == c && forall|j: int|
            i < j < s@.len() ==> s@[j] != c,
        r is None ==> !contains_char(s@, c),
{
    let n = s.unicode_len();
    let mut i: usize = n;
    while i > 0
        invariant
            i <= n == s@.len(),
            forall|j: int| i <= j < s@.len() ==> s@[j] != c,
        decreases i,
    {
        i -= 1;
        if s.get_char(i) == c {
            return Some(i);
        }
    }
    None
}

/// The part of a path after its last separator: the file's own name.
pub fn path_basename(p: &str) -> (r: String)
    ensures
        r@ == after_last(p@, '/'),
{
    let n = p.unicode_len();
    match find_last_char(p, '/') {
        Some(i) => {
            let b = p.substring_char(i + 1, n);
            proof {
                lemma_split_at_last(p@, '/', i as int);
            }
            String::from_str(b)
        },
        None => {
            proof {
                lemma_no_char(p@, '/');
            }
            String::from_str(p)
        },
    }
}

/// Splits a file name at its last dot into stem and extension; a name
/// without a dot has no extension.
pub fn split_extension(b: &str) -> (r: Option<(String, String)>)
    ensures
        r matches Some((stem, ext)) ==> stem@ == before_last(b@, '.') && ext@ == after_last(
            b@,
            '.',
        ),
        r is None ==> !contains_char(b@, '.'),
        r is Some ==> contains_char(b@, '.'),
        contains_char(b@, '.') ==> r is Some,
{
    let n = b.unicode_len();
    match find_last_char(b, '.') {
        Some(i) => {
            proof {
                lemma_split_at_last(b@, '.', i as int);
                assert(contains_char(b@, '.'));
            }
            let stem = b.substring_char(0, i);
            let ext = b.substring_char(i + 1, n);
            Some((String::from_str(stem), String::from_str(ext)))
        },
        None => None,
    }
}

/// Joins two path pieces with a separator.
pub fn path_join(a: &str, b: &str) -> (r: String)
    ensures
        r@ == a@ + seq!['/'] + b@,
{
    let mut s = String::from_str(a);
    s.append("/");
    proof {
        reveal_strlit("/");
        assert("/"@ =~= seq!['/']);
    }
    s.append(b);
    s
}

} // verus!
