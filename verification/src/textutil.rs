//! Small string-building helpers shared by the gallery generator and the
//! URL builders: appending a single character, decimal rendering of numbers,
//! and prefix/suffix tests stated over character sequences.

use vstd::prelude::*;
use vstd::string::StrSliceExecFns;
use vstd::string::StringExecFns;

verus! {

/// Relies on String::push: appends exactly the given character at the end.
#[verifier::external_body]
pub fn push_char(s: &mut String, c: char)
    ensures
        final(s)@ == old(s)@.push(c),
{
    s.push(c);
}

/// The character for one decimal digit.
pub open spec fn spec_digit(d: int) -> char {
    if d == 0 {
        '0'
    } else if d == 1 {
        '1'
    } else if d == 2 {
        '2'
    } else if d == 3 {
        '3'
    } else if d == 4 {
        '4'
    } else if d == 5 {
        '5'
    } else if d == 6 {
        '6'
    } else if d == 7 {
        '7'
    } else if d == 8 {
        '8'
    } else {
        '9'
    }
}

/// Decimal rendering of a natural number, most significant digit first.
pub open spec fn spec_dec(n: nat) -> Seq<char>
    decreases n,
{
    if n < 10 {
        seq![spec_digit(n as int)]
    } else {
        spec_dec(n / 10).push(spec_digit((n % 10) as int))
    }
}

fn digit_char(d: u64) -> (c: char)
    requires
        d < 10,
    ensures
        c == spec_digit(d as int),
{
    if d == 0 {
        '0'
    } else if d == 1 {
        '1'
    } else if d == 2 {
        '2'
    } else if d == 3 {
        '3'
    } else if d == 4 {
        '4'
    } else if d == 5 {
        '5'
    } else if d == 6 {
        '6'
    } else if d == 7 {
        '7'
    } else if d == 8 {
        '8'
    } else {
        '9'
    }
}

/// Renders a number in decimal, as `spec_dec` describes.
pub fn dec_u64(n: u64) -> (r: String)
    ensures
        r@ == spec_dec(n as nat),
    decreases n,
{
    if n < 10 {
        let mut r = String::new();
        push_char(&mut r, digit_char(n));
        proof {
            assert(r@ =~= spec_dec(n as nat));
        }
        r
    } else {
        let mut r = dec_u64(n / 10);
        push_char(&mut r, digit_char(n % 10));
        r
    }
}

/// Appends one string to another; the result is the concatenation.
pub fn append_str(s: &mut String, t: &str)
    ensures
        final(s)@ == old(s)@ + t@,
{
    s.append(t);
}

/// Whether `pat` occurs in `s` as the subrange starting at `i`.
pub open spec fn spec_occurs_at(s: Seq<char>, i: int, pat: Seq<char>) -> bool {
    &&& 0 <= i
    &&& i + pat.len() <= s.len()
    &&& s.subrange(i, i + pat.len() as int) == pat
}

/// Decides whether `pat` occurs in `s` at character position `i`.
pub fn str_occurs_at(s: &str, i: usize, pat: &str) -> (r: bool)
    requires
        i + pat@.len() <= s@.len(),
    ensures
        r == spec_occurs_at(s@, i as int, pat@),
{
    let n = pat.unicode_len();
    let sn = s.unicode_len();
    let mut k: usize = 0;
    while k < n
        invariant
            n == pat@.len(),
            sn == s@.len(),
            i + n <= sn,
            0 <= k <= n,
            forall|m: int| 0 <= m < k ==> s@[i + m] == pat@[m],
        decreases n - k,
    {
        if s.get_char(i + k) != pat.get_char(k) {
            proof {
                assert(s@.subrange(i as int, i + pat@.len() as int)[k as int] != pat@[k as int]);
            }
            return false;
        }
        k = k + 1;
    }
    proof {
        assert(s@.subrange(i as int, i + pat@.len() as int) =~= pat@);
    }
    true
}

/// Decides character-for-character equality of two strings.
pub fn str_eq(a: &str, b: &str) -> (r: bool)
    ensures
        r == (a@ == b@),
{
    let la = a.unicode_len();
    let lb = b.unicode_len();
    if la != lb {
        proof {
            assert(a@ != b@);
        }
        return false;
    }
    let r = str_occurs_at(a, 0, b);
    proof {
        assert(a@.subrange(0, a@.len() as int) =~= a@);
    }
    r
}

/// The index of the first occurrence of `c` in `s` at or after `from`, or
/// the length of `s` when there is none.
pub open spec fn spec_find_char(s: Seq<char>, c: char, from: int) -> int
    decreases s.len() - from,
{
    if from < 0 || from >= s.len() {
        s.len() as int
    } else if s[from] == c {
        from
    } else {
        spec_find_char(s, c, from + 1)
    }
}

/// Finds the first occurrence of `c` in `s` at or after `from`, as
/// `spec_find_char` describes; the string's length means no occurrence.
pub fn find_char_from(s: &str, c: char, from: usize) -> (r: usize)
    requires
        from <= s@.len(),
    ensures
        r as int == spec_find_char(s@, c, from as int),
        from <= r <= s@.len(),
        r < s@.len() ==> s@[r as int] == c,
{
    let sn = s.unicode_len();
    let mut i: usize = from;
    while i < sn
        invariant
            sn == s@.len(),
            from <= i <= sn,
            spec_find_char(s@, c, from as int) == spec_find_char(s@, c, i as int),
        decreases sn - i,
    {
        if s.get_char(i) == c {
            return i;
        }
        i = i + 1;
    }
    i
}

/// Whether `pat` is a prefix of `s`.
pub open spec fn spec_has_prefix(s: Seq<char>, pat: Seq<char>) -> bool {
    spec_occurs_at(s, 0, pat)
}

/// Whether `pat` is a suffix of `s`.
pub open spec fn spec_has_suffix(s: Seq<char>, pat: Seq<char>) -> bool {
    s.len() >= pat.len() && spec_occurs_at(s, s.len() - pat.len(), pat)
}

/// Decides whether `pat` is a prefix of `s`.
pub fn str_has_prefix(s: &str, pat: &str) -> (r: bool)
    ensures
        r == spec_has_prefix(s@, pat@),
{
    let n = pat.unicode_len();
    let sn = s.unicode_len();
    if n > sn {
        return false;
    }
    str_occurs_at(s, 0, pat)
}

/// Decides whether `pat` is a suffix of `s`.
pub fn str_has_suffix(s: &str, pat: &str) -> (r: bool)
    ensures
        r == spec_has_suffix(s@, pat@),
{
    let n = pat.unicode_len();
    let sn = s.unicode_len();
    if n > sn {
        return false;
    }
    str_occurs_at(s, sn - n, pat)
}

} // verus!
