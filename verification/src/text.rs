//! Character-level helpers shared by the validators: whitespace trimming,
//! decimal rendering and parsing, and conversions between strings and
//! character vectors.

use vstd::prelude::*;
use vstd::utf8::encode_utf8;

verus! {

/// Length in bytes of the UTF-8 encoding of a character sequence.
pub open spec fn utf8_len(s: Seq<char>) -> nat {
    encode_utf8(s).len()
}

/// The byte length that `str::len` reports for a string with these
/// characters.
pub open spec fn byte_len(s: Seq<char>) -> usize {
    utf8_len(s) as usize
}

/// Properties of the first occurrence of a character.
pub proof fn lemma_first_index_of(s: Seq<char>, c: char)
    ensures
        match first_index_of(s, c) {
            Some(i) => 0 <= i < s.len() && s[i] == c && forall|j: int| 0 <= j < i ==> s[j] != c,
            None => forall|j: int| 0 <= j < s.len() ==> s[j] != c,
        },
    decreases s.len(),
{
    if s.len() > 0 {
        lemma_first_index_of(s.drop_first(), c);
        assert forall|j: int| 1 <= j < s.len() implies s[j] == s.drop_first()[j - 1] by {}
    }
}

/// The Unicode `White_Space` property, which `char::is_whitespace` (and so
/// `str::trim`) tests.
pub open spec fn is_white_space(c: char) -> bool {
    ||| ('\u{9}' <= c && c <= '\u{d}')
    ||| c == ' '
    ||| c == '\u{85}'
    ||| c == '\u{a0}'
    ||| c == '\u{1680}'
    ||| ('\u{2000}' <= c && c <= '\u{200a}')
    ||| c == '\u{2028}'
    ||| c == '\u{2029}'
    ||| c == '\u{202f}'
    ||| c == '\u{205f}'
    ||| c == '\u{3000}'
}

/// The sequence without its leading white space.
pub open spec fn trim_front(s: Seq<char>) -> Seq<char>
    decreases s.len(),
{
    if s.len() > 0 && is_white_space(s[0]) {
        trim_front(s.drop_first())
    } else {
        s
    }
}

/// The sequence without its trailing white space.
pub open spec fn trim_back(s: Seq<char>) -> Seq<char>
    decreases s.len(),
{
    if s.len() > 0 && is_white_space(s.last()) {
        trim_back(s.drop_last())
    } else {
        s
    }
}

/// The sequence without leading and trailing white space, as `str::trim`
/// gives it.
pub open spec fn trim(s: Seq<char>) -> Seq<char> {
    trim_back(trim_front(s))
}

/// The character for a decimal digit.
pub open spec fn digit_char(d: nat) -> char {
    if d == 0 {
        '0'
    } else if d == 1 {
        '1'
    } else if d == 2 {
        '2'
    } else if d == 3 {
        '3'
    } else if d == 4 {
        '4'
    } else if d == 5 {
        '5'
    } else if d == 6 {
        '6'
    } else if d == 7 {
        '7'
    } else if d == 8 {
        '8'
    } else {
        '9'
    }
}

/// The decimal rendering of a natural number, without sign or leading zeros,
/// as `Display` prints integers.
pub open spec fn decimal(n: nat) -> Seq<char>
    decreases n,
{
    if n < 10 {
        seq![digit_char(n)]
    } else {
        decimal(n / 10).push(digit_char(n % 10))
    }
}

/// True for the ASCII digits `0`..`9`.
pub open spec fn is_ascii_digit(c: char) -> bool {
    '0' <= c && c <= '9'
}

/// The value of a sequence of ASCII digits, read in base ten.
pub open spec fn digits_value(s: Seq<char>) -> nat
    decreases s.len(),
{
    if s.len() == 0 {
        0
    } else {
        digits_value(s.drop_last()) * 10 + ((s.last() as nat) - ('0' as nat)) as nat
    }
}

/// True when every character is an ASCII digit.
pub open spec fn all_digits(s: Seq<char>) -> bool {
    forall|i: int| 0 <= i < s.len() ==> is_ascii_digit(#[trigger] s[i])
}

/// The digits that follow an optional leading `+`.
pub open spec fn unsigned_digits(s: Seq<char>) -> Seq<char> {
    if s.len() > 0 && s[0] == '+' {
        s.drop_first()
    } else {
        s
    }
}

/// What `u64::from_str` gives: an optional `+`, then one or more ASCII
/// digits whose value fits in 64 bits.
pub open spec fn parse_u64_spec(s: Seq<char>) -> Option<u64> {
    let d = unsigned_digits(s);
    if d.len() > 0 && all_digits(d) && digits_value(d) <= u64::MAX {
        Some(digits_value(d) as u64)
    } else {
        None
    }
}

/// What `i32::from_str` gives: an optional sign, then one or more ASCII
/// digits whose signed value fits in 32 bits.
pub open spec fn parse_i32_spec(s: Seq<char>) -> Option<i32> {
    if s.len() > 0 && s[0] == '-' {
        let d = s.drop_first();
        if d.len() > 0 && all_digits(d) && digits_value(d) <= 0x8000_0000 {
            Some((0 - digits_value(d)) as i32)
        } else {
            None
        }
    } else {
        let d = unsigned_digits(s);
        if d.len() > 0 && all_digits(d) && digits_value(d) <= i32::MAX {
            Some(digits_value(d) as i32)
        } else {
            None
        }
    }
}

/// Index of the first occurrence of `c`, if any.
pub open spec fn first_index_of(s: Seq<char>, c: char) -> Option<int>
    decreases s.len(),
{
    if s.len() == 0 {
        None
    } else if s[0] == c {
        Some(0)
    } else {
        match first_index_of(s.drop_first(), c) {
            Some(i) => Some(i + 1),
            None => None,
        }
    }
}

/// `String::push`: appends one character to the string.
#[verifier::external_body]
pub(crate) fn string_push(s: &mut String, c: char)
    ensures
        final(s)@ == old(s)@.push(c),
{
    s.push(c);
}

/// Copies the characters of a string slice into a vector.
pub fn str_chars(s: &str) -> (r: Vec<char>)
    ensures
        r@ == s@,
{
    let mut r: Vec<char> = Vec::new();
    for c in it: s.chars()
        invariant
            it.seq() == s@,
            r@ == it.seq().take(it.index() as int),
    {
        r.push(c);
    }
    r
}

/// Builds a string from the characters `v[lo..hi]`.
pub fn chars_to_string(v: &Vec<char>, lo: usize, hi: usize) -> (r: String)
    requires
        lo <= hi <= v@.len(),
    ensures
        r@ == v@.subrange(lo as int, hi as int),
{
    let mut r = String::new();
    let mut i = lo;
    while i < hi
        invariant
            lo <= i <= hi <= v@.len(),
            r@ == v@.subrange(lo as int, i as int),
        decreases hi - i,
    {
        string_push(&mut r, v[i]);
        i = i + 1;
        assert(r@ =~= v@.subrange(lo as int, i as int));
    }
    r
}

/// True when the two character ranges `a[alo..ahi]` and `b` hold the same
/// characters.
pub fn range_equals(a: &Vec<char>, alo: usize, ahi: usize, b: &Vec<char>) -> (r: bool)
    requires
        alo <= ahi <= a@.len(),
    ensures
        r == (a@.subrange(alo as int, ahi as int) == b@),
{
    if ahi - alo != b.len() {
        proof {
            assert(a@.subrange(alo as int, ahi as int).len() != b@.len());
        }
        return false;
    }
    let mut i: usize = 0;
    while i < b.len()
        invariant
            alo <= ahi <= a@.len(),
            ahi - alo == b@.len(),
            i <= b@.len(),
            forall|j: int| 0 <= j < i ==> a@[alo + j] == b@[j],
        decreases b@.len() - i,
    {
        if a[alo + i] != b[i] {
            proof {
                assert(a@.subrange(alo as int, ahi as int)[i as int] != b@[i as int]);
            }
            return false;
        }
        i = i + 1;
    }
    assert(a@.subrange(alo as int, ahi as int) =~= b@);
    true
}

proof fn lemma_trim_front_skip(s: Seq<char>, k: int)
    requires
        0 <= k <= s.len(),
        forall|j: int| 0 <= j < k ==> is_white_space(#[trigger] s[j]),
        k == s.len() || !is_white_space(s[k]),
    ensures
        trim_front(s) == s.skip(k),
    decreases k,
{
    if k == 0 {
        assert(s.skip(0) =~= s);
    } else {
        assert(s.drop_first().skip(k - 1) =~= s.skip(k));
        assert forall|j: int| 0 <= j < k - 1 implies is_white_space(#[trigger] s.drop_first()[j]) by {
            assert(s.drop_first()[j] == s[j + 1]);
        }
        lemma_trim_front_skip(s.drop_first(), k - 1);
    }
}

proof fn lemma_trim_back_take(s: Seq<char>, k: int)
    requires
        0 <= k <= s.len(),
        forall|j: int| k <= j < s.len() ==> is_white_space(#[trigger] s[j]),
        k == 0 || !is_white_space(s[k - 1]),
    ensures
        trim_back(s) == s.take(k),
    decreases s.len() - k,
{
    if k == s.len() {
        assert(s.take(k) =~= s);
    } else {
        assert(s.drop_last().take(k) =~= s.take(k));
        assert forall|j: int| k <= j < s.len() - 1 implies is_white_space(#[trigger] s.drop_last()[j]) by {
            assert(s.drop_last()[j] == s[j]);
        }
        lemma_trim_back_take(s.drop_last(), k);
    }
}

/// White space test for one character, as `char::is_whitespace`.
pub fn is_white_space_char(c: char) -> (r: bool)
    ensures
        r == is_white_space(c),
{
    ('\u{9}' <= c && c <= '\u{d}') || c == ' ' || c == '\u{85}' || c == '\u{a0}' || c == '\u{1680}'
        || ('\u{2000}' <= c && c <= '\u{200a}') || c == '\u{2028}' || c == '\u{2029}' || c
        == '\u{202f}' || c == '\u{205f}' || c == '\u{3000}'
}

/// Bounds of the trimmed part of `v[lo..hi]`: the result `(a, b)` has
/// `v[a..b] == trim(v[lo..hi])`.
pub fn trim_range(v: &Vec<char>, lo: usize, hi: usize) -> (r: (usize, usize))
    requires
        lo <= hi <= v@.len(),
    ensures
        lo <= r.0 <= r.1 <= hi,
        v@.subrange(r.0 as int, r.1 as int) == trim(v@.subrange(lo as int, hi as int)),
{
    let ghost s = v@.subrange(lo as int, hi as int);
    let mut a = lo;
    while a < hi && is_white_space_char(v[a])
        invariant
            lo <= a <= hi <= v@.len(),
            s == v@.subrange(lo as int, hi as int),
            forall|j: int| lo <= j < a ==> is_white_space(#[trigger] v@[j]),
        decreases hi - a,
    {
        a = a + 1;
    }
    proof {
        assert forall|j: int| 0 <= j < a - lo implies is_white_space(#[trigger] s[j]) by {
            assert(s[j] == v@[lo + j]);
        }
        if a < hi {
            assert(s[a - lo] == v@[a as int]);
        }
        lemma_trim_front_skip(s, a - lo);
    }
    let ghost f = s.skip(a - lo);
    assert(f =~= v@.subrange(a as int, hi as int));
    let mut b = hi;
    while b > a && is_white_space_char(v[b - 1])
        invariant
            lo <= a <= b <= hi <= v@.len(),
            f == v@.subrange(a as int, hi as int),
            forall|j: int| b <= j < hi ==> is_white_space(#[trigger] v@[j]),
        decreases b - a,
    {
        b = b - 1;
    }
    proof {
        assert forall|j: int| b - a <= j < f.len() implies is_white_space(#[trigger] f[j]) by {
            assert(f[j] == v@[a + j]);
        }
        if b > a {
            assert(f[b - a - 1] == v@[b - 1]);
        }
        lemma_trim_back_take(f, b - a);
        assert(f.take(b - a) =~= v@.subrange(a as int, b as int));
    }
    (a, b)
}

/// The character for a decimal digit, in exec code.
fn digit_to_char(d: u64) -> (c: char)
    requires
        d < 10,
    ensures
        c == digit_char(d as nat),
{
    if d == 0 {
        '0'
    } else if d == 1 {
        '1'
    } else if d == 2 {
        '2'
    } else if d == 3 {
        '3'
    } else if d == 4 {
        '4'
    } else if d == 5 {
        '5'
    } else if d == 6 {
        '6'
    } else if d == 7 {
        '7'
    } else if d == 8 {
        '8'
    } else {
        '9'
    }
}

/// Appends the decimal rendering of `n` to `s`.
pub fn push_decimal(s: &mut String, n: u64)
    ensures
        final(s)@ == old(s)@ + decimal(n as nat),
    decreases n,
{
    if n < 10 {
        string_push(s, digit_to_char(n));
        assert(final(s)@ =~= old(s)@ + decimal(n as nat));
    } else {
        push_decimal(s, n / 10);
        string_push(s, digit_to_char(n % 10));
        assert(final(s)@ =~= old(s)@ + decimal(n as nat));
    }
}

proof fn lemma_digits_value_push(s: Seq<char>, c: char)
    ensures
        digits_value(s.push(c)) == digits_value(s) * 10 + ((c as nat) - ('0' as nat)) as nat,
{
    assert(s.push(c).drop_last() =~= s);
}

proof fn lemma_digits_value_monotone(s: Seq<char>, k: int)
    requires
        0 <= k <= s.len(),
        all_digits(s),
    ensures
        digits_value(s.take(k)) <= digits_value(s),
    decreases s.len() - k,
{
    if k < s.len() {
        let t = s.take(k + 1);
        assert(t.drop_last() =~= s.take(k));
        assert(is_ascii_digit(s[k]));
        lemma_digits_value_monotone(s, k + 1);
    } else {
        assert(s.take(k) =~= s);
    }
}

/// Reads the digits `v[lo..hi]` as a decimal number; `None` when a character
/// is not a digit or the value exceeds `limit`.
fn digits_to_u64(v: &Vec<char>, lo: usize, hi: usize, limit: u64) -> (r: Option<u64>)
    requires
        lo <= hi <= v@.len(),
        limit >= 9,
    ensures
        ({
            let d = v@.subrange(lo as int, hi as int);
            match r {
                Some(x) => all_digits(d) && digits_value(d) <= limit && x == digits_value(d),
                None => !(all_digits(d) && digits_value(d) <= limit),
            }
        }),
{
    let ghost d = v@.subrange(lo as int, hi as int);
    let mut acc: u64 = 0;
    let mut i = lo;
    while i < hi
        invariant
            lo <= i <= hi <= v@.len(),
            d == v@.subrange(lo as int, hi as int),
            all_digits(d.take(i - lo)),
            acc == digits_value(d.take(i - lo)),
            acc <= limit,
            limit >= 9,
        decreases hi - i,
    {
        let c = v[i];
        assert(d[i - lo] == c);
        if !('0' <= c && c <= '9') {
            assert(!all_digits(d));
            return None;
        }
        let dv = (c as u64) - ('0' as u64);
        assert(d.take(i - lo + 1) =~= d.take(i - lo).push(c));
        proof {
            lemma_digits_value_push(d.take(i - lo), c);
        }
        if acc > (limit - dv) / 10 {
            proof {
                assert(acc * 10 + dv > limit) by (nonlinear_arith)
                    requires
                        acc > (limit - dv) / 10,
                        dv <= 9,
                        dv <= limit,
                ;
                // Any extension of the digits read so far only grows.
                if all_digits(d) {
                    lemma_digits_value_monotone(d, i - lo + 1);
                }
            }
            return None;
        }
        assert(acc * 10 + dv <= limit) by (nonlinear_arith)
            requires
                acc <= (limit - dv) / 10,
                dv <= limit,
        ;
        acc = acc * 10 + dv;
        i = i + 1;
    }
    assert(d.take(hi - lo) =~= d);
    Some(acc)
}

/// `u64::from_str` on the characters `v[lo..hi]`.
pub fn parse_u64_range(v: &Vec<char>, lo: usize, hi: usize) -> (r: Option<u64>)
    requires
        lo <= hi <= v@.len(),
    ensures
        r == parse_u64_spec(v@.subrange(lo as int, hi as int)),
{
    let ghost s = v@.subrange(lo as int, hi as int);
    let mut start = lo;
    if lo < hi && v[lo] == '+' {
        start = lo + 1;
        assert(unsigned_digits(s) =~= v@.subrange(start as int, hi as int));
    } else {
        assert(unsigned_digits(s) =~= v@.subrange(start as int, hi as int));
    }
    if start == hi {
        return None;
    }
    digits_to_u64(v, start, hi, u64::MAX)
}

/// `i32::from_str` on the characters `v[lo..hi]`.
pub fn parse_i32_range(v: &Vec<char>, lo: usize, hi: usize) -> (r: Option<i32>)
    requires
        lo <= hi <= v@.len(),
    ensures
        r == parse_i32_spec(v@.subrange(lo as int, hi as int)),
{
    let ghost s = v@.subrange(lo as int, hi as int);
    if lo < hi && v[lo] == '-' {
        assert(s.drop_first() =~= v@.subrange(lo + 1, hi as int));
        if lo + 1 == hi {
            return None;
        }
        match digits_to_u64(v, lo + 1, hi, 0x8000_0000) {
            Some(x) => {
                let r = (0i64 - (x as i64)) as i32;
                Some(r)
            },
            None => None,
        }
    } else {
        let mut start = lo;
        if lo < hi && v[lo] == '+' {
            start = lo + 1;
        }
        assert(unsigned_digits(s) =~= v@.subrange(start as int, hi as int));
        if start == hi {
            return None;
        }
        match digits_to_u64(v, start, hi, 0x7fff_ffff) {
            Some(x) => Some(x as i32),
            None => None,
        }
    }
}

/// Index of the first `c` in `v[lo..hi]`, counted from `lo`.
pub fn find_char(v: &Vec<char>, lo: usize, hi: usize, c: char) -> (r: Option<usize>)
    requires
        lo <= hi <= v@.len(),
    ensures
        match first_index_of(v@.subrange(lo as int, hi as int), c) {
            Some(k) => 0 <= k < hi - lo && r == Some((lo + k) as usize),
            None => r is None,
        },
{
    proof {
        lemma_first_index_of(v@.subrange(lo as int, hi as int), c);
    }
    let mut i = hi;
    let mut found: Option<usize> = None;
    // Walk backwards so that the invariant follows the recursive definition.
    while i > lo
        invariant
            lo <= i <= hi <= v@.len(),
            match first_index_of(v@.subrange(i as int, hi as int), c) {
                Some(k) => found == Some((i + k) as usize),
                None => found is None,
            },
        decreases i - lo,
    {
        let ghost tail = v@.subrange(i as int, hi as int);
        let ghost ext = v@.subrange(i - 1, hi as int);
        assert(ext.drop_first() =~= tail);
        i = i - 1;
        if v[i] == c {
            found = Some(i);
        }
    }
    found
}

} // verus!
