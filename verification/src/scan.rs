//! Scanning text: decimal integers, whitespace, case-insensitive comparison.

use vstd::prelude::*;

verus! {

// ── Decimal integers (as `str::parse` reads them) ───────────────────────────

pub open spec fn is_digit(c: char) -> bool {
    '0' <= c && c <= '9'
}

pub open spec fn all_digits(s: Seq<char>) -> bool {
    forall|i: int| 0 <= i < s.len() ==> is_digit(#[trigger] s[i])
}

/// Value of a run of decimal digits.
pub open spec fn digits_value(s: Seq<char>) -> nat
    decreases s.len(),
{
    if s.len() == 0 {
        0
    } else {
        digits_value(s.drop_last()) * 10 + ((s.last() as nat) - ('0' as nat)) as nat
    }
}

/// What `parse::<uN>()` accepts before the range check: an optional `+`,
/// then at least one decimal digit and nothing else.
pub open spec fn parse_unsigned(s: Seq<char>) -> Option<nat> {
    let body = if s.len() > 0 && s[0] == '+' { s.drop_first() } else { s };
    if body.len() > 0 && all_digits(body) {
        Some(digits_value(body))
    } else {
        None
    }
}

/// What `parse::<iN>()` accepts before the range check: an optional sign,
/// then at least one decimal digit and nothing else.
pub open spec fn parse_signed(s: Seq<char>) -> Option<int> {
    if s.len() > 0 && s[0] == '-' {
        let body = s.drop_first();
        if body.len() > 0 && all_digits(body) {
            Some(-(digits_value(body) as int))
        } else {
            None
        }
    } else {
        match parse_unsigned(s) {
            Some(v) => Some(v as int),
            None => None,
        }
    }
}

/// `parse_unsigned` restricted to values no greater than `max`.
pub open spec fn parse_unsigned_upto(s: Seq<char>, max: nat) -> Option<nat> {
    match parse_unsigned(s) {
        Some(v) => if v <= max { Some(v) } else { None },
        None => None,
    }
}

proof fn lemma_digits_value_step(s: Seq<char>, k: int)
    requires
        0 <= k < s.len(),
    ensures
        digits_value(s.take(k + 1)) == digits_value(s.take(k)) * 10 + ((s[k] as nat) - ('0' as nat)) as nat,
{
    assert(s.take(k + 1).drop_last() =~= s.take(k));
}

/// Reads `s[start..]` as decimal digits; `None` on a non-digit, on an empty
/// run, or when the value exceeds `max`.
fn digits_upto(s: &[char], start: usize, max: u64) -> (r: Option<u64>)
    requires
        start <= s@.len(),
    ensures
        r == (if s@.len() > start && all_digits(s@.skip(start as int)) && digits_value(s@.skip(start as int)) <= max {
            Some(digits_value(s@.skip(start as int)) as u64)
        } else {
            None
        }),
{
    let ghost body = s@.skip(start as int);
    if start >= s.len() {
        return None;
    }
    let mut acc: u128 = 0;
    let mut too_big = false;
    let mut i: usize = start;
    while i < s.len()
        invariant
            start <= i <= s@.len(),
            body == s@.skip(start as int),
            all_digits(body.take(i - start)),
            !too_big ==> acc == digits_value(body.take(i - start)) && acc <= max,
            too_big ==> digits_value(body.take(i - start)) > max,
        decreases s@.len() - i,
    {
        let c = s[i];
        if !('0' <= c && c <= '9') {
            assert(body[i - start] == c);
            assert(!all_digits(body));
            return None;
        }
        let d = (c as u32 - '0' as u32) as u128;
        proof {
            lemma_digits_value_step(body, i - start);
            assert(body[i - start] == c);
        }
        if !too_big {
            acc = acc * 10 + d;
            if acc > max as u128 {
                too_big = true;
            }
        }
        i = i + 1;
        assert(body.take(i - start) =~= body.take(i - start - 1).push(c));
    }
    assert(body.take(i - start) =~= body);
    if too_big {
        None
    } else {
        Some(acc as u64)
    }
}

/// `parse::<uN>()` for a type whose largest value is `max`.
pub fn parse_unsigned_chars(s: &[char], max: u64) -> (r: Option<u64>)
    ensures
        r == (match parse_unsigned_upto(s@, max as nat) {
            Some(v) => Some(v as u64),
            None => None,
        }),
{
    if s.len() > 0 && s[0] == '+' {
        assert(s@.skip(1) =~= s@.drop_first());
        digits_upto(s, 1, max)
    } else {
        assert(s@.skip(0) =~= s@);
        digits_upto(s, 0, max)
    }
}

/// `parse::<u8>()`.
pub fn parse_u8(s: &[char]) -> (r: Option<u8>)
    ensures
        r == (match parse_unsigned_upto(s@, 255) {
            Some(v) => Some(v as u8),
            None => None,
        }),
{
    match parse_unsigned_chars(s, 255) {
        Some(v) => Some(v as u8),
        None => None,
    }
}

/// `parse::<u32>()`.
pub fn parse_u32(s: &[char]) -> (r: Option<u32>)
    ensures
        r == (match parse_unsigned_upto(s@, 0xffff_ffff) {
            Some(v) => Some(v as u32),
            None => None,
        }),
{
    match parse_unsigned_chars(s, 0xffff_ffff) {
        Some(v) => Some(v as u32),
        None => None,
    }
}

/// `parse::<u64>()`.
pub fn parse_u64(s: &[char]) -> (r: Option<u64>)
    ensures
        r == (match parse_unsigned_upto(s@, 0xffff_ffff_ffff_ffff) {
            Some(v) => Some(v as u64),
            None => None,
        }),
{
    parse_unsigned_chars(s, 0xffff_ffff_ffff_ffff)
}

/// `parse::<i32>()`.
pub fn parse_i32(s: &[char]) -> (r: Option<i32>)
    ensures
        r == (match parse_signed(s@) {
            Some(v) => if i32::MIN <= v <= i32::MAX { Some(v as i32) } else { None },
            None => None,
        }),
{
    if s.len() > 0 && s[0] == '-' {
        assert(s@.skip(1) =~= s@.drop_first());
        match digits_upto(s, 1, 0x8000_0000) {
            Some(v) => Some((0 - (v as i64)) as i32),
            None => None,
        }
    } else {
        match parse_unsigned_chars(s, 0x7fff_ffff) {
            Some(v) => Some(v as i32),
            None => None,
        }
    }
}


// ── Whitespace ──────────────────────────────────────────────────────────────

/// `char::is_whitespace`: the Unicode `White_Space` property.
pub open spec fn is_whitespace(c: char) -> bool {
    ||| c == '\t'
    ||| c == '\n'
    ||| c == '\u{0B}'
    ||| c == '\u{0C}'
    ||| c == '\r'
    ||| c == ' '
    ||| c == '\u{85}'
    ||| c == '\u{A0}'
    ||| c == '\u{1680}'
    ||| ('\u{2000}' <= c && c <= '\u{200A}')
    ||| c == '\u{2028}'
    ||| c == '\u{2029}'
    ||| c == '\u{202F}'
    ||| c == '\u{205F}'
    ||| c == '\u{3000}'
}

pub fn is_whitespace_char(c: char) -> (b: bool)
    ensures
        b == is_whitespace(c),
{
    c == '\t' || c == '\n' || c == '\u{0B}' || c == '\u{0C}' || c == '\r' || c == ' '
        || c == '\u{85}' || c == '\u{A0}' || c == '\u{1680}' || ('\u{2000}' <= c && c <= '\u{200A}')
        || c == '\u{2028}' || c == '\u{2029}' || c == '\u{202F}' || c == '\u{205F}'
        || c == '\u{3000}'
}

/// Number of leading whitespace characters.
pub open spec fn leading_ws(s: Seq<char>) -> nat
    decreases s.len(),
{
    if s.len() == 0 || !is_whitespace(s[0]) {
        0
    } else {
        1 + leading_ws(s.drop_first())
    }
}

/// Number of trailing whitespace characters.
pub open spec fn trailing_ws(s: Seq<char>) -> nat
    decreases s.len(),
{
    if s.len() == 0 || !is_whitespace(s.last()) {
        0
    } else {
        1 + trailing_ws(s.drop_last())
    }
}

/// `str::trim_start`.
pub open spec fn trim_start(s: Seq<char>) -> Seq<char> {
    s.skip(leading_ws(s) as int)
}

/// `str::trim_end`.
pub open spec fn trim_end(s: Seq<char>) -> Seq<char> {
    s.take(s.len() - trailing_ws(s))
}

/// `str::trim`.
pub open spec fn trim(s: Seq<char>) -> Seq<char> {
    trim_end(trim_start(s))
}

proof fn lemma_leading_ws(s: Seq<char>, k: int)
    requires
        0 <= k <= s.len(),
        forall|j: int| 0 <= j < k ==> is_whitespace(#[trigger] s[j]),
        k == s.len() || !is_whitespace(s[k]),
    ensures
        leading_ws(s) == k,
    decreases k,
{
    if k > 0 {
        assert forall|j: int| 0 <= j < k - 1 implies is_whitespace(#[trigger] s.drop_first()[j]) by {
            assert(s.drop_first()[j] == s[j + 1]);
        }
        if k < s.len() {
            assert(s.drop_first()[k - 1] == s[k]);
        }
        lemma_leading_ws(s.drop_first(), k - 1);
    }
}

proof fn lemma_trailing_ws(s: Seq<char>, k: int)
    requires
        0 <= k <= s.len(),
        forall|j: int| k <= j < s.len() ==> is_whitespace(#[trigger] s[j]),
        k == 0 || !is_whitespace(s[k - 1]),
    ensures
        trailing_ws(s) == s.len() - k,
    decreases s.len() - k,
{
    if k < s.len() {
        assert forall|j: int| k <= j < s.len() - 1 implies is_whitespace(#[trigger] s.drop_last()[j]) by {
            assert(s.drop_last()[j] == s[j]);
        }
        if k > 0 {
            assert(s.drop_last()[k - 1] == s[k - 1]);
        }
        lemma_trailing_ws(s.drop_last(), k);
    }
}

pub proof fn lemma_leading_ws_tight(s: Seq<char>, k: int)
    requires
        0 <= k <= s.len(),
        forall|j: int| 0 <= j < k ==> is_whitespace(#[trigger] s[j]),
        k == s.len() || !is_whitespace(s[k]),
    ensures
        leading_ws(s) == k,
        trim_start(s) == s.skip(k),
{
    lemma_leading_ws(s, k);
}

pub proof fn lemma_leading_ws_bound(s: Seq<char>)
    ensures
        leading_ws(s) <= s.len(),
    decreases s.len(),
{
    if s.len() > 0 && is_whitespace(s[0]) {
        lemma_leading_ws_bound(s.drop_first());
    }
}

pub proof fn lemma_trailing_ws_bound(s: Seq<char>)
    ensures
        trailing_ws(s) <= s.len(),
    decreases s.len(),
{
    if s.len() > 0 && is_whitespace(s.last()) {
        lemma_trailing_ws_bound(s.drop_last());
    }
}

/// Index of the first non-whitespace character at or after `from` (or `s.len()`).
fn skip_ws(s: &[char], from: usize) -> (k: usize)
    requires
        from <= s@.len(),
    ensures
        from <= k <= s@.len(),
        forall|j: int| from <= j < k ==> is_whitespace(#[trigger] s@[j]),
        k == s@.len() || !is_whitespace(s@[k as int]),
{
    let mut k = from;
    while k < s.len() && is_whitespace_char(s[k])
        invariant
            from <= k <= s@.len(),
            forall|j: int| from <= j < k ==> is_whitespace(#[trigger] s@[j]),
        decreases s@.len() - k,
    {
        k = k + 1;
    }
    k
}

/// `str::trim`, on characters.
pub fn trim_chars(s: &[char]) -> (t: Vec<char>)
    ensures
        t@ == trim(s@),
{
    let a = skip_ws(s, 0);
    proof { lemma_leading_ws(s@, a as int); }
    let mut b = s.len();
    while b > a && is_whitespace_char(s[b - 1])
        invariant
            a <= b <= s@.len(),
            forall|j: int| b <= j < s@.len() ==> is_whitespace(#[trigger] s@[j]),
        decreases b,
    {
        b = b - 1;
    }
    let ghost ts = trim_start(s@);
    proof {
        assert(ts =~= s@.skip(a as int));
        assert forall|j: int| b - a <= j < ts.len() implies is_whitespace(#[trigger] ts[j]) by {
            assert(ts[j] == s@[j + a]);
        }
        if b > a {
            assert(ts[b - a - 1] == s@[b - 1]);
        }
        lemma_trailing_ws(ts, b - a);
    }
    let mut t: Vec<char> = Vec::new();
    let mut i = a;
    while i < b
        invariant
            a <= i <= b,
            b <= s@.len(),
            t@ == s@.subrange(a as int, i as int),
        decreases b - i,
    {
        t.push(s[i]);
        i = i + 1;
        assert(t@ =~= s@.subrange(a as int, i as int));
    }
    assert(t@ =~= trim(s@));
    t
}

/// `str::trim` on a string slice, as characters.
pub fn trimmed(s: &str) -> (t: Vec<char>)
    ensures
        t@ == trim(s@),
{
    let v = crate::text::chars_of(s);
    trim_chars(v.as_slice())
}

// ── ASCII case ──────────────────────────────────────────────────────────────

/// `char::to_ascii_lowercase`.
pub open spec fn ascii_lower(c: char) -> char {
    if 'A' <= c && c <= 'Z' {
        ((c as u32) + 32) as char
    } else {
        c
    }
}

/// `str::to_ascii_lowercase`.
pub open spec fn ascii_lowercase(s: Seq<char>) -> Seq<char> {
    s.map_values(|c: char| ascii_lower(c))
}

/// `str::eq_ignore_ascii_case`.
pub open spec fn eq_ignore_ascii_case(a: Seq<char>, b: Seq<char>) -> bool {
    ascii_lowercase(a) == ascii_lowercase(b)
}

pub fn ascii_lower_char(c: char) -> (r: char)
    ensures
        r == ascii_lower(c),
{
    if 'A' <= c && c <= 'Z' {
        let b: u8 = (c as u8) + 32;
        let r = b as char;
        assert(r == ((c as u32) + 32) as char);
        r
    } else {
        c
    }
}

/// `str::eq_ignore_ascii_case`, on characters.
pub fn chars_eq_ignore_ascii_case(a: &[char], b: &[char]) -> (r: bool)
    ensures
        r == eq_ignore_ascii_case(a@, b@),
{
    if a.len() != b.len() {
        proof {
            assert(ascii_lowercase(a@).len() != ascii_lowercase(b@).len());
        }
        return false;
    }
    let mut i: usize = 0;
    while i < a.len()
        invariant
            a@.len() == b@.len(),
            i <= a@.len(),
            forall|j: int| 0 <= j < i ==> ascii_lower(#[trigger] a@[j]) == ascii_lower(b@[j]),
        decreases a@.len() - i,
    {
        if ascii_lower_char(a[i]) != ascii_lower_char(b[i]) {
            proof {
                assert(ascii_lowercase(a@)[i as int] != ascii_lowercase(b@)[i as int]);
            }
            return false;
        }
        i = i + 1;
    }
    assert(ascii_lowercase(a@) =~= ascii_lowercase(b@));
    true
}

/// `str::eq_ignore_ascii_case` on two string slices.
pub fn str_eq_ignore_ascii_case(a: &str, b: &str) -> (r: bool)
    ensures
        r == eq_ignore_ascii_case(a@, b@),
{
    let x = crate::text::chars_of(a);
    let y = crate::text::chars_of(b);
    chars_eq_ignore_ascii_case(x.as_slice(), y.as_slice())
}

/// `str::to_ascii_lowercase`, on characters.
pub fn ascii_lowercase_chars(s: &[char]) -> (r: Vec<char>)
    ensures
        r@ == ascii_lowercase(s@),
{
    let mut r: Vec<char> = Vec::new();
    let mut i: usize = 0;
    while i < s.len()
        invariant
            i <= s@.len(),
            r@ == ascii_lowercase(s@.take(i as int)),
        decreases s@.len() - i,
    {
        let c = ascii_lower_char(s[i]);
        r.push(c);
        i = i + 1;
        assert(ascii_lowercase(s@.take(i as int)) =~= ascii_lowercase(s@.take((i - 1) as int)).push(c));
    }
    assert(s@.take(s@.len() as int) =~= s@);
    r
}

} // verus!
