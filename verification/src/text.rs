//! Character-level text utilities shared by the rest of the library.
//!
//! Strings are modelled by their view, a `Seq<char>`.  The executable helpers
//! here work on `Vec<char>` and `String` and are proved against the spec
//! functions next to them.

use vstd::prelude::*;

verus! {

/// Appends one character to a `String` (`String::push`): the claim is that
/// the text afterwards is the text before followed by `c`.
#[verifier::external_body]
pub(crate) fn push_char(s: &mut String, c: char)
    ensures
        final(s)@ == old(s)@.push(c),
{
    s.push(c);
}

/// The characters of a string slice, in order.
pub fn chars_of(s: &str) -> (v: Vec<char>)
    ensures
        v@ == s@,
{
    let mut v: Vec<char> = Vec::new();
    for c in it: s.chars()
        invariant
            v@ == it.seq().take(it.index() as int),
            it.seq() == s@,
    {
        v.push(c);
    }
    v
}

/// Appends a sequence of characters to a `String`.
pub fn push_chars(s: &mut String, v: &[char])
    ensures
        final(s)@ == old(s)@ + v@,
{
    let ghost start = s@;
    let mut i: usize = 0;
    while i < v.len()
        invariant
            i <= v@.len(),
            s@ == start + v@.take(i as int),
        decreases v@.len() - i,
    {
        push_char(s, v[i]);
        i = i + 1;
        assert(v@.take(i as int) == v@.take((i - 1) as int).push(v@[i - 1]));
    }
    assert(v@.take(v@.len() as int) == v@);
}

/// Builds a `String` whose view is exactly the given characters.
pub fn string_of(v: &[char]) -> (s: String)
    ensures
        s@ == v@,
{
    let mut s = String::new();
    push_chars(&mut s, v);
    s
}

/// Appends a string slice to a `String`.
pub fn push_str(s: &mut String, t: &str)
    ensures
        final(s)@ == old(s)@ + t@,
{
    s.append(t);
}

// ── Decimal digits ──────────────────────────────────────────────────────────

/// The ASCII digit for `d` (`d < 10`).
pub open spec fn digit_char(d: nat) -> char {
    (('0' as nat) + d) as char
}

/// Decimal representation of `n`, without sign or leading zeros ("0" for zero).
pub open spec fn decimal(n: nat) -> Seq<char>
    decreases n,
{
    if n < 10 {
        seq![digit_char(n)]
    } else {
        decimal(n / 10).push(digit_char(n % 10))
    }
}

/// Decimal representation of `n` left-padded with zeros to at least `width` characters.
pub open spec fn zero_padded(n: nat, width: nat) -> Seq<char> {
    let d = decimal(n);
    if d.len() >= width {
        d
    } else {
        Seq::new((width - d.len()) as nat, |i: int| '0') + d
    }
}

/// The characters of `n` in decimal.
pub fn decimal_chars(n: u64) -> (v: Vec<char>)
    ensures
        v@ == decimal(n as nat),
    decreases n,
{
    if n < 10 {
        let mut v: Vec<char> = Vec::new();
        v.push(digit(n));
        v
    } else {
        let mut v = decimal_chars(n / 10);
        v.push(digit(n % 10));
        v
    }
}

fn digit(d: u64) -> (c: char)
    requires
        d < 10,
    ensures
        c == digit_char(d as nat),
{
    if d == 0 { '0' }
    else if d == 1 { '1' }
    else if d == 2 { '2' }
    else if d == 3 { '3' }
    else if d == 4 { '4' }
    else if d == 5 { '5' }
    else if d == 6 { '6' }
    else if d == 7 { '7' }
    else if d == 8 { '8' }
    else { '9' }
}

/// Appends `n` in decimal to a `String`.
pub fn push_decimal(s: &mut String, n: u64)
    ensures
        final(s)@ == old(s)@ + decimal(n as nat),
{
    let v = decimal_chars(n);
    push_chars(s, v.as_slice());
}

/// Appends `n` in decimal, zero-padded to at least `width` characters.
pub fn push_zero_padded(s: &mut String, n: u64, width: usize)
    ensures
        final(s)@ == old(s)@ + zero_padded(n as nat, width as nat),
{
    let v = decimal_chars(n);
    let ghost start = s@;
    if v.len() < width {
        let pad = width - v.len();
        let mut i: usize = 0;
        while i < pad
            invariant
                i <= pad,
                pad == width - v@.len(),
                s@ == start + Seq::new(i as nat, |j: int| '0'),
            decreases pad - i,
        {
            push_char(s, '0');
            i = i + 1;
            assert(Seq::new(i as nat, |j: int| '0') =~= Seq::new((i - 1) as nat, |j: int| '0').push('0'));
        }
    }
    push_chars(s, v.as_slice());
    assert(s@ =~= start + zero_padded(n as nat, width as nat));
}

/// Decimal text of `n` as a `String`.
pub fn decimal_string(n: u64) -> (s: String)
    ensures
        s@ == decimal(n as nat),
{
    let mut s = String::new();
    push_decimal(&mut s, n);
    s
}

/// Whether two character sequences are equal.
pub fn chars_eq(a: &[char], b: &[char]) -> (r: bool)
    ensures
        r == (a@ == b@),
{
    if a.len() != b.len() {
        return false;
    }
    let mut i: usize = 0;
    while i < a.len()
        invariant
            a@.len() == b@.len(),
            i <= a@.len(),
            forall|j: int| 0 <= j < i ==> a@[j] == b@[j],
        decreases a@.len() - i,
    {
        if a[i] != b[i] {
            return false;
        }
        i = i + 1;
    }
    assert(a@ =~= b@);
    true
}

/// Whether a character sequence spells the string slice `t`.
pub fn chars_eq_str(a: &[char], t: &str) -> (r: bool)
    ensures
        r == (a@ == t@),
{
    let b = chars_of(t);
    chars_eq(a, b.as_slice())
}

/// Concatenation of two string slices.
pub fn concat2(a: &str, b: &str) -> (r: String)
    ensures
        r@ == a@ + b@,
{
    let mut r = String::from_str(a);
    r.append(b);
    r
}

/// Concatenation of three string slices.
pub fn concat3(a: &str, b: &str, c: &str) -> (r: String)
    ensures
        r@ == a@ + b@ + c@,
{
    let mut r = String::from_str(a);
    r.append(b);
    r.append(c);
    r
}

/// An identical copy of an optional string.
pub fn clone_opt_string(o: &Option<String>) -> (r: Option<String>)
    ensures
        r == *o,
{
    match o {
        Some(s) => Some(s.clone()),
        None => None,
    }
}

/// An identical copy of a list of strings.
pub fn clone_strings(v: &Vec<String>) -> (r: Vec<String>)
    ensures
        r@ == v@,
{
    let mut r: Vec<String> = Vec::new();
    let mut i: usize = 0;
    while i < v.len()
        invariant
            i <= v@.len(),
            r@ == v@.take(i as int),
        decreases v@.len() - i,
    {
        r.push(v[i].clone());
        i = i + 1;
        assert(r@ =~= v@.take(i as int));
    }
    assert(v@.take(v@.len() as int) =~= v@);
    r
}

/// Decimal representation of a signed integer, with `-` when negative.
pub open spec fn signed_decimal(n: int) -> Seq<char> {
    if n < 0 { seq!['-'] + decimal((-n) as nat) } else { decimal(n as nat) }
}

/// Appends `n` in decimal, with a leading `-` when negative.
pub fn push_signed_decimal(s: &mut String, n: i64)
    ensures
        final(s)@ == old(s)@ + signed_decimal(n as int),
{
    if n < 0 {
        push_char(s, '-');
        let m: u64 = (0i128 - n as i128) as u64;
        push_decimal(s, m);
        assert(s@ =~= old(s)@ + signed_decimal(n as int));
    } else {
        push_decimal(s, n as u64);
    }
}

proof fn lemma_digit_char(k: nat)
    requires
        k < 10,
    ensures
        digit_char(k) as nat == ('0' as nat) + k,
        crate::scan::is_digit(digit_char(k)),
{
    assert(('0' as nat) + k < 0xD800);
}

pub proof fn lemma_decimal_digits(n: nat)
    ensures
        crate::scan::all_digits(decimal(n)),
        crate::scan::digits_value(decimal(n)) == n,
        decimal(n).len() >= 1,
        n < 10 ==> decimal(n).len() == 1,
        n < 100 ==> decimal(n).len() <= 2,
    decreases n,
{
    lemma_digit_char(n % 10);
    if n >= 10 {
        lemma_decimal_digits(n / 10);
        let d = decimal(n);
        assert(d.drop_last() =~= decimal(n / 10));
        assert(d.last() == digit_char(n % 10));
        assert(crate::scan::digits_value(d) == crate::scan::digits_value(decimal(n / 10)) * 10 + (n % 10));
        assert((n / 10) * 10 + n % 10 == n);
        assert(crate::scan::all_digits(d)) by {
            assert forall|i: int| 0 <= i < d.len() implies crate::scan::is_digit(#[trigger] d[i]) by {
                if i < d.len() - 1 {
                    assert(d[i] == decimal(n / 10)[i]);
                }
            }
        }
    } else {
        assert(decimal(n).drop_last() =~= Seq::<char>::empty());
        assert(decimal(n).last() == digit_char(n));
        assert(crate::scan::digits_value(decimal(n)) == crate::scan::digits_value(Seq::<char>::empty()) * 10 + n);
    }
}

proof fn lemma_zeros_value(a: Seq<char>, s: Seq<char>)
    requires
        forall|i: int| 0 <= i < a.len() ==> a[i] == '0',
    ensures
        crate::scan::digits_value(a + s) == crate::scan::digits_value(s),
    decreases s.len() + a.len(),
{
    if s.len() == 0 {
        assert(a + s =~= a);
        if a.len() > 0 {
            assert(a.drop_last() + s =~= a.drop_last());
            lemma_zeros_value(a.drop_last(), s);
            assert(a.drop_last() + s =~= (a + s).drop_last());
        }
    } else {
        assert((a + s).drop_last() =~= a + s.drop_last());
        lemma_zeros_value(a, s.drop_last());
    }
}

pub proof fn lemma_zero_padded(n: nat, w: nat)
    ensures
        crate::scan::all_digits(zero_padded(n, w)),
        crate::scan::digits_value(zero_padded(n, w)) == n,
        zero_padded(n, w).len() >= w,
        n < 100 && w == 2 ==> zero_padded(n, w).len() == 2,
{
    lemma_decimal_digits(n);
    let d = decimal(n);
    if d.len() < w {
        let z = Seq::new((w - d.len()) as nat, |i: int| '0');
        lemma_zeros_value(z, d);
        let p = z + d;
        assert forall|i: int| 0 <= i < p.len() implies crate::scan::is_digit(#[trigger] p[i]) by {
            if i >= z.len() {
                assert(p[i] == d[i - z.len()]);
            }
        }
    }
}

} // verus!
