//! Lexicographic order of character sequences (the order of `str` and of
//! UTF-8 file names) and byte offsets within UTF-8 text.

use vstd::prelude::*;

verus! {

/// `a <= b` in the lexicographic order by code point.
pub open spec fn lex_le(a: Seq<char>, b: Seq<char>) -> bool
    decreases a.len(),
{
    if a.len() == 0 {
        true
    } else if b.len() == 0 {
        false
    } else if a[0] != b[0] {
        a[0] < b[0]
    } else {
        lex_le(a.drop_first(), b.drop_first())
    }
}

/// `a < b` in the lexicographic order by code point.
pub open spec fn lex_lt(a: Seq<char>, b: Seq<char>) -> bool {
    lex_le(a, b) && a != b
}

pub proof fn lemma_lex_reflexive(a: Seq<char>)
    ensures
        lex_le(a, a),
    decreases a.len(),
{
    if a.len() > 0 {
        lemma_lex_reflexive(a.drop_first());
    }
}

pub proof fn lemma_lex_total(a: Seq<char>, b: Seq<char>)
    ensures
        lex_le(a, b) || lex_le(b, a),
    decreases a.len(),
{
    if a.len() > 0 && b.len() > 0 && a[0] == b[0] {
        lemma_lex_total(a.drop_first(), b.drop_first());
    }
}

pub proof fn lemma_lex_antisymmetric(a: Seq<char>, b: Seq<char>)
    requires
        lex_le(a, b),
        lex_le(b, a),
    ensures
        a == b,
    decreases a.len(),
{
    if a.len() > 0 && b.len() > 0 {
        lemma_lex_antisymmetric(a.drop_first(), b.drop_first());
        assert(a =~= seq![a[0]] + a.drop_first());
        assert(b =~= seq![b[0]] + b.drop_first());
    }
}

pub proof fn lemma_lex_transitive(a: Seq<char>, b: Seq<char>, c: Seq<char>)
    requires
        lex_le(a, b),
        lex_le(b, c),
    ensures
        lex_le(a, c),
    decreases a.len(),
{
    if a.len() > 0 && b.len() > 0 && c.len() > 0 && a[0] == b[0] && b[0] == c[0] {
        lemma_lex_transitive(a.drop_first(), b.drop_first(), c.drop_first());
    }
}

/// `lex_le` on characters.
pub fn lex_le_exec(a: &[char], b: &[char]) -> (r: bool)
    ensures
        r == lex_le(a@, b@),
{
    let mut i: usize = 0;
    assert(a@.skip(0) =~= a@ && b@.skip(0) =~= b@);
    while i < a.len() && i < b.len() && a[i] == b[i]
        invariant
            i <= a@.len(),
            i <= b@.len(),
            forall|j: int| 0 <= j < i ==> a@[j] == b@[j],
            lex_le(a@, b@) == lex_le(a@.skip(i as int), b@.skip(i as int)),
        decreases a@.len() - i,
    {
        proof {
            let x = a@.skip(i as int);
            let y = b@.skip(i as int);
            assert(x.drop_first() =~= a@.skip(i + 1));
            assert(y.drop_first() =~= b@.skip(i + 1));
        }
        i = i + 1;
    }
    let ghost x = a@.skip(i as int);
    let ghost y = b@.skip(i as int);
    if i == a.len() {
        true
    } else if i == b.len() {
        false
    } else {
        assert(x[0] == a@[i as int] && y[0] == b@[i as int]);
        a[i] < b[i]
    }
}

// ── UTF-8 byte offsets ──────────────────────────────────────────────────────

/// Bytes taken by `c` in UTF-8.
pub open spec fn utf8_width(c: char) -> nat {
    if (c as u32) < 0x80 {
        1
    } else if (c as u32) < 0x800 {
        2
    } else if (c as u32) < 0x10000 {
        3
    } else {
        4
    }
}

/// `str::get(0..n)`: the leading characters of `s` that take exactly `n`
/// UTF-8 bytes, or `None` when `n` is past the end or inside a character.
pub open spec fn utf8_prefix(s: Seq<char>, n: nat) -> Option<Seq<char>>
    decreases s.len(),
{
    if n == 0 {
        Some(seq![])
    } else if s.len() == 0 || utf8_width(s[0]) > n {
        None
    } else {
        match utf8_prefix(s.drop_first(), (n - utf8_width(s[0])) as nat) {
            Some(rest) => Some(seq![s[0]] + rest),
            None => None,
        }
    }
}

pub fn utf8_width_exec(c: char) -> (w: usize)
    ensures
        w == utf8_width(c),
{
    let u = c as u32;
    if u < 0x80 { 1 } else if u < 0x800 { 2 } else if u < 0x10000 { 3 } else { 4 }
}

/// The characters of `s[from..]` that take exactly `n` UTF-8 bytes.
pub fn utf8_prefix_from(s: &[char], from: usize, n: usize) -> (r: Option<Vec<char>>)
    requires
        from <= s@.len(),
    ensures
        r matches Some(v) ==> utf8_prefix(s@.skip(from as int), n as nat) == Some(v@),
        r is None ==> utf8_prefix(s@.skip(from as int), n as nat) is None,
{
    let mut i = from;
    let mut left = n;
    let mut out: Vec<char> = Vec::new();
    assert(out@ =~= Seq::<char>::empty());
    loop
        invariant
            from <= i <= s@.len(),
            left <= n,
            out@ == s@.subrange(from as int, i as int),
            utf8_prefix(s@.skip(from as int), n as nat) == (match utf8_prefix(s@.skip(i as int), left as nat) {
                Some(rest) => Some(out@ + rest),
                None => None,
            }),
        decreases left,
    {
        let ghost t = s@.skip(i as int);
        if left == 0 {
            assert(out@ + Seq::<char>::empty() =~= out@);
            return Some(out);
        }
        if i == s.len() {
            return None;
        }
        let w = utf8_width_exec(s[i]);
        assert(t[0] == s@[i as int]);
        if w > left {
            return None;
        }
        let ghost old_out = out@;
        out.push(s[i]);
        proof {
            assert(t.drop_first() =~= s@.skip(i + 1));
            match utf8_prefix(t.drop_first(), (left - w) as nat) {
                Some(rest) => {
                    assert(old_out + (seq![s@[i as int]] + rest) =~= out@ + rest);
                }
                None => {}
            }
            assert(out@ =~= s@.subrange(from as int, i + 1));
        }
        i = i + 1;
        left = left - w;
    }
}

} // verus!
