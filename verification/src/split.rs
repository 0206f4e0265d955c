//! Searching and splitting character sequences the way `str` methods do.

use vstd::prelude::*;
use crate::scan::{is_whitespace, is_whitespace_char};

verus! {

/// `str::starts_with` for a string pattern.
pub open spec fn starts_with(s: Seq<char>, p: Seq<char>) -> bool {
    p.len() <= s.len() && s.take(p.len() as int) == p
}

/// `p` occurs in `s` at index `i`.
pub open spec fn occurs_at(s: Seq<char>, p: Seq<char>, i: int) -> bool {
    0 <= i && i + p.len() <= s.len() && s.subrange(i, i + p.len()) == p
}

/// `str::contains` for a string pattern.
pub open spec fn contains(s: Seq<char>, p: Seq<char>) -> bool {
    exists|i: int| occurs_at(s, p, i)
}

/// Index of the first `c` in `s`, or `s.len()` when there is none.
pub open spec fn index_of(s: Seq<char>, c: char) -> nat
    decreases s.len(),
{
    if s.len() == 0 || s[0] == c {
        0
    } else {
        1 + index_of(s.drop_first(), c)
    }
}

/// `str::find` for a string pattern: the first index where `p` occurs.
pub open spec fn find(s: Seq<char>, p: Seq<char>) -> Option<int>
    decreases s.len(),
{
    if p.len() > s.len() {
        None
    } else if s.take(p.len() as int) == p {
        Some(0)
    } else if s.len() == 0 {
        None
    } else {
        match find(s.drop_first(), p) {
            Some(i) => Some(i + 1),
            None => None,
        }
    }
}

pub proof fn lemma_index_of(s: Seq<char>, c: char)
    ensures
        index_of(s, c) <= s.len(),
        index_of(s, c) < s.len() ==> s[index_of(s, c) as int] == c,
        forall|j: int| 0 <= j < index_of(s, c) ==> s[j] != c,
    decreases s.len(),
{
    if s.len() > 0 && s[0] != c {
        lemma_index_of(s.drop_first(), c);
        assert forall|j: int| 0 <= j < index_of(s, c) implies s[j] != c by {
            if j > 0 {
                assert(s[j] == s.drop_first()[j - 1]);
            }
        }
    }
}

pub proof fn lemma_index_of_at(s: Seq<char>, c: char, k: int)
    requires
        0 <= k <= s.len(),
        forall|j: int| 0 <= j < k ==> s[j] != c,
        k == s.len() || s[k] == c,
    ensures
        index_of(s, c) == k,
    decreases k,
{
    if k > 0 {
        assert forall|j: int| 0 <= j < k - 1 implies s.drop_first()[j] != c by {
            assert(s.drop_first()[j] == s[j + 1]);
        }
        lemma_index_of_at(s.drop_first(), c, k - 1);
    }
}

pub proof fn lemma_find(s: Seq<char>, p: Seq<char>)
    ensures
        find(s, p) matches Some(i) ==> occurs_at(s, p, i) && forall|j: int| 0 <= j < i ==> !occurs_at(s, p, j),
        find(s, p) is None ==> !contains(s, p),
    decreases s.len(),
{
    if p.len() > s.len() {
    } else if s.take(p.len() as int) == p {
        assert(s.subrange(0, p.len() as int) == s.take(p.len() as int));
    } else if s.len() == 0 {
        assert(p.len() == 0);
        assert(s.take(0) =~= p);
    } else {
        let t = s.drop_first();
        lemma_find(t, p);
        assert(!occurs_at(s, p, 0)) by {
            assert(s.subrange(0, p.len() as int) == s.take(p.len() as int));
        }
        assert forall|j: int| 1 <= j implies occurs_at(s, p, j) == occurs_at(t, p, j - 1) by {
            if 0 <= j - 1 && j - 1 + p.len() <= t.len() {
                assert(s.subrange(j, j + p.len()) =~= t.subrange(j - 1, j - 1 + p.len()));
            }
        }
        if find(t, p) is None {
            assert forall|j: int| !occurs_at(s, p, j) by {
                if j >= 1 {
                    assert(occurs_at(s, p, j) == occurs_at(t, p, j - 1));
                }
            }
        }
    }
}

/// Whether `p` occurs in `s` at `i`.
pub fn occurs_at_exec(s: &[char], p: &[char], i: usize) -> (b: bool)
    ensures
        b == occurs_at(s@, p@, i as int),
{
    if i > s.len() || p.len() > s.len() - i {
        return false;
    }
    let mut k: usize = 0;
    while k < p.len()
        invariant
            i + p@.len() <= s@.len(),
            k <= p@.len(),
            forall|j: int| 0 <= j < k ==> s@[i + j] == p@[j],
        decreases p@.len() - k,
    {
        assert(i + k < s.len());
        if s[i + k] != p[k] {
            assert(s@.subrange(i as int, i + p@.len())[k as int] != p@[k as int]);
            return false;
        }
        k = k + 1;
    }
    assert(s@.subrange(i as int, i + p@.len()) =~= p@);
    true
}

/// `str::find` for a string pattern.
pub fn find_exec(s: &[char], p: &[char]) -> (r: Option<usize>)
    ensures
        r matches Some(i) ==> find(s@, p@) == Some(i as int),
        r is None ==> find(s@, p@) is None,
{
    proof { lemma_find(s@, p@); }
    if p.len() > s.len() {
        return None;
    }
    let mut i: usize = 0;
    while i <= s.len() - p.len()
        invariant
            p@.len() <= s@.len(),
            i <= s@.len() - p@.len() + 1,
            p@.len() == 0 ==> i == 0,
            forall|j: int| 0 <= j < i ==> !occurs_at(s@, p@, j),
            find(s@, p@) matches Some(w) ==> occurs_at(s@, p@, w) && forall|j: int| 0 <= j < w ==> !occurs_at(s@, p@, j),
            find(s@, p@) is None ==> !contains(s@, p@),
        decreases s@.len() - p@.len() + 1 - i,
    {
        if occurs_at_exec(s, p, i) {
            proof {
                match find(s@, p@) {
                    Some(w) => {
                        if w < i { assert(!occurs_at(s@, p@, w)); }
                        if w > i { assert(!occurs_at(s@, p@, i as int)); }
                    }
                    None => { assert(contains(s@, p@)); }
                }
            }
            return Some(i);
        }
        proof {
            if p@.len() == 0 {
                assert(s@.subrange(i as int, i as int) =~= p@);
            }
        }
        i = i + 1;
    }
    proof {
        match find(s@, p@) {
            Some(w) => {
                assert(occurs_at(s@, p@, w));
                assert(w < i);
            }
            None => {}
        }
    }
    None
}

/// `str::contains` for a string pattern.
pub fn contains_exec(s: &[char], p: &[char]) -> (b: bool)
    ensures
        b == contains(s@, p@),
{
    proof { lemma_find(s@, p@); }
    match find_exec(s, p) {
        Some(i) => {
            assert(occurs_at(s@, p@, i as int));
            true
        }
        None => false,
    }
}

/// `str::starts_with` for a string pattern.
pub fn starts_with_exec(s: &[char], p: &[char]) -> (b: bool)
    ensures
        b == starts_with(s@, p@),
{
    if p.len() > s.len() {
        return false;
    }
    let b = occurs_at_exec(s, p, 0);
    assert(s@.subrange(0, p@.len() as int) == s@.take(p@.len() as int));
    b
}

/// Index of the first `c` at or after `from`, or `s.len()`.
pub fn index_of_from(s: &[char], c: char, from: usize) -> (k: usize)
    requires
        from <= s@.len(),
    ensures
        from <= k <= s@.len(),
        k as int - from == index_of(s@.skip(from as int), c),
        k < s@.len() ==> s@[k as int] == c,
        forall|j: int| from <= j < k ==> s@[j] != c,
{
    let mut k = from;
    while k < s.len() && s[k] != c
        invariant
            from <= k <= s@.len(),
            forall|j: int| from <= j < k ==> s@[j] != c,
        decreases s@.len() - k,
    {
        k = k + 1;
    }
    proof {
        let t = s@.skip(from as int);
        assert forall|j: int| 0 <= j < k - from implies t[j] != c by {
            assert(t[j] == s@[j + from]);
        }
        if k < s@.len() {
            assert(t[k - from] == s@[k as int]);
        }
        lemma_index_of_at(t, c, k - from);
    }
    k
}

// ── Lines ───────────────────────────────────────────────────────────────────

/// A line as `str::lines` yields it: one `\r` before the `\n` is dropped.
pub open spec fn strip_cr(l: Seq<char>) -> Seq<char> {
    if l.len() > 0 && l.last() == '\r' { l.drop_last() } else { l }
}

/// `str::lines`: split at `\n` (dropping a `\r` right before it); a final
/// line ending is optional and yields no extra empty line.
pub open spec fn lines(s: Seq<char>) -> Seq<Seq<char>>
    decreases s.len(),
{
    if s.len() == 0 {
        seq![]
    } else {
        let i = index_of(s, '\n');
        if i < s.len() {
            seq![strip_cr(s.take(i as int))] + lines(s.skip(i as int + 1))
        } else {
            seq![s]
        }
    }
}

/// Views of a vector of character vectors.
pub open spec fn views(v: Seq<Vec<char>>) -> Seq<Seq<char>> {
    v.map_values(|l: Vec<char>| l@)
}

fn copy_range(s: &[char], a: usize, b: usize) -> (t: Vec<char>)
    requires
        a <= b <= s@.len(),
    ensures
        t@ == s@.subrange(a as int, b as int),
{
    let mut t: Vec<char> = Vec::new();
    let mut i = a;
    while i < b
        invariant
            a <= i <= b <= s@.len(),
            t@ == s@.subrange(a as int, i as int),
        decreases b - i,
    {
        t.push(s[i]);
        i = i + 1;
        assert(t@ =~= s@.subrange(a as int, i as int));
    }
    t
}

/// The characters `s[a..b]`.
pub fn slice_chars(s: &[char], a: usize, b: usize) -> (t: Vec<char>)
    requires
        a <= b <= s@.len(),
    ensures
        t@ == s@.subrange(a as int, b as int),
{
    copy_range(s, a, b)
}

/// `str::lines`, on characters.
pub fn lines_exec(s: &[char]) -> (r: Vec<Vec<char>>)
    ensures
        views(r@) == lines(s@),
{
    let mut r: Vec<Vec<char>> = Vec::new();
    let mut p: usize = 0;
    assert(s@.skip(0) =~= s@);
    assert(views(r@) =~= Seq::<Seq<char>>::empty());
    while p < s.len()
        invariant
            p <= s@.len(),
            views(r@) + lines(s@.skip(p as int)) == lines(s@),
        decreases s@.len() - p,
    {
        let ghost t = s@.skip(p as int);
        let q = index_of_from(s, '\n', p);
        let mut end = q;
        if q < s.len() && q > p && s[q - 1] == '\r' {
            end = q - 1;
        }
        let line = copy_range(s, p, end);
        proof {
            let i = index_of(t, '\n');
            assert(i == q - p);
            if q < s@.len() {
                assert(t.take(i as int) =~= s@.subrange(p as int, q as int));
                assert(t.skip(i as int + 1) =~= s@.skip(q + 1));
                assert(line@ =~= strip_cr(t.take(i as int)));
            } else {
                assert(t =~= s@.subrange(p as int, q as int));
            }
        }
        let ghost old_r = r@;
        r.push(line);
        assert(views(r@) =~= views(old_r).push(line@));
        if q < s.len() {
            p = q + 1;
            assert(views(r@) + lines(s@.skip(p as int)) =~= views(old_r) + lines(t));
        } else {
            p = s.len();
            assert(s@.skip(p as int) =~= Seq::<char>::empty());
            assert(views(r@) + lines(s@.skip(p as int)) =~= views(old_r) + lines(t));
        }
    }
    assert(s@.skip(p as int) =~= Seq::<char>::empty());
    assert(views(r@) =~= lines(s@));
    r
}

// ── Whitespace-separated words ──────────────────────────────────────────────

/// Number of leading non-whitespace characters.
pub open spec fn word_len(s: Seq<char>) -> nat
    decreases s.len(),
{
    if s.len() == 0 || is_whitespace(s[0]) {
        0
    } else {
        1 + word_len(s.drop_first())
    }
}

/// `str::split_whitespace`.
pub open spec fn words(s: Seq<char>) -> Seq<Seq<char>>
    decreases s.len(),
{
    let t = crate::scan::trim_start(s);
    if t.len() == 0 {
        seq![]
    } else {
        let k = word_len(t);
        if 0 < k <= t.len() && t.len() <= s.len() {
            seq![t.take(k as int)] + words(t.skip(k as int))
        } else {
            seq![]
        }
    }
}

proof fn lemma_word_len(s: Seq<char>, k: int)
    requires
        0 <= k <= s.len(),
        forall|j: int| 0 <= j < k ==> !is_whitespace(#[trigger] s[j]),
        k == s.len() || is_whitespace(s[k]),
    ensures
        word_len(s) == k,
    decreases k,
{
    if k > 0 {
        assert forall|j: int| 0 <= j < k - 1 implies !is_whitespace(#[trigger] s.drop_first()[j]) by {
            assert(s.drop_first()[j] == s[j + 1]);
        }
        if k < s.len() {
            assert(s.drop_first()[k - 1] == s[k]);
        }
        lemma_word_len(s.drop_first(), k - 1);
    }
}

/// `str::split_whitespace`, on characters.
pub fn words_exec(s: &[char]) -> (r: Vec<Vec<char>>)
    ensures
        views(r@) == words(s@),
{
    let mut r: Vec<Vec<char>> = Vec::new();
    let mut p: usize = 0;
    assert(s@.skip(0) =~= s@);
    assert(views(r@) =~= Seq::<Seq<char>>::empty());
    while p < s.len()
        invariant
            p <= s@.len(),
            views(r@) + words(s@.skip(p as int)) == words(s@),
        decreases s@.len() - p,
    {
        let ghost u = s@.skip(p as int);
        let mut a = p;
        while a < s.len() && is_whitespace_char(s[a])
            invariant
                p <= a <= s@.len(),
                forall|j: int| p <= j < a ==> is_whitespace(#[trigger] s@[j]),
            decreases s@.len() - a,
        {
            a = a + 1;
        }
        proof {
            assert forall|j: int| 0 <= j < a - p implies is_whitespace(#[trigger] u[j]) by {
                assert(u[j] == s@[j + p]);
            }
            if a < s@.len() { assert(u[a - p] == s@[a as int]); }
            crate::scan::lemma_leading_ws_tight(u, a - p);
        }
        if a == s.len() {
            proof {
                assert(crate::scan::trim_start(u).len() == 0);
            }
            p = a;
            assert(s@.skip(p as int) =~= Seq::<char>::empty());
            assert(words(s@.skip(p as int)) == words(u));
        } else {
            let mut b = a;
            while b < s.len() && !is_whitespace_char(s[b])
                invariant
                    a <= b <= s@.len(),
                    forall|j: int| a <= j < b ==> !is_whitespace(#[trigger] s@[j]),
                decreases s@.len() - b,
            {
                b = b + 1;
            }
            let w = copy_range(s, a, b);
            proof {
                let t = crate::scan::trim_start(u);
                assert(t =~= s@.skip(a as int));
                assert forall|j: int| 0 <= j < b - a implies !is_whitespace(#[trigger] t[j]) by {
                    assert(t[j] == s@[j + a]);
                }
                if b < s@.len() { assert(t[b - a] == s@[b as int]); }
                lemma_word_len(t, b - a);
                assert(t.take(b - a) =~= w@);
                assert(t.skip(b - a) =~= s@.skip(b as int));
            }
            let ghost old_r = r@;
            r.push(w);
            assert(views(r@) =~= views(old_r).push(w@));
            p = b;
            assert(views(r@) + words(s@.skip(p as int)) =~= views(old_r) + words(u));
        }
    }
    assert(s@.skip(p as int) =~= Seq::<char>::empty());
    assert(views(r@) =~= words(s@));
    r
}

// ── Splitting at a character ────────────────────────────────────────────────

/// `str::splitn(n, c)`: at most `n` pieces, the last holding the rest.
pub open spec fn splitn(s: Seq<char>, n: nat, c: char) -> Seq<Seq<char>>
    decreases n,
{
    if n == 0 {
        seq![]
    } else if n == 1 {
        seq![s]
    } else {
        let i = index_of(s, c);
        if i < s.len() {
            seq![s.take(i as int)] + splitn(s.skip(i as int + 1), (n - 1) as nat, c)
        } else {
            seq![s]
        }
    }
}

pub proof fn lemma_splitn_len(s: Seq<char>, n: nat, c: char)
    ensures
        n >= 1 ==> splitn(s, n, c).len() >= 1,
        splitn(s, n, c).len() <= n,
    decreases n,
{
    if n > 1 {
        lemma_splitn_len(s.skip(index_of(s, c) as int + 1), (n - 1) as nat, c);
    }
}

/// `str::splitn`, on characters.
pub fn splitn_exec(s: &[char], n: usize, c: char) -> (r: Vec<Vec<char>>)
    ensures
        views(r@) == splitn(s@, n as nat, c),
{
    let mut r: Vec<Vec<char>> = Vec::new();
    if n == 0 {
        assert(views(r@) =~= splitn(s@, 0, c));
        return r;
    }
    let mut p: usize = 0;
    let mut left: usize = n;
    assert(s@.skip(0) =~= s@);
    assert(views(r@) =~= Seq::<Seq<char>>::empty());
    loop
        invariant
            p <= s@.len(),
            1 <= left <= n,
            views(r@) + splitn(s@.skip(p as int), left as nat, c) == splitn(s@, n as nat, c),
        decreases left,
    {
        let ghost u = s@.skip(p as int);
        let ghost old_r = r@;
        if left == 1 {
            let rest = copy_range(s, p, s.len());
            assert(rest@ =~= u);
            r.push(rest);
            assert(views(r@) =~= views(old_r).push(u));
            assert(views(r@) =~= views(old_r) + splitn(u, 1, c));
            return r;
        }
        let q = index_of_from(s, c, p);
        if q == s.len() {
            let rest = copy_range(s, p, s.len());
            assert(rest@ =~= u);
            r.push(rest);
            assert(views(r@) =~= views(old_r) + splitn(u, left as nat, c));
            return r;
        }
        let piece = copy_range(s, p, q);
        proof {
            assert(piece@ =~= u.take(q - p));
            assert(u.skip(q - p + 1) =~= s@.skip(q + 1));
        }
        r.push(piece);
        assert(views(r@) =~= views(old_r).push(piece@));
        p = q + 1;
        left = left - 1;
        assert(views(r@) + splitn(s@.skip(p as int), left as nat, c) =~= views(old_r) + splitn(u, (left + 1) as nat, c));
    }
}

/// `str::ends_with` for a string pattern.
pub open spec fn ends_with(s: Seq<char>, p: Seq<char>) -> bool {
    p.len() <= s.len() && s.skip(s.len() - p.len()) == p
}

/// `str::trim_end_matches` for a non-empty string pattern.
pub open spec fn trim_end_matches(s: Seq<char>, p: Seq<char>) -> Seq<char>
    decreases s.len(),
{
    if p.len() > 0 && ends_with(s, p) {
        trim_end_matches(s.take(s.len() - p.len()), p)
    } else {
        s
    }
}

/// `str::trim_end_matches`, on characters.
pub fn trim_end_matches_exec(s: &[char], p: &[char]) -> (r: Vec<char>)
    ensures
        r@ == trim_end_matches(s@, p@),
{
    let mut end = s.len();
    assert(s@.take(end as int) =~= s@);
    loop
        invariant
            end <= s@.len(),
            trim_end_matches(s@.take(end as int), p@) == trim_end_matches(s@, p@),
        decreases end,
    {
        let t = slice_chars(s, 0, end);
        assert(t@ =~= s@.take(end as int));
        if p.len() > 0 && p.len() <= end && occurs_at_exec(t.as_slice(), p, end - p.len()) {
            assert(t@.subrange(end - p@.len(), end as int) =~= t@.skip(end - p@.len()));
            assert(t@.take(end - p@.len()) =~= s@.take(end - p@.len()));
            end = end - p.len();
        } else {
            proof {
                if p@.len() > 0 && ends_with(t@, p@) {
                    assert(t@.subrange(end - p@.len(), end as int) =~= t@.skip(end - p@.len()));
                }
            }
            return t;
        }
    }
}

/// The piece of `s` between the first and the second occurrence of `p`
/// (or the end): `s.split(p).nth(1)`.
pub open spec fn second_piece(s: Seq<char>, p: Seq<char>) -> Option<Seq<char>> {
    match find(s, p) {
        None => None,
        Some(i) => {
            let rest = s.skip(i + p.len());
            match find(rest, p) {
                Some(j) => Some(rest.take(j)),
                None => Some(rest),
            }
        }
    }
}

/// `s.split(p).nth(1)` for a non-empty pattern.
pub fn second_piece_exec(s: &[char], p: &[char]) -> (r: Option<Vec<char>>)
    requires
        p@.len() > 0,
    ensures
        r matches Some(v) ==> second_piece(s@, p@) == Some(v@),
        r is None ==> second_piece(s@, p@) is None,
{
    proof { lemma_find(s@, p@); }
    match find_exec(s, p) {
        None => None,
        Some(i) => {
            assert(occurs_at(s@, p@, i as int));
            assert(i + p.len() <= s.len());
            let rest = slice_chars(s, i + p.len(), s.len());
            assert(rest@ =~= s@.skip(i + p@.len()));
            match find_exec(rest.as_slice(), p) {
                Some(j) => {
                    proof { lemma_find(rest@, p@); }
                    Some(slice_chars(rest.as_slice(), 0, j))
                }
                None => Some(rest),
            }
        }
    }
}

} // verus!
