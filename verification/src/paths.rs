//! Unix path strings: joining and the final component, as `std::path` does them.

use vstd::prelude::*;
use crate::split::index_of;

verus! {

/// `Path::join` on Unix: an absolute `p` replaces `base`; otherwise `p` is
/// appended after a `/` unless `base` is empty or already ends with one.
pub open spec fn path_join(base: Seq<char>, p: Seq<char>) -> Seq<char> {
    if p.len() > 0 && p[0] == '/' {
        p
    } else if base.len() > 0 && base.last() != '/' {
        base.push('/') + p
    } else {
        base + p
    }
}

/// Index of the last `/` in `s`, or -1 when there is none.
pub open spec fn last_slash(s: Seq<char>) -> int
    decreases s.len(),
{
    if s.len() == 0 {
        -1
    } else if s.last() == '/' {
        s.len() - 1
    } else {
        last_slash(s.drop_last())
    }
}

/// `Path::file_name`: the last component when it is a normal name.  Empty
/// components and `.` are not components; a final `..` has no file name.
pub open spec fn path_file_name(s: Seq<char>) -> Option<Seq<char>>
    decreases s.len(),
{
    let i = last_slash(s);
    let comp = s.skip(i + 1);
    if comp.len() == 0 || comp == seq!['.'] {
        if i < 0 || i >= s.len() {
            None
        } else {
            path_file_name(s.take(i))
        }
    } else if comp == seq!['.', '.'] {
        None
    } else {
        Some(comp)
    }
}

pub proof fn lemma_last_slash(s: Seq<char>)
    ensures
        -1 <= last_slash(s) < s.len(),
        last_slash(s) >= 0 ==> s[last_slash(s)] == '/',
        forall|j: int| last_slash(s) < j < s.len() ==> s[j] != '/',
    decreases s.len(),
{
    if s.len() > 0 && s.last() != '/' {
        lemma_last_slash(s.drop_last());
        assert forall|j: int| last_slash(s) < j < s.len() implies s[j] != '/' by {
            if j < s.len() - 1 {
                assert(s[j] == s.drop_last()[j]);
            }
        }
    }
}

proof fn lemma_last_slash_at(s: Seq<char>, k: int)
    requires
        -1 <= k < s.len(),
        k >= 0 ==> s[k] == '/',
        forall|j: int| k < j < s.len() ==> s[j] != '/',
    ensures
        last_slash(s) == k,
    decreases s.len(),
{
    if s.len() > 0 && s.last() != '/' {
        assert forall|j: int| k < j < s.drop_last().len() implies s.drop_last()[j] != '/' by {
            assert(s.drop_last()[j] == s[j]);
        }
        if k >= 0 {
            assert(s.drop_last()[k] == s[k]);
        }
        lemma_last_slash_at(s.drop_last(), k);
    }
}

/// `Path::join`.
pub fn join_path(base: &str, p: &str) -> (r: String)
    ensures
        r@ == path_join(base@, p@),
{
    let b = crate::text::chars_of(base);
    let q = crate::text::chars_of(p);
    join_chars(b.as_slice(), q.as_slice())
}

/// `Path::join` on character sequences.
pub fn join_chars(b: &[char], q: &[char]) -> (r: String)
    ensures
        r@ == path_join(b@, q@),
{
    if q.len() > 0 && q[0] == '/' {
        return crate::text::string_of(q);
    }
    let mut r = crate::text::string_of(b);
    if b.len() > 0 && b[b.len() - 1] != '/' {
        crate::text::push_char(&mut r, '/');
    }
    crate::text::push_chars(&mut r, q);
    r
}

/// `Path::file_name` of a path string, as a `String`.
pub fn file_name_of(path: &str) -> (r: Option<String>)
    ensures
        crate::config::opt_view(r) == path_file_name(path@),
{
    let v = crate::text::chars_of(path);
    match file_name(v.as_slice()) {
        Some(n) => Some(crate::text::string_of(n.as_slice())),
        None => None,
    }
}

/// `Path::file_name`.
pub fn file_name(path: &[char]) -> (r: Option<Vec<char>>)
    ensures
        r matches Some(v) ==> path_file_name(path@) == Some(v@),
        r is None ==> path_file_name(path@) is None,
{
    let mut end: usize = path.len();
    assert(path@.take(end as int) =~= path@);
    loop
        invariant
            end <= path@.len(),
            path_file_name(path@.take(end as int)) == path_file_name(path@),
        decreases end,
    {
        let ghost s = path@.take(end as int);
        // find the last '/' before `end`
        let mut i: usize = end;
        while i > 0 && path[i - 1] != '/'
            invariant
                i <= end <= path@.len(),
                forall|j: int| i <= j < end ==> path@[j] != '/',
            decreases i,
        {
            i = i - 1;
        }
        proof {
            let k = i as int - 1;
            assert forall|j: int| k < j < s.len() implies s[j] != '/' by {
                assert(s[j] == path@[j]);
            }
            if k >= 0 {
                assert(s[k] == path@[k]);
            }
            lemma_last_slash_at(s, k);
        }
        let comp = crate::split::slice_chars(path, i, end);
        proof {
            assert(comp@ =~= s.skip(i as int));
        }
        let n = comp.len();
        let is_dot = n == 1 && comp[0] == '.';
        let is_dotdot = n == 2 && comp[0] == '.' && comp[1] == '.';
        proof {
            if is_dot { assert(comp@ =~= seq!['.']); }
            else if n == 1 { assert(comp@[0] != seq!['.'][0]); }
            else { assert(comp@.len() != seq!['.'].len()); }
            if is_dotdot { assert(comp@ =~= seq!['.', '.']); }
            else if n == 2 {
                if comp@[0] != '.' { assert(comp@[0] != seq!['.', '.'][0]); }
                else { assert(comp@[1] != seq!['.', '.'][1]); }
            }
            else { assert(comp@.len() != seq!['.', '.'].len()); }
        }
        if n == 0 || is_dot {
            if i == 0 {
                return None;
            }
            proof {
                assert(s.take(i - 1) =~= path@.take(i - 1));
            }
            end = i - 1;
        } else if is_dotdot {
            return None;
        } else {
            return Some(comp);
        }
    }
}

/// `s` split at every `/`.
pub open spec fn split_slash(s: Seq<char>) -> Seq<Seq<char>>
    decreases s.len(),
{
    let i = index_of(s, '/');
    if i < s.len() {
        seq![s.take(i as int)] + split_slash(s.skip(i as int + 1))
    } else {
        seq![s]
    }
}

/// The names among the pieces between slashes: empty pieces and `.` are
/// not components.
pub open spec fn named_parts(parts: Seq<Seq<char>>) -> Seq<Seq<char>>
    decreases parts.len(),
{
    if parts.len() == 0 {
        seq![]
    } else {
        let rest = named_parts(parts.drop_last());
        let p = parts.last();
        if p.len() == 0 || p == seq!['.'] { rest } else { rest.push(p) }
    }
}

/// `Path::components` on Unix, each as text: `/` for the root, `.` for a
/// leading current-directory component, then the names between slashes.
pub open spec fn path_components(s: Seq<char>) -> Seq<Seq<char>> {
    let root: Seq<Seq<char>> = if s.len() > 0 && s[0] == '/' { seq![seq!['/']] } else { seq![] };
    let cur: Seq<Seq<char>> = if s.len() > 0 && s[0] == '.' && (s.len() == 1 || s[1] == '/') {
        seq![seq!['.']]
    } else {
        seq![]
    };
    root + cur + named_parts(split_slash(s))
}

/// `Path::starts_with`: the components of `base` begin those of `s`.
pub open spec fn path_starts_with(s: Seq<char>, base: Seq<char>) -> bool {
    let a = path_components(s);
    let b = path_components(base);
    b.len() <= a.len() && a.take(b.len() as int) == b
}

proof fn lemma_split_slash_step(s: Seq<char>, p: int, q: int)
    requires
        0 <= p <= q < s.len(),
        s[q] == '/',
        forall|j: int| p <= j < q ==> s[j] != '/',
    ensures
        split_slash(s.skip(p)) == seq![s.subrange(p, q)] + split_slash(s.skip(q + 1)),
{
    let t = s.skip(p);
    assert forall|j: int| 0 <= j < q - p implies t[j] != '/' by {
        assert(t[j] == s[j + p]);
    }
    assert(t[q - p] == s[q]);
    lemma_index_of_exact(t, '/', q - p);
    assert(t.take(q - p) =~= s.subrange(p, q));
    assert(t.skip(q - p + 1) =~= s.skip(q + 1));
}

proof fn lemma_index_of_exact(s: Seq<char>, c: char, k: int)
    requires
        0 <= k <= s.len(),
        forall|j: int| 0 <= j < k ==> s[j] != c,
        k == s.len() || s[k] == c,
    ensures
        index_of(s, c) == k,
    decreases k,
{
    if k > 0 {
        assert forall|j: int| 0 <= j < k - 1 implies s.drop_first()[j] != c by {
            assert(s.drop_first()[j] == s[j + 1]);
        }
        lemma_index_of_exact(s.drop_first(), c, k - 1);
    }
}

/// `named_parts` distributes over concatenation.
proof fn lemma_named_parts_append(a: Seq<Seq<char>>, b: Seq<Seq<char>>)
    ensures
        named_parts(a + b) == named_parts(a) + named_parts(b),
    decreases b.len(),
{
    if b.len() == 0 {
        assert(a + b =~= a);
    } else {
        lemma_named_parts_append(a, b.drop_last());
        assert((a + b).drop_last() =~= a + b.drop_last());
        assert((a + b).last() == b.last());
    }
}

/// The named components of a path.
fn named_components(s: &[char]) -> (r: Vec<Vec<char>>)
    ensures
        crate::split::views(r@) == named_parts(split_slash(s@)),
{
    let mut r: Vec<Vec<char>> = Vec::new();
    let mut p: usize = 0;
    assert(s@.skip(0) =~= s@);
    assert(crate::split::views(r@) =~= Seq::<Seq<char>>::empty());
    loop
        invariant
            p <= s@.len(),
            crate::split::views(r@) + named_parts(split_slash(s@.skip(p as int))) == named_parts(split_slash(s@)),
        decreases s@.len() - p,
    {
        let q = crate::split::index_of_from(s, '/', p);
        let piece = crate::split::slice_chars(s, p, q);
        let keep = !(piece.len() == 0 || (piece.len() == 1 && piece[0] == '.'));
        proof {
            if piece@.len() == 1 && piece@[0] == '.' { assert(piece@ =~= seq!['.']); }
            if piece@.len() == 1 && piece@[0] != '.' { assert(piece@[0] != seq!['.'][0]); }
            if piece@.len() > 1 { assert(piece@.len() != seq!['.'].len()); }
            lemma_named_parts_append(seq![piece@], Seq::<Seq<char>>::empty());
            let one = seq![piece@];
            assert(named_parts(one) == named_parts(one.drop_last()).push(piece@) || named_parts(one) == named_parts(one.drop_last()));
            assert(one.drop_last() =~= Seq::<Seq<char>>::empty());
        }
        let ghost old_r = r@;
        if keep {
            r.push(piece);
        }
        proof {
            let one = seq![piece@];
            if keep {
                assert(named_parts(one) =~= seq![piece@]);
                assert(crate::split::views(r@) =~= crate::split::views(old_r) + named_parts(one));
            } else {
                assert(named_parts(one) =~= Seq::<Seq<char>>::empty());
                assert(crate::split::views(r@) =~= crate::split::views(old_r) + named_parts(one));
            }
        }
        if q == s.len() {
            proof {
                let t = s@.skip(p as int);
                lemma_index_of_exact(t, '/', q - p);
                assert forall|j: int| 0 <= j < q - p implies t[j] != '/' by { assert(t[j] == s@[j + p]); }
                lemma_index_of_exact(t, '/', q - p);
                assert(t =~= piece@);
                assert(split_slash(t) =~= seq![piece@]);
                assert(crate::split::views(r@) =~= crate::split::views(old_r) + named_parts(split_slash(t)));
            }
            return r;
        }
        proof {
            lemma_split_slash_step(s@, p as int, q as int);
            lemma_named_parts_append(seq![piece@], split_slash(s@.skip(q + 1)));
            assert(crate::split::views(r@) + named_parts(split_slash(s@.skip(q + 1)))
                =~= crate::split::views(old_r) + named_parts(split_slash(s@.skip(p as int))));
        }
        p = q + 1;
    }
}

/// `Path::components`, each as text.
pub fn components(s: &[char]) -> (r: Vec<Vec<char>>)
    ensures
        crate::split::views(r@) == path_components(s@),
{
    let mut r: Vec<Vec<char>> = Vec::new();
    if s.len() > 0 && s[0] == '/' {
        let mut root: Vec<char> = Vec::new();
        root.push('/');
        r.push(root);
    }
    if s.len() > 0 && s[0] == '.' && (s.len() == 1 || s[1] == '/') {
        let mut cur: Vec<char> = Vec::new();
        cur.push('.');
        r.push(cur);
    }
    let named = named_components(s);
    let ghost head = crate::split::views(r@);
    let mut i: usize = 0;
    while i < named.len()
        invariant
            i <= named@.len(),
            crate::split::views(r@) == head + crate::split::views(named@).take(i as int),
        decreases named@.len() - i,
    {
        let ghost old_r = r@;
        let piece = crate::split::slice_chars(named[i].as_slice(), 0, named[i].len());
        assert(piece@ =~= named@[i as int]@);
        r.push(piece);
        assert(crate::split::views(r@) =~= crate::split::views(old_r).push(piece@));
        assert(crate::split::views(named@).take(i + 1) =~= crate::split::views(named@).take(i as int).push(named@[i as int]@));
        i = i + 1;
        assert(crate::split::views(r@) =~= head + crate::split::views(named@).take(i as int));
    }
    assert(crate::split::views(named@).take(named@.len() as int) =~= crate::split::views(named@));
    assert(crate::split::views(r@) =~= path_components(s@));
    r
}

/// `Path::starts_with`.
pub fn starts_with_path(s: &str, base: &str) -> (b: bool)
    ensures
        b == path_starts_with(s@, base@),
{
    let x = crate::text::chars_of(s);
    let y = crate::text::chars_of(base);
    let a = components(x.as_slice());
    let c = components(y.as_slice());
    let ghost av = crate::split::views(a@);
    let ghost cv = crate::split::views(c@);
    assert(av.len() == a@.len() && cv.len() == c@.len());
    if c.len() > a.len() {
        return false;
    }
    let mut i: usize = 0;
    while i < c.len()
        invariant
            c@.len() <= a@.len(),
            i <= c@.len(),
            av == crate::split::views(a@),
            cv == crate::split::views(c@),
            av == path_components(s@),
            cv == path_components(base@),
            forall|j: int| 0 <= j < i ==> av[j] == cv[j],
        decreases c@.len() - i,
    {
        assert(av[i as int] == a@[i as int]@ && cv[i as int] == c@[i as int]@);
        if !crate::text::chars_eq(a[i].as_slice(), c[i].as_slice()) {
            proof {
                assert(av.take(cv.len() as int)[i as int] != cv[i as int]);
                assert(av.take(cv.len() as int) != cv);
                assert(av == path_components(s@));
                assert(cv == path_components(base@));
            }
            return false;
        }
        i = i + 1;
    }
    assert(av.take(cv.len() as int) =~= cv);
    true
}

} // verus!
