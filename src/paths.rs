//! Paths as sequences of characters separated by `/`.

use vstd::prelude::*;

verus! {

/// Index of the last `/` in `p`, or `-1` when there is none.
pub open spec fn last_sep(p: Seq<char>) -> int
    decreases p.len(),
{
    if p.len() == 0 {
        -1
    } else if p.last() == '/' {
        p.len() - 1
    } else {
        last_sep(p.drop_last())
    }
}

/// The last component of `p`: everything after its last `/`.
pub open spec fn base_name(p: Seq<char>) -> Seq<char> {
    p.subrange(last_sep(p) + 1, p.len() as int)
}

/// The directory holding `p`: everything before its last `/`, or `/` itself
/// for an entry of the root directory.
pub open spec fn parent_dir(p: Seq<char>) -> Seq<char> {
    if last_sep(p) == 0 {
        seq!['/']
    } else if last_sep(p) < 0 {
        Seq::empty()
    } else {
        p.take(last_sep(p))
    }
}

/// `b` placed inside the directory `a`.
pub open spec fn join(a: Seq<char>, b: Seq<char>) -> Seq<char> {
    if a.len() > 0 && a.last() == '/' {
        a + b
    } else {
        a + seq!['/'] + b
    }
}

/// `dir` written relative to `base`, when `dir` is `base` or lies inside it.
pub open spec fn relative_to(dir: Seq<char>, base: Seq<char>) -> Option<Seq<char>> {
    if dir == base {
        Some(Seq::empty())
    } else if base.len() > 0 && base.last() == '/' && base.is_prefix_of(dir) {
        Some(dir.skip(base.len() as int))
    } else if base.push('/').is_prefix_of(dir) {
        Some(dir.skip(base.len() as int + 1))
    } else {
        None
    }
}

/// Index of the first `.` in `name`, if any.
pub open spec fn first_dot(name: Seq<char>) -> Option<int>
    decreases name.len(),
{
    if name.len() == 0 {
        None
    } else if name[0] == '.' {
        Some(0)
    } else {
        match first_dot(name.drop_first()) {
            Some(i) => Some(i + 1),
            None => None,
        }
    }
}

/// `name` with `-` and `token` inserted just before its first `.`.
pub open spec fn with_token(name: Seq<char>, token: Seq<char>) -> Option<Seq<char>> {
    match first_dot(name) {
        Some(d) => Some(name.take(d) + seq!['-'] + token + name.skip(d)),
        None => None,
    }
}

proof fn lemma_last_sep_bounds(p: Seq<char>)
    ensures
        -1 <= last_sep(p) < p.len(),
        last_sep(p) >= 0 ==> p[last_sep(p)] == '/',
        forall|i: int| last_sep(p) < i < p.len() ==> p[i] != '/',
    decreases p.len(),
{
    if p.len() > 0 && p.last() != '/' {
        lemma_last_sep_bounds(p.drop_last());
        assert forall|i: int| last_sep(p) < i < p.len() implies p[i] != '/' by {
            if i < p.len() - 1 {
                assert(p[i] == p.drop_last()[i]);
            }
        }
    }
}

pub proof fn lemma_first_dot_bounds(name: Seq<char>)
    ensures
        first_dot(name) is Some ==> {
            let d = first_dot(name)->0;
            &&& 0 <= d < name.len()
            &&& name[d] == '.'
            &&& forall|i: int| 0 <= i < d ==> name[i] != '.'
        },
        first_dot(name) is None ==> forall|i: int| 0 <= i < name.len() ==> name[i] != '.',
    decreases name.len(),
{
    if name.len() > 0 && name[0] != '.' {
        lemma_first_dot_bounds(name.drop_first());
        assert forall|i: int| 1 <= i < name.len() implies name[i] == name.drop_first()[i - 1] by {}
    }
}

/// Index of the last `/` in `p`, if any.
pub fn find_last_sep(p: &[char]) -> (r: Option<usize>)
    ensures
        r is Some ==> r->0 == last_sep(p@),
        r is None ==> last_sep(p@) == -1,
{
    proof { lemma_last_sep_bounds(p@); }
    let mut i: usize = p.len();
    while i > 0
        invariant
            i <= p@.len(),
            forall|j: int| i <= j < p@.len() ==> p@[j] != '/',
            last_sep(p@) < p@.len(),
            last_sep(p@) >= 0 ==> p@[last_sep(p@)] == '/',
            forall|j: int| last_sep(p@) < j < p@.len() ==> p@[j] != '/',
        decreases i,
    {
        if p[i - 1] == '/' {
            return Some(i - 1);
        }
        i = i - 1;
    }
    None
}

/// Index of the first `.` in `name`, if any.
pub fn find_first_dot(name: &[char]) -> (r: Option<usize>)
    ensures
        r is Some ==> first_dot(name@) == Some(r->0 as int),
        r is None ==> first_dot(name@) is None,
{
    proof { lemma_first_dot_bounds(name@); }
    let mut i: usize = 0;
    while i < name.len()
        invariant
            i <= name@.len(),
            forall|j: int| 0 <= j < i ==> name@[j] != '.',
        decreases name@.len() - i,
    {
        if name[i] == '.' {
            proof {
                lemma_first_dot_bounds(name@);
                assert(name@[i as int] == '.');
            }
            return Some(i);
        }
        i = i + 1;
    }
    None
}

/// The characters of `p` from `from` to `to`.
pub fn slice_chars(p: &[char], from: usize, to: usize) -> (r: Vec<char>)
    requires
        from <= to <= p@.len(),
    ensures
        r@ == p@.subrange(from as int, to as int),
{
    let mut r: Vec<char> = Vec::new();
    let mut i: usize = from;
    while i < to
        invariant
            from <= i <= to <= p@.len(),
            r@ == p@.subrange(from as int, i as int),
        decreases to - i,
    {
        r.push(p[i]);
        i = i + 1;
        assert(r@ =~= p@.subrange(from as int, i as int));
    }
    r
}

/// Appends `tail` to `out`.
pub fn extend_chars(out: &mut Vec<char>, tail: &[char])
    ensures
        final(out)@ == old(out)@ + tail@,
{
    let mut i: usize = 0;
    while i < tail.len()
        invariant
            i <= tail@.len(),
            out@ == old(out)@ + tail@.take(i as int),
        decreases tail@.len() - i,
    {
        out.push(tail[i]);
        i = i + 1;
        assert(tail@.take(i as int) =~= tail@.take(i - 1).push(tail@[i - 1]));
    }
    assert(tail@.take(i as int) =~= tail@);
}

/// Whether `a` and `b` hold the same characters.
pub fn same_chars(a: &[char], b: &[char]) -> (r: bool)
    ensures
        r == (a@ == b@),
{
    if a.len() != b.len() {
        return false;
    }
    let mut i: usize = 0;
    while i < a.len()
        invariant
            a@.len() == b@.len(),
            i <= a@.len(),
            forall|j: int| 0 <= j < i ==> a@[j] == b@[j],
        decreases a@.len() - i,
    {
        if a[i] != b[i] {
            return false;
        }
        i = i + 1;
    }
    assert(a@ =~= b@);
    true
}

/// Whether `a` begins with `b`.
pub fn starts_with(a: &[char], b: &[char]) -> (r: bool)
    ensures
        r == b@.is_prefix_of(a@),
{
    if b.len() > a.len() {
        return false;
    }
    let mut i: usize = 0;
    while i < b.len()
        invariant
            b@.len() <= a@.len(),
            i <= b@.len(),
            forall|j: int| 0 <= j < i ==> a@[j] == b@[j],
        decreases b@.len() - i,
    {
        if a[i] != b[i] {
            return false;
        }
        i = i + 1;
    }
    true
}

/// The last component of `p`.
pub fn base_name_of(p: &[char]) -> (r: Vec<char>)
    ensures
        r@ == base_name(p@),
{
    proof { lemma_last_sep_bounds(p@); }
    match find_last_sep(p) {
        Some(i) => {
            let n = p.len();
            assert(i < n);
            slice_chars(p, i + 1, n)
        },
        None => slice_chars(p, 0, p.len()),
    }
}

/// The directory holding `p`.
pub fn parent_dir_of(p: &[char]) -> (r: Vec<char>)
    ensures
        r@ == parent_dir(p@),
{
    proof { lemma_last_sep_bounds(p@); }
    match find_last_sep(p) {
        Some(0) => {
            let mut r: Vec<char> = Vec::new();
            r.push('/');
            assert(r@ =~= seq!['/']);
            r
        },
        Some(i) => slice_chars(p, 0, i),
        None => Vec::new(),
    }
}

/// `b` placed inside the directory `a`.
pub fn join_chars(a: &[char], b: &[char]) -> (r: Vec<char>)
    ensures
        r@ == join(a@, b@),
{
    let mut r = slice_chars(a, 0, a.len());
    assert(r@ =~= a@);
    if !(a.len() > 0 && a[a.len() - 1] == '/') {
        r.push('/');
    }
    extend_chars(&mut r, b);
    assert(r@ =~= join(a@, b@));
    r
}

/// `dir` written relative to `base`, when `dir` is `base` or lies inside it.
pub fn relative_to_chars(dir: &[char], base: &[char]) -> (r: Option<Vec<char>>)
    ensures
        r is Some ==> relative_to(dir@, base@) == Some(r->0@),
        r is None ==> relative_to(dir@, base@) is None,
{
    if same_chars(dir, base) {
        return Some(Vec::new());
    }
    if base.len() > 0 && base[base.len() - 1] == '/' && starts_with(dir, base) {
        let r = slice_chars(dir, base.len(), dir.len());
        assert(r@ =~= dir@.skip(base@.len() as int));
        return Some(r);
    }
    let mut prefix = slice_chars(base, 0, base.len());
    prefix.push('/');
    assert(prefix@ =~= base@.push('/'));
    if starts_with(dir, prefix.as_slice()) {
        let r = slice_chars(dir, prefix.len(), dir.len());
        assert(r@ =~= dir@.skip(base@.len() as int + 1));
        Some(r)
    } else {
        None
    }
}

/// `name` with `-` and `token` inserted just before its first `.`.
pub fn with_token_chars(name: &[char], token: &[char]) -> (r: Option<Vec<char>>)
    ensures
        r is Some ==> with_token(name@, token@) == Some(r->0@),
        r is None ==> with_token(name@, token@) is None,
{
    proof { lemma_first_dot_bounds(name@); }
    match find_first_dot(name) {
        Some(d) => {
            let mut r = slice_chars(name, 0, d);
            r.push('-');
            extend_chars(&mut r, token);
            let rest = slice_chars(name, d, name.len());
            extend_chars(&mut r, rest.as_slice());
            assert(r@ =~= name@.take(d as int) + seq!['-'] + token@ + name@.skip(d as int));
            Some(r)
        },
        None => None,
    }
}

} // verus!
