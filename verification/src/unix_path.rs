//! Unix paths as character strings, read the way `std::path::Path` reads them on
//! Unix: `/` separates components, empty and `.` components are skipped, except
//! that a leading `.` stands for the current directory.
use vstd::prelude::*;
use crate::text::push_chars;

verus! {

/// Length of the head of `p` that trimming never removes: the root `/`, or a
/// leading `.` component.
pub open spec fn head_len(p: Seq<char>) -> int {
    if p.len() > 0 && p[0] == '/' {
        1
    } else if p.len() > 0 && p[0] == '.' && (p.len() == 1 || p[1] == '/') {
        1
    } else {
        0
    }
}

/// `p` without trailing separators and trailing `.` components, never shorter
/// than `head` characters.
pub open spec fn trim_trailing(p: Seq<char>, head: int) -> Seq<char>
    decreases p.len(),
{
    if p.len() == 0 || p.len() <= head {
        p
    } else if p.last() == '/' {
        trim_trailing(p.drop_last(), head)
    } else if p.last() == '.' && p.len() >= 2 && p[p.len() - 2] == '/' {
        trim_trailing(p.drop_last(), head)
    } else {
        p
    }
}

/// Index just past the last `/` of `t`, or 0 when `t` has none.
pub open spec fn last_component_start(t: Seq<char>) -> int
    decreases t.len(),
{
    if t.len() == 0 {
        0
    } else if t.last() == '/' {
        t.len() as int
    } else {
        last_component_start(t.drop_last())
    }
}

/// `p` trimmed of trailing separators and `.` components.
pub open spec fn trimmed(p: Seq<char>) -> Seq<char> {
    trim_trailing(p, head_len(p))
}

/// Whether `p` ends in a normal or `..` component (beyond its root or leading `.`).
pub open spec fn has_last_component(p: Seq<char>) -> bool {
    trimmed(p).len() > head_len(p)
}

/// The last component of `p`, when `has_last_component(p)`.
pub open spec fn last_component(p: Seq<char>) -> Seq<char> {
    trimmed(p).skip(last_component_start(trimmed(p)))
}

/// `Path::is_absolute` on Unix: the path starts at the root.
pub open spec fn is_absolute(p: Seq<char>) -> bool {
    p.len() > 0 && p[0] == '/'
}

/// `Path::file_name`: the last component, unless it is `..`, the root, the
/// current directory, or missing.
pub open spec fn file_name(p: Seq<char>) -> Option<Seq<char>> {
    if has_last_component(p) && last_component(p) != seq!['.', '.'] {
        Some(last_component(p))
    } else {
        None
    }
}

/// `Path::parent`: the path without its last component and the separators before
/// it; `None` for the root and the empty path.
pub open spec fn parent(p: Seq<char>) -> Option<Seq<char>> {
    if has_last_component(p) {
        Some(trim_trailing(trimmed(p).take(last_component_start(trimmed(p))), head_len(p)))
    } else if head_len(p) == 1 && p[0] == '.' {
        Some(Seq::empty())
    } else {
        None
    }
}

/// Index of the last `.` in `name`, or -1 when there is none.
pub open spec fn last_dot(name: Seq<char>) -> int
    decreases name.len(),
{
    if name.len() == 0 {
        -1
    } else if name.last() == '.' {
        name.len() - 1
    } else {
        last_dot(name.drop_last())
    }
}

/// The stem of a file name: the name without its last `.` and what follows it,
/// unless the name has no `.` past its first character.
pub open spec fn stem_of(name: Seq<char>) -> Seq<char> {
    if last_dot(name) <= 0 {
        name
    } else {
        name.take(last_dot(name))
    }
}

/// `Path::file_stem`.
pub open spec fn file_stem(p: Seq<char>) -> Option<Seq<char>> {
    match file_name(p) {
        Some(n) => Some(stem_of(n)),
        None => None,
    }
}

/// `Path::join` on Unix: an absolute `p` replaces `base`; otherwise `p` is
/// appended after a `/`, unless `base` is empty or already ends in one.
pub open spec fn join(base: Seq<char>, p: Seq<char>) -> Seq<char> {
    if is_absolute(p) {
        p
    } else if base.len() > 0 && base.last() != '/' {
        base + seq!['/'] + p
    } else {
        base + p
    }
}

fn head_len_of(p: &[char]) -> (n: usize)
    ensures
        n == head_len(p@),
{
    if p.len() > 0 && p[0] == '/' {
        1
    } else if p.len() > 0 && p[0] == '.' && (p.len() == 1 || p[1] == '/') {
        1
    } else {
        0
    }
}

/// Length `n` with `p[..n] == trim_trailing(p[..end], head)`.
fn trim_trailing_len(p: &[char], end: usize, head: usize) -> (n: usize)
    requires
        end <= p.len(),
    ensures
        n <= end,
        p@.take(n as int) == trim_trailing(p@.take(end as int), head as int),
{
    let mut n = end;
    while n > head && (p[n - 1] == '/' || (p[n - 1] == '.' && n >= 2 && p[n - 2] == '/'))
        invariant
            n <= end <= p.len(),
            trim_trailing(p@.take(n as int), head as int) == trim_trailing(
                p@.take(end as int),
                head as int,
            ),
        decreases n,
    {
        assert(p@.take(n as int).drop_last() == p@.take(n - 1));
        n = n - 1;
    }
    proof {
        let t = p@.take(n as int);
        if n > head {
            assert(t.last() == p@[n - 1]);
            if n >= 2 {
                assert(t[t.len() - 2] == p@[n - 2]);
            }
        }
    }
    n
}

/// `last_component_start(p[..n])`.
fn component_start(p: &[char], n: usize) -> (s: usize)
    requires
        n <= p.len(),
    ensures
        s <= n,
        s == last_component_start(p@.take(n as int)),
{
    let mut k = n;
    while k > 0 && p[k - 1] != '/'
        invariant
            k <= n <= p.len(),
            last_component_start(p@.take(k as int)) == last_component_start(p@.take(n as int)),
        decreases k,
    {
        assert(p@.take(k as int).drop_last() == p@.take(k - 1));
        k = k - 1;
    }
    proof {
        if k > 0 {
            assert(p@.take(k as int).last() == p@[k - 1]);
        }
    }
    k
}

proof fn lemma_take_take(p: Seq<char>, a: int, b: int)
    requires
        0 <= a <= b <= p.len(),
    ensures
        p.take(b).take(a) == p.take(a),
{
    assert(p.take(b).take(a) =~= p.take(a));
}

/// Lengths describing `p`: its head, its trimmed length, and where its last
/// component starts.
fn path_shape(p: &[char]) -> (r: (usize, usize, usize))
    ensures
        r.0 == head_len(p@),
        r.1 <= p@.len(),
        p@.take(r.1 as int) == trimmed(p@),
        r.2 <= r.1,
        r.2 == last_component_start(trimmed(p@)),
{
    let head = head_len_of(p);
    assert(p@.take(p@.len() as int) == p@);
    let t = trim_trailing_len(p, p.len(), head);
    let s = component_start(p, t);
    (head, t, s)
}

/// `Path::is_absolute` on Unix.
pub fn path_is_absolute(p: &[char]) -> (r: bool)
    ensures
        r == is_absolute(p@),
{
    p.len() > 0 && p[0] == '/'
}

/// `Path::file_name`.
pub fn path_file_name(p: &[char]) -> (r: Option<Vec<char>>)
    ensures
        match r {
            Some(n) => file_name(p@) == Some(n@),
            None => file_name(p@) is None,
        },
{
    let (head, t, s) = path_shape(p);
    if t <= head {
        return None;
    }
    let mut out: Vec<char> = Vec::new();
    let mut k = s;
    while k < t
        invariant
            s <= k <= t <= p@.len(),
            out@ == p@.subrange(s as int, k as int),
        decreases t - k,
    {
        out.push(p[k]);
        k = k + 1;
        assert(p@.subrange(s as int, k as int) == p@.subrange(s as int, k - 1).push(p@[k - 1]));
    }
    proof {
        assert(trimmed(p@).skip(s as int) == p@.subrange(s as int, t as int));
    }
    if out.len() == 2 && out[0] == '.' && out[1] == '.' {
        assert(out@ == seq!['.', '.']);
        return None;
    }
    Some(out)
}

/// `Path::parent`.
pub fn path_parent(p: &[char]) -> (r: Option<Vec<char>>)
    ensures
        match r {
            Some(q) => parent(p@) == Some(q@),
            None => parent(p@) is None,
        },
{
    let (head, t, s) = path_shape(p);
    if t <= head {
        if head == 1 && p[0] == '.' {
            return Some(Vec::new());
        }
        return None;
    }
    let n = trim_trailing_len(p, s, head);
    proof {
        lemma_take_take(p@, s as int, t as int);
    }
    let mut out: Vec<char> = Vec::new();
    let mut k: usize = 0;
    while k < n
        invariant
            k <= n <= p@.len(),
            out@ == p@.take(k as int),
        decreases n - k,
    {
        out.push(p[k]);
        k = k + 1;
        assert(p@.take(k as int) == p@.take(k - 1).push(p@[k - 1]));
    }
    Some(out)
}

/// The stem of a file name (see `stem_of`).
pub fn name_stem(name: &[char]) -> (r: Vec<char>)
    ensures
        r@ == stem_of(name@),
{
    let mut k = name.len();
    assert(name@.take(name@.len() as int) == name@);
    while k > 0 && name[k - 1] != '.'
        invariant
            k <= name.len(),
            last_dot(name@.take(k as int)) == last_dot(name@),
        decreases k,
    {
        assert(name@.take(k as int).drop_last() == name@.take(k - 1));
        k = k - 1;
    }
    proof {
        if k > 0 {
            assert(name@.take(k as int).last() == name@[k - 1]);
        }
    }
    let mut out: Vec<char> = Vec::new();
    if k <= 1 {
        push_chars(&mut out, name);
        return out;
    }
    let stop = k - 1;
    let mut i: usize = 0;
    while i < stop
        invariant
            i <= stop < name.len(),
            out@ == name@.take(i as int),
        decreases stop - i,
    {
        out.push(name[i]);
        i = i + 1;
        assert(name@.take(i as int) == name@.take(i - 1).push(name@[i - 1]));
    }
    out
}

/// `Path::file_stem`.
pub fn path_file_stem(p: &[char]) -> (r: Option<Vec<char>>)
    ensures
        match r {
            Some(n) => file_stem(p@) == Some(n@),
            None => file_stem(p@) is None,
        },
{
    match path_file_name(p) {
        Some(n) => Some(name_stem(&n)),
        None => None,
    }
}

/// `Path::join` on Unix.
pub fn path_join(base: &[char], p: &[char]) -> (r: Vec<char>)
    ensures
        r@ == join(base@, p@),
{
    let mut out: Vec<char> = Vec::new();
    if path_is_absolute(p) {
        push_chars(&mut out, p);
        return out;
    }
    push_chars(&mut out, base);
    if base.len() > 0 && base[base.len() - 1] != '/' {
        out.push('/');
    }
    push_chars(&mut out, p);
    out
}

} // verus!
