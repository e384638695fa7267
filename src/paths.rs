//! Paths as text: joining, the within-root test, base names and the names of
//! timestamped copies.
use vstd::prelude::*;

verus! {

/// `dir` followed by `name`, with one separator between them.
pub open spec fn joined(dir: Seq<char>, name: Seq<char>) -> Seq<char> {
    if dir.len() > 0 && dir.last() == '/' {
        dir + name
    } else {
        dir + seq!['/'] + name
    }
}

/// `p` is `root` itself or lies below it, component by component.
pub open spec fn within(p: Seq<char>, root: Seq<char>) -> bool {
    &&& root.len() <= p.len()
    &&& p.subrange(0, root.len() as int) == root
    &&& (p.len() == root.len() || (root.len() > 0 && root.last() == '/') || p[root.len() as int] == '/')
}

/// `p` begins with the text `root`.
pub open spec fn has_prefix(p: Seq<char>, root: Seq<char>) -> bool {
    root.len() <= p.len() && p.subrange(0, root.len() as int) == root
}

/// Index just after the last separator of `p` (0 where there is none).
pub open spec fn name_start(p: Seq<char>) -> int
    decreases p.len(),
{
    if p.len() == 0 {
        0
    } else if p.last() == '/' {
        p.len() as int
    } else {
        name_start(p.drop_last())
    }
}

/// `p` without its trailing separators and trailing `.` components, which
/// name no component of their own.
pub open spec fn trim_end(p: Seq<char>) -> Seq<char>
    decreases p.len(),
{
    if p.len() > 0 && p.last() == '/' {
        trim_end(p.drop_last())
    } else if p.len() >= 2 && p.last() == '.' && p[p.len() - 2] == '/' {
        trim_end(p.drop_last())
    } else {
        p
    }
}

/// The last component of `p`, after trailing separators and `.` components;
/// none where there is none or it is `.` or `..`.
pub open spec fn base_name(p: Seq<char>) -> Option<Seq<char>> {
    let t = trim_end(p);
    let n = t.subrange(name_start(t), t.len() as int);
    if n.len() == 0 || n == seq!['.', '.'] || n == seq!['.'] {
        None
    } else {
        Some(n)
    }
}

/// The path of the timestamped copy of `p`: in the same folder, with
/// `stamp` put before the base name.
pub open spec fn copy_path(p: Seq<char>, stamp: Seq<char>) -> Option<Seq<char>> {
    let t = trim_end(p);
    match base_name(p) {
        Some(n) => Some(t.subrange(0, name_start(t)) + stamp + n),
        None => None,
    }
}

proof fn lemma_name_start(p: Seq<char>)
    ensures
        0 <= name_start(p) <= p.len(),
        name_start(p) > 0 ==> p[name_start(p) - 1] == '/',
        forall|i: int| name_start(p) <= i < p.len() ==> p[i] != '/',
    decreases p.len(),
{
    if p.len() > 0 && p.last() != '/' {
        let q = p.drop_last();
        lemma_name_start(q);
        assert forall|i: int| name_start(p) <= i < p.len() implies p[i] != '/' by {
            if i < q.len() {
                assert(p[i] == q[i]);
            }
        }
    }
}

/// A path joined under `dir` lies within `dir`.
pub proof fn lemma_joined_within(dir: Seq<char>, name: Seq<char>)
    ensures
        within(joined(dir, name), dir),
{
    let j = joined(dir, name);
    assert(j.subrange(0, dir.len() as int) =~= dir);
    if !(dir.len() > 0 && dir.last() == '/') {
        assert(j[dir.len() as int] == '/');
    }
}

/// `dir` and `name` with one separator between them.
pub fn join_path(dir: &str, name: &str) -> (r: String)
    ensures
        r@ == joined(dir@, name@),
{
    let n = dir.unicode_len();
    let mut r = dir.to_string();
    proof { reveal_strlit("/"); }
    if !(n > 0 && dir.get_char(n - 1) == '/') {
        r.append("/");
    }
    r.append(name);
    r
}

/// Whether `p` is `root` or lies below it.
pub fn is_within(p: &str, root: &str) -> (r: bool)
    ensures
        r == within(p@, root@),
{
    let n = root.unicode_len();
    let m = p.unicode_len();
    if n > m {
        return false;
    }
    let mut i: usize = 0;
    while i < n
        invariant
            n == root@.len(),
            m == p@.len(),
            n <= m,
            0 <= i <= n,
            forall|k: int| 0 <= k < i ==> p@[k] == root@[k],
        decreases n - i,
    {
        if p.get_char(i) != root.get_char(i) {
            assert(p@.subrange(0, n as int)[i as int] != root@[i as int]);
            return false;
        }
        i += 1;
    }
    assert(p@.subrange(0, n as int) =~= root@);
    m == n || (n > 0 && root.get_char(n - 1) == '/') || p.get_char(n) == '/'
}

/// Whether the text of `p` begins with the text of `root`.
pub fn starts_with_text(p: &str, root: &str) -> (r: bool)
    ensures
        r == has_prefix(p@, root@),
{
    let n = root.unicode_len();
    if n > p.unicode_len() {
        return false;
    }
    let mut i: usize = 0;
    while i < n
        invariant
            n == root@.len(),
            n <= p@.len(),
            0 <= i <= n,
            forall|k: int| 0 <= k < i ==> p@[k] == root@[k],
        decreases n - i,
    {
        if p.get_char(i) != root.get_char(i) {
            assert(p@.subrange(0, n as int)[i as int] != root@[i as int]);
            return false;
        }
        i += 1;
    }
    assert(p@.subrange(0, n as int) =~= root@);
    true
}

/// Length of `p` once trailing separators and `.` components are dropped.
fn trimmed_len(p: &str) -> (r: usize)
    ensures
        r <= p@.len(),
        p@.subrange(0, r as int) == trim_end(p@),
{
    let mut j: usize = p.unicode_len();
    assert(p@.subrange(0, j as int) =~= p@);
    while j > 0 && (p.get_char(j - 1) == '/' || (j >= 2 && p.get_char(j - 1) == '.' && p.get_char(j - 2) == '/'))
        invariant
            j <= p@.len(),
            trim_end(p@) == trim_end(p@.subrange(0, j as int)),
        decreases j,
    {
        assert(p@.subrange(0, j as int).drop_last() =~= p@.subrange(0, j - 1));
        j -= 1;
    }
    j
}

/// Index just after the last separator among the first `end` characters
/// of `p`.
fn find_name_start(p: &str, end: usize) -> (r: usize)
    requires
        end <= p@.len(),
    ensures
        r == name_start(p@.subrange(0, end as int)),
{
    let mut i: usize = end;
    assert(p@.subrange(0, end as int).subrange(0, i as int) =~= p@.subrange(0, end as int));
    while i > 0 && p.get_char(i - 1) != '/'
        invariant
            i <= end <= p@.len(),
            name_start(p@.subrange(0, end as int)) == name_start(p@.subrange(0, i as int)),
        decreases i,
    {
        assert(p@.subrange(0, i as int).drop_last() =~= p@.subrange(0, i - 1));
        i -= 1;
    }
    proof {
        if i > 0 {
            assert(p@.subrange(0, i as int).last() == '/');
        }
    }
    i
}

/// The last component of `p`, if it names a file or folder.
pub fn file_name(p: &str) -> (r: Option<String>)
    ensures
        r is None <==> base_name(p@) is None,
        r matches Some(n) ==> base_name(p@) == Some(n@),
{
    let e = trimmed_len(p);
    let s = find_name_start(p, e);
    let ghost t = p@.subrange(0, e as int);
    proof { lemma_name_start(t); }
    let name = p.substring_char(s, e);
    assert(name@ =~= t.subrange(s as int, t.len() as int));
    let k = name.unicode_len();
    if k == 0 {
        return None;
    }
    if k == 2 && name.get_char(0) == '.' && name.get_char(1) == '.' {
        assert(name@ =~= seq!['.', '.']);
        return None;
    }
    if k == 1 && name.get_char(0) == '.' {
        assert(name@ =~= seq!['.']);
        return None;
    }
    proof {
        if name@ == seq!['.', '.'] {
            assert(name@[0] == '.' && name@[1] == '.');
        }
        if name@ == seq!['.'] {
            assert(name@[0] == '.');
        }
    }
    Some(name.to_string())
}

/// The path of the timestamped copy of `p` made with `stamp`.
pub fn timestamped_copy_name(p: &str, stamp: &str) -> (r: Option<String>)
    ensures
        r is None <==> copy_path(p@, stamp@) is None,
        r matches Some(c) ==> copy_path(p@, stamp@) == Some(c@),
{
    match file_name(p) {
        Some(name) => {
            let e = trimmed_len(p);
            let s = find_name_start(p, e);
            let ghost t = p@.subrange(0, e as int);
            proof { lemma_name_start(t); }
            let mut r = p.substring_char(0, s).to_string();
            assert(r@ =~= t.subrange(0, s as int));
            r.append(stamp);
            r.append(name.as_str());
            Some(r)
        }
        None => None,
    }
}

} // verus!
