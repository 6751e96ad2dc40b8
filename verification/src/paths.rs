//! Pure path-string logic: paths are UTF-8 strings whose segments are
//! separated by `'/'`. Base names, prefix splitting and separator rewriting
//! are defined here as spec functions with verified executable counterparts.

use vstd::prelude::*;
use vstd::string::*;

verus! {

/// The path separator.
pub open spec fn sep() -> char {
    '/'
}

/// `p` with every trailing separator removed.
pub open spec fn strip_trailing_seps(p: Seq<char>) -> Seq<char>
    decreases p.len(),
{
    if p.len() > 0 && p.last() == sep() {
        strip_trailing_seps(p.drop_last())
    } else {
        p
    }
}

/// The suffix of `p` that follows its last separator (all of `p` if it has
/// none, empty if `p` ends with one).
pub open spec fn after_last_sep(p: Seq<char>) -> Seq<char>
    decreases p.len(),
{
    if p.len() == 0 {
        p
    } else if p.last() == sep() {
        Seq::empty()
    } else {
        after_last_sep(p.drop_last()).push(p.last())
    }
}

/// The base name of `p`: the last nonempty segment, ignoring trailing
/// separators; none for the empty path or a path of separators only.
pub open spec fn base_name_spec(p: Seq<char>) -> Option<Seq<char>> {
    if strip_trailing_seps(p).len() == 0 {
        None
    } else {
        Some(after_last_sep(strip_trailing_seps(p)))
    }
}

/// `p` with every separator rewritten to `'_'`.
pub open spec fn sanitize_spec(p: Seq<char>) -> Seq<char> {
    p.map_values(|c: char| if c == sep() { '_' } else { c })
}

/// Joining a directory and a child name, avoiding a doubled separator.
pub open spec fn join_spec(parent: Seq<char>, child: Seq<char>) -> Seq<char> {
    if parent.len() == 0 {
        child
    } else if parent.last() == sep() {
        parent + child
    } else {
        parent.push(sep()) + child
    }
}

/// The path of `p` relative to `root`, when `p` equals `root` or lies under
/// it on a separator boundary; none otherwise.
pub open spec fn rel_under_spec(root: Seq<char>, p: Seq<char>) -> Option<Seq<char>> {
    if p == root {
        Some(Seq::empty())
    } else if root.len() > 0 && root.last() == sep() && p.len() > root.len()
        && p.subrange(0, root.len() as int) == root {
        Some(p.subrange(root.len() as int, p.len() as int))
    } else if p.len() > root.len() && p.subrange(0, root.len() as int) == root
        && p[root.len() as int] == sep() {
        Some(p.subrange(root.len() as int + 1, p.len() as int))
    } else {
        None
    }
}

/// What `after_last_sep` yields never contains a separator.
pub proof fn lemma_after_last_sep_no_sep(p: Seq<char>)
    ensures
        forall|i: int| 0 <= i < after_last_sep(p).len() ==> after_last_sep(p)[i] != sep(),
    decreases p.len(),
{
    if p.len() == 0 {
    } else if p.last() == sep() {
    } else {
        lemma_after_last_sep_no_sep(p.drop_last());
        let r = after_last_sep(p);
        assert forall|i: int| 0 <= i < r.len() implies r[i] != sep() by {
            if i < r.len() - 1 {
                assert(r[i] == after_last_sep(p.drop_last())[i]);
            } else {
                assert(r[i] == p.last());
            }
        }
    }
}

/// A stripped path does not end with a separator.
pub proof fn lemma_strip_trailing_last(p: Seq<char>)
    ensures
        strip_trailing_seps(p).len() > 0 ==> strip_trailing_seps(p).last() != sep(),
    decreases p.len(),
{
    if p.len() > 0 && p.last() == sep() {
        lemma_strip_trailing_last(p.drop_last());
    }
}

/// A base name is nonempty and contains no separator.
pub proof fn lemma_base_name_clean(p: Seq<char>)
    ensures
        base_name_spec(p) matches Some(b) ==> b.len() > 0 && forall|i: int|
            0 <= i < b.len() ==> b[i] != sep(),
    decreases p.len(),
{
    let q = strip_trailing_seps(p);
    if q.len() > 0 {
        lemma_after_last_sep_no_sep(q);
        lemma_strip_trailing_last(p);
        assert(after_last_sep(q).len() > 0);
    }
}

/// A sanitized path contains no separator.
pub proof fn lemma_sanitize_no_sep(p: Seq<char>)
    ensures
        forall|i: int| 0 <= i < sanitize_spec(p).len() ==> sanitize_spec(p)[i] != sep(),
{
}

/// Whether the characters of `a` and `b` are the same.
pub fn str_eq(a: &str, b: &str) -> (r: bool)
    ensures
        r == (a@ == b@),
{
    let na = a.unicode_len();
    let nb = b.unicode_len();
    if na != nb {
        assert(a@ != b@);
        return false;
    }
    let mut i: usize = 0;
    while i < na
        invariant
            na == a@.len(),
            na == b@.len(),
            0 <= i <= na,
            forall|k: int| 0 <= k < i ==> a@[k] == b@[k],
        decreases na - i,
    {
        if a.get_char(i) != b.get_char(i) {
            assert(a@ != b@);
            return false;
        }
        i += 1;
    }
    assert(a@ =~= b@);
    true
}

/// Whether the characters of `root` are a prefix of those of `p`.
pub fn is_prefix(root: &str, p: &str) -> (r: bool)
    ensures
        r == (p@.len() >= root@.len() && p@.subrange(0, root@.len() as int) == root@),
{
    let nr = root.unicode_len();
    let np = p.unicode_len();
    if np < nr {
        return false;
    }
    let mut i: usize = 0;
    while i < nr
        invariant
            0 <= i <= nr,
            nr == root@.len(),
            np == p@.len(),
            np >= nr,
            forall|k: int| 0 <= k < i ==> p@[k] == root@[k],
        decreases nr - i,
    {
        if p.get_char(i) != root.get_char(i) {
            assert(p@.subrange(0, root@.len() as int)[i as int] != root@[i as int]);
            return false;
        }
        i += 1;
    }
    assert(p@.subrange(0, root@.len() as int) =~= root@);
    true
}

/// The path of `p` relative to `root`, when `p` lies at or under `root`.
pub fn rel_under(root: &str, p: &str) -> (r: Option<String>)
    ensures
        r matches Some(s) ==> rel_under_spec(root@, p@) == Some(s@),
        r is None ==> rel_under_spec(root@, p@) is None,
{
    if str_eq(p, root) {
        let empty = String::new();
        return Some(empty);
    }
    let nr = root.unicode_len();
    let np = p.unicode_len();
    if nr > 0 && root.get_char(nr - 1) == '/' && np > nr && is_prefix(root, p) {
        let s = p.substring_char(nr, np);
        proof {
            assert(s@ =~= p@.subrange(nr as int, np as int));
        }
        Some(s.to_owned())
    } else if np > nr && is_prefix(root, p) && p.get_char(nr) == '/' {
        let s = p.substring_char(nr + 1, np);
        proof {
            assert(s@ =~= p@.subrange(nr as int + 1, np as int));
        }
        Some(s.to_owned())
    } else {
        None
    }
}

/// The base name of `p`, or none when `p` is empty or separators only.
pub fn base_name(p: &str) -> (r: Option<String>)
    ensures
        r matches Some(s) ==> base_name_spec(p@) == Some(s@),
        r is None ==> base_name_spec(p@) is None,
{
    let n = p.unicode_len();
    let mut end: usize = n;
    proof {
        assert(p@.subrange(0, n as int) =~= p@);
    }
    while end > 0 && p.get_char(end - 1) == '/'
        invariant
            0 <= end <= n,
            n == p@.len(),
            strip_trailing_seps(p@) == strip_trailing_seps(p@.subrange(0, end as int)),
        decreases end,
    {
        proof {
            assert(p@.subrange(0, end as int).last() == sep());
            assert(p@.subrange(0, end as int).drop_last() =~= p@.subrange(0, end as int - 1));
        }
        end -= 1;
    }
    proof {
        if end > 0 {
            assert(p@.subrange(0, end as int).last() == p@[end as int - 1]);
        }
        assert(strip_trailing_seps(p@) =~= p@.subrange(0, end as int));
    }
    if end == 0 {
        proof {
            assert(p@.subrange(0, 0) =~= Seq::<char>::empty());
        }
        return None;
    }
    let ghost q = p@.subrange(0, end as int);
    let mut start: usize = end;
    proof {
        assert(q.subrange(0, end as int) =~= q);
        assert(q.subrange(end as int, end as int) =~= Seq::<char>::empty());
        assert(after_last_sep(q) =~= after_last_sep(q.subrange(0, end as int)) + q.subrange(
            end as int,
            end as int,
        ));
    }
    while start > 0 && p.get_char(start - 1) != '/'
        invariant
            0 <= start <= end <= n,
            n == p@.len(),
            q == p@.subrange(0, end as int),
            q.len() == end,
            after_last_sep(q) == after_last_sep(q.subrange(0, start as int)) + q.subrange(
                start as int,
                end as int,
            ),
        decreases start,
    {
        proof {
            let h = q.subrange(0, start as int);
            assert(h.last() == p@[start - 1]);
            assert(h.last() != sep());
            assert(h.drop_last() =~= q.subrange(0, start as int - 1));
            assert(after_last_sep(h) == after_last_sep(h.drop_last()).push(h.last()));
            assert(after_last_sep(h.drop_last()) + q.subrange(start as int - 1, end as int)
                =~= after_last_sep(h) + q.subrange(start as int, end as int));
        }
        start -= 1;
    }
    proof {
        if start == 0 {
            assert(q.subrange(0, 0) =~= Seq::<char>::empty());
            assert(after_last_sep(Seq::<char>::empty()) + q.subrange(0, end as int) =~= q);
            assert(after_last_sep(q) =~= q.subrange(start as int, end as int));
        } else {
            let h = q.subrange(0, start as int);
            assert(h.last() == p@[start - 1]);
            assert(h.last() == sep());
            assert(after_last_sep(h) =~= Seq::<char>::empty());
            assert(after_last_sep(q) =~= q.subrange(start as int, end as int));
        }
    }
    let s = p.substring_char(start, end);
    proof {
        assert(s@ =~= after_last_sep(strip_trailing_seps(p@)));
    }
    Some(s.to_owned())
}

/// `p` with every separator rewritten to `'_'`.
pub fn sanitize(p: &str) -> (r: String)
    ensures
        r@ == sanitize_spec(p@),
{
    let n = p.unicode_len();
    let mut out = String::new();
    let mut i: usize = 0;
    while i < n
        invariant
            0 <= i <= n,
            n == p@.len(),
            out@ == sanitize_spec(p@.subrange(0, i as int)),
        decreases n - i,
    {
        let mut j: usize = i;
        while j < n && p.get_char(j) != '/'
            invariant
                i <= j <= n,
                n == p@.len(),
                forall|k: int| i <= k < j ==> p@[k] != sep(),
            decreases n - j,
        {
            j += 1;
        }
        let piece = p.substring_char(i, j);
        out.append(piece);
        proof {
            assert(sanitize_spec(p@.subrange(0, j as int)) =~= sanitize_spec(
                p@.subrange(0, i as int),
            ) + sanitize_spec(p@.subrange(i as int, j as int)));
            assert(sanitize_spec(p@.subrange(i as int, j as int)) =~= piece@);
        }
        if j < n {
            out.append("_");
            proof {
                reveal_strlit("_");
                assert(sanitize_spec(p@.subrange(0, j as int + 1)) =~= sanitize_spec(
                    p@.subrange(0, j as int),
                ).push('_'));
                assert(out@ =~= sanitize_spec(p@.subrange(0, j as int + 1)));
            }
            i = j + 1;
        } else {
            i = j;
        }
    }
    proof {
        assert(p@.subrange(0, n as int) =~= p@);
    }
    out
}

/// `parent` and `child` joined with a single separator.
pub fn join_path(parent: &str, child: &str) -> (r: String)
    ensures
        r@ == join_spec(parent@, child@),
{
    let n = parent.unicode_len();
    if n == 0 {
        return child.to_owned();
    }
    let mut out = String::new();
    out.append(parent);
    if parent.get_char(n - 1) != '/' {
        out.append("/");
        proof {
            reveal_strlit("/");
            assert(out@ =~= parent@.push(sep()));
        }
    }
    out.append(child);
    proof {
        if parent@.last() == sep() {
            assert(out@ =~= parent@ + child@);
        } else {
            assert(out@ =~= parent@.push(sep()) + child@);
        }
    }
    out
}

} // verus!
