//! The repository-aware session-naming algorithm: a session created for a
//! directory is named after the directory, or, inside a repository, after the
//! repository root plus the relative path with separators rewritten to `'_'`,
//! because the multiplexer forbids the separator in session names.

use vstd::prelude::*;
use vstd::string::*;

use crate::paths::{
    base_name, base_name_spec, lemma_base_name_clean, lemma_sanitize_no_sep, rel_under,
    rel_under_spec, sanitize, sanitize_spec, sep,
};

verus! {

/// The session name for directory `p`, given whether `p` lies inside a
/// repository with root `root`. None means the base-name lookup failed,
/// which callers treat as a hard error.
pub open spec fn session_name_spec(in_repo: bool, root: Seq<char>, p: Seq<char>) -> Option<
    Seq<char>,
> {
    if !in_repo {
        base_name_spec(p)
    } else {
        match base_name_spec(root) {
            Option::None => Option::None,
            Option::Some(rb) => match rel_under_spec(root, p) {
                Option::None => base_name_spec(p),
                Option::Some(rel) => if rel.len() == 0 {
                    Option::Some(rb)
                } else {
                    Option::Some(rb.push('_') + sanitize_spec(rel))
                },
            },
        }
    }
}

/// Derive the session name for directory `p` from the repository facts.
pub fn session_name_for(in_repo: bool, root: &str, p: &str) -> (r: Option<String>)
    ensures
        r matches Some(s) ==> session_name_spec(in_repo, root@, p@) == Some(s@),
        r is None ==> session_name_spec(in_repo, root@, p@) is None,
{
    if !in_repo {
        return base_name(p);
    }
    let rb = match base_name(root) {
        Some(x) => x,
        None => {
            return None;
        },
    };
    match rel_under(root, p) {
        None => base_name(p),
        Some(rel) => {
            if rel.as_str().unicode_len() == 0 {
                proof {
                    assert(rel@ =~= Seq::<char>::empty());
                }
                Some(rb)
            } else {
                let sanitized = sanitize(rel.as_str());
                let mut out = rb;
                out.append("_");
                out.append(sanitized.as_str());
                proof {
                    reveal_strlit("_");
                    assert(out@ =~= rb@.push('_') + sanitize_spec(rel@));
                }
                Some(out)
            }
        },
    }
}

/// A derived session name never contains the path separator.
pub proof fn lemma_session_name_no_sep(in_repo: bool, root: Seq<char>, p: Seq<char>)
    ensures
        session_name_spec(in_repo, root, p) matches Some(s) ==> s.len() > 0 && forall|i: int|
            0 <= i < s.len() ==> s[i] != sep(),
{
    lemma_base_name_clean(p);
    lemma_base_name_clean(root);
    if session_name_spec(in_repo, root, p) is Some {
        let s = session_name_spec(in_repo, root, p)->Some_0;
        if in_repo && base_name_spec(root) is Some && rel_under_spec(root, p) is Some {
            let rb = base_name_spec(root)->Some_0;
            let rel = rel_under_spec(root, p)->Some_0;
            if rel.len() > 0 {
                lemma_sanitize_no_sep(rel);
                assert forall|i: int| 0 <= i < s.len() implies s[i] != sep() by {
                    if i < rb.len() {
                        assert(s[i] == rb[i]);
                    } else if i == rb.len() {
                        assert(s[i] == '_');
                    } else {
                        assert(s[i] == sanitize_spec(rel)[i - rb.len() - 1]);
                    }
                }
            }
        }
    }
}

/// For a directory that does not lie inside a repository, the session name
/// is the base name of the directory itself.
pub proof fn lemma_name_outside_repo(root: Seq<char>, p: Seq<char>)
    ensures
        session_name_spec(false, root, p) == base_name_spec(p),
{
}

/// For the repository root directory itself, the session name is the base
/// name of the root.
pub proof fn lemma_name_at_repo_root(root: Seq<char>)
    requires
        base_name_spec(root) is Some,
    ensures
        session_name_spec(true, root, root) == base_name_spec(root),
{
    assert(rel_under_spec(root, root) == Some(Seq::<char>::empty()));
}

/// For a directory strictly inside a repository, the session name is the
/// root's base name, an underscore, and the relative path with every
/// separator rewritten to an underscore.
pub proof fn lemma_name_inside_repo(root: Seq<char>, rb: Seq<char>, rel: Seq<char>)
    requires
        base_name_spec(root) == Some(rb),
        root.len() > 0,
        root.last() != sep(),
        rel.len() > 0,
    ensures
        session_name_spec(true, root, root.push(sep()) + rel) == Some(
            rb.push('_') + sanitize_spec(rel),
        ),
{
    let p = root.push(sep()) + rel;
    assert(p.len() == root.len() + 1 + rel.len());
    assert(p != root);
    assert(p.subrange(0, root.len() as int) =~= root);
    assert(p[root.len() as int] == sep());
    assert(rel_under_spec(root, p) == Some(p.subrange(root.len() as int + 1, p.len() as int)));
    assert(p.subrange(root.len() as int + 1, p.len() as int) =~= rel);
}

} // verus!
