//! The cloner: derives a repository name from a URL, clones the
//! repository through the version-control collaborator, and enters the
//! cloned directory as a session, reusing the resolver's creation step.

use vstd::prelude::*;
use vstd::string::*;

use crate::fs::{FsError, FsOperations};
use crate::git::{Git, GitError};
use crate::options::ZellijOptions;
use crate::paths::{after_last_sep, join_path, join_spec, sep};
use crate::zellij::{open_session, opt_str_view, ZellijError, ZellijOperations};
use crate::zoxide::{bump_entry, ZoxideError, ZoxideOperations};

verus! {

/// Error type for clone-and-connect operations, tagged by origin.
#[derive(Debug)]
pub enum CloneError {
    /// A version-control failure; in particular, the clone itself failed.
    Git(GitError),
    /// A multiplexer failure after a successful clone.
    Zellij(ZellijError),
    /// A frecency-store failure after a successful clone.
    Zoxide(ZoxideError),
    /// A filesystem failure.
    Fs(FsError),
    /// No repository name could be parsed from the URL.
    InvalidRepoUrl,
    /// A path could not be represented as the string a collaborator
    /// needs.
    InvalidPath(String),
}

/// Whether `u` ends with the `.git` suffix.
pub open spec fn ends_with_git(u: Seq<char>) -> bool {
    u.len() >= 4 && u[u.len() - 4] == '.' && u[u.len() - 3] == 'g' && u[u.len() - 2] == 'i'
        && u[u.len() - 1] == 't'
}

/// `u` with every trailing `.git` suffix removed.
pub open spec fn strip_git_suffix(u: Seq<char>) -> Seq<char>
    decreases u.len(),
{
    if ends_with_git(u) {
        strip_git_suffix(u.subrange(0, u.len() - 4))
    } else {
        u
    }
}

/// The repository name a URL denotes: the last `/`-delimited segment
/// after stripping the `.git` suffix; none when that segment is empty.
pub open spec fn repo_name_spec(u: Seq<char>) -> Option<Seq<char>> {
    let t = after_last_sep(strip_git_suffix(u));
    if t.len() == 0 {
        Option::None
    } else {
        Option::Some(t)
    }
}

/// Extract the repository name from a URL.
pub fn extract_repo_name(url: &str) -> (r: Result<&str, CloneError>)
    ensures
        r matches Ok(s) ==> repo_name_spec(url@) == Some(s@),
        r matches Err(e) ==> e is InvalidRepoUrl && repo_name_spec(url@) is None,
{
    let n = url.unicode_len();
    let mut end: usize = n;
    proof {
        assert(url@.subrange(0, n as int) =~= url@);
    }
    while end >= 4 && url.get_char(end - 4) == '.' && url.get_char(end - 3) == 'g'
        && url.get_char(end - 2) == 'i' && url.get_char(end - 1) == 't'
        invariant
            0 <= end <= n,
            n == url@.len(),
            strip_git_suffix(url@) == strip_git_suffix(url@.subrange(0, end as int)),
        decreases end,
    {
        proof {
            let part = url@.subrange(0, end as int);
            assert(part[part.len() - 4] == url@[end - 4]);
            assert(part[part.len() - 3] == url@[end - 3]);
            assert(part[part.len() - 2] == url@[end - 2]);
            assert(part[part.len() - 1] == url@[end - 1]);
            assert(ends_with_git(part));
            assert(part.subrange(0, part.len() - 4) =~= url@.subrange(0, end as int - 4));
        }
        end -= 4;
    }
    let ghost q = url@.subrange(0, end as int);
    proof {
        if end >= 4 {
            assert(!(url@[end - 4] == '.' && url@[end - 3] == 'g' && url@[end - 2] == 'i' && url@[
                end - 1] == 't'));
            assert(q[q.len() - 4] == url@[end - 4]);
            assert(q[q.len() - 3] == url@[end - 3]);
            assert(q[q.len() - 2] == url@[end - 2]);
            assert(q[q.len() - 1] == url@[end - 1]);
        }
        assert(!ends_with_git(q));
        assert(strip_git_suffix(url@) == q);
        assert(q.subrange(0, end as int) =~= q);
        assert(q.subrange(end as int, end as int) =~= Seq::<char>::empty());
        assert(after_last_sep(q) =~= after_last_sep(q.subrange(0, end as int)) + q.subrange(
            end as int,
            end as int,
        ));
    }
    let mut start: usize = end;
    while start > 0 && url.get_char(start - 1) != '/'
        invariant
            0 <= start <= end <= n,
            n == url@.len(),
            q == url@.subrange(0, end as int),
            q.len() == end,
            after_last_sep(q) == after_last_sep(q.subrange(0, start as int)) + q.subrange(
                start as int,
                end as int,
            ),
        decreases start,
    {
        proof {
            let h = q.subrange(0, start as int);
            assert(h.last() == url@[start - 1]);
            assert(h.last() != sep());
            assert(h.drop_last() =~= q.subrange(0, start as int - 1));
            assert(after_last_sep(h) == after_last_sep(h.drop_last()).push(h.last()));
            assert(after_last_sep(h.drop_last()) + q.subrange(start as int - 1, end as int)
                =~= after_last_sep(h) + q.subrange(start as int, end as int));
        }
        start -= 1;
    }
    proof {
        if start == 0 {
            assert(q.subrange(0, 0) =~= Seq::<char>::empty());
            assert(after_last_sep(Seq::<char>::empty()) + q.subrange(0, end as int) =~= q);
            assert(after_last_sep(q) =~= q.subrange(start as int, end as int));
        } else {
            let h = q.subrange(0, start as int);
            assert(h.last() == url@[start - 1]);
            assert(h.last() == sep());
            assert(after_last_sep(h) =~= Seq::<char>::empty());
            assert(after_last_sep(q) =~= q.subrange(start as int, end as int));
        }
    }
    if start == end {
        proof {
            assert(after_last_sep(strip_git_suffix(url@)).len() == 0);
        }
        return Err(CloneError::InvalidRepoUrl);
    }
    let s = url.substring_char(start, end);
    proof {
        assert(s@ =~= after_last_sep(strip_git_suffix(url@)));
    }
    Ok(s)
}

/// The directory a clone lands in is resolved against this parent: the
/// explicit destination when one is given, else the current directory.
pub open spec fn chosen_parent(path: Option<Seq<char>>, cur: Seq<char>) -> Seq<char> {
    match path {
        Option::Some(p) => p,
        Option::None => cur,
    }
}

/// The created session's name: the explicit one when given, else the
/// derived repository name.
pub open spec fn chosen_session_name(explicit: Option<Seq<char>>, rn: Seq<char>) -> Seq<char> {
    match explicit {
        Option::Some(x) => x,
        Option::None => rn,
    }
}

/// The view of an optional borrowed string.
pub open spec fn opt_string_view(o: Option<&String>) -> Option<Seq<char>> {
    match o {
        Option::Some(s) => Option::Some(s@),
        Option::None => Option::None,
    }
}

/// The cloner over the four collaborator interfaces.
pub struct CloneService<Z, X, F, G> where
    Z: ZellijOperations,
    X: ZoxideOperations,
    F: FsOperations,
    G: Git,
 {
    /// The multiplexer collaborator.
    pub zellij: Z,
    /// The frecency-store collaborator.
    pub zoxide: X,
    /// The filesystem collaborator.
    pub fs: F,
    /// The version-control collaborator.
    pub git: G,
}

impl<Z, X, F, G> CloneService<Z, X, F, G> where
    Z: ZellijOperations,
    X: ZoxideOperations,
    F: FsOperations,
    G: Git,
 {
    /// Build a cloner from its four collaborators.
    pub fn new(zellij: Z, zoxide: X, fs: F, git: G) -> (r: CloneService<Z, X, F, G>)
        ensures
            r.zellij == zellij,
            r.zoxide == zoxide,
            r.fs == fs,
            r.git == git,
    {
        CloneService { zellij, zoxide, fs, git }
    }

    /// Clone the repository at `repo_url` and enter it as a session: on
    /// success the session set gains (or re-attaches) the chosen name and
    /// the cloned path is registered with the frecency store. The extra
    /// clone arguments are handed to the version-control tool verbatim.
    /// A clone failure aborts before any session is created, any path
    /// registered or the working directory moved; a failure after a
    /// successful clone is surfaced under its own origin.
    pub fn clone_repo(
        &mut self,
        repo_url: &str,
        name: Option<&str>,
        path: Option<&String>,
        extra_clone_args: &Vec<String>,
        zellij_options: &ZellijOptions,
    ) -> (r: Result<(), CloneError>)
        ensures
            r matches Err(CloneError::InvalidRepoUrl) <==> repo_name_spec(repo_url@) is None,
            r matches Err(CloneError::InvalidRepoUrl) ==> *final (self) == *old(self),
            r matches Err(e) && (e is Git || e is InvalidRepoUrl || e is Fs) ==> final (
            self).zellij == old(self).zellij && final (self).zoxide == old(self).zoxide,
            r matches Err(e) && (e is Git || e is InvalidRepoUrl) ==> final (self).fs == old(
                self,
            ).fs,
            r matches Err(e) && e is Zellij ==> final (self).zoxide == old(self).zoxide,
            final (self).git == old(self).git,
            r is Ok ==> (repo_name_spec(repo_url@) matches Some(rn) && {
                let parent = chosen_parent(opt_string_view(path), old(self).fs.cur_dir_of());
                let target = join_spec(parent, rn);
                &&& final (self).zellij.sessions() == open_session(
                    old(self).zellij.sessions(),
                    chosen_session_name(opt_str_view(name), rn),
                )
                &&& final (self).zoxide.entries() == bump_entry(old(self).zoxide.entries(), target)
                &&& final (self).fs.cur_dir_of() == target
            }),
    {
        let repo_name = match extract_repo_name(repo_url) {
            Ok(s) => s,
            Err(e) => {
                return Err(e);
            },
        };
        let session_name = match name {
            Some(x) => x,
            None => repo_name,
        };
        let parent = match path {
            Some(p) => p.clone(),
            None => match self.fs.current_dir() {
                Ok(d) => d,
                Err(e) => {
                    return Err(CloneError::Fs(e));
                },
            },
        };
        let clone_path = join_path(parent.as_str(), repo_name);
        match self.git.clone(repo_url, parent.as_str(), repo_name, extra_clone_args) {
            Ok(_) => (),
            Err(e) => {
                return Err(CloneError::Git(e));
            },
        };
        match self.fs.set_current_dir(clone_path.as_str()) {
            Ok(u) => u,
            Err(e) => {
                return Err(CloneError::Fs(e));
            },
        };
        match self.zellij.new_session(session_name, zellij_options) {
            Ok(u) => u,
            Err(e) => {
                return Err(CloneError::Zellij(e));
            },
        };
        match self.zoxide.add(clone_path.as_str()) {
            Ok(u) => u,
            Err(e) => {
                return Err(CloneError::Zoxide(e));
            },
        };
        Ok(())
    }
}

} // verus!
