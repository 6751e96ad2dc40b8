//! The resolver: turns one target string into one multiplexer
//! attach-or-create action, by a strict three-stage fallback — exact
//! session name, then directory path, then frecency query — naming any
//! created session with the repository-aware algorithm.

use vstd::prelude::*;
use vstd::string::*;

use crate::fs::{fs_views_preserved, FsError, FsOperations};
use crate::git::{Git, GitError};
use crate::naming::{session_name_for, session_name_spec};
use crate::options::ZellijOptions;
use crate::paths::base_name_spec;
use crate::paths::base_name;
use crate::zellij::{
    find_session_index, has_session, open_session, session_views, set_current, Session, SessionV,
    ZellijError, ZellijOperations,
};
use crate::zoxide::{
    entry_views, matching_entries, string_views, ZoxideEntryV, ZoxideError, ZoxideOperations,
};

verus! {

/// Error type for connect operations, tagged by origin.
#[derive(Debug)]
pub enum ConnectError {
    /// A multiplexer failure.
    Zellij(ZellijError),
    /// A frecency-store failure.
    Zoxide(ZoxideError),
    /// A filesystem failure.
    Fs(FsError),
    /// A version-control failure.
    Git(GitError),
    /// The target matched no session, no directory, and no frecency entry.
    NoMatch(String),
    /// Any other failure.
    Other(String),
}

/// A name the naming step may derive for directory `p`, when the
/// repository lookup answered `tl`: the repository-aware name, or — only
/// when the lookup fails to run — the directory's own base name.
pub open spec fn derived_name_ok(tl: (bool, Seq<char>), p: Seq<char>, sn: Seq<char>) -> bool {
    session_name_spec(tl.0, tl.1, p) == Some(sn) || base_name_spec(p) == Some(sn)
}

/// The attach outcome: `n` was an active session and is now the one
/// current session, the session set otherwise unchanged.
pub open spec fn attach_outcome(n: Seq<char>, zs0: Seq<SessionV>, zs1: Seq<SessionV>) -> bool {
    has_session(zs0, n) && zs1 == set_current(zs0, n)
}

/// The attach-or-create part of entering directory `p` under repository
/// answer `tl`: a derivable session name was attached to or created, and
/// the working directory moved to `p` exactly when a session was created
/// rather than attached.
pub open spec fn entered_session(
    tl: (bool, Seq<char>),
    p: Seq<char>,
    zs0: Seq<SessionV>,
    zs1: Seq<SessionV>,
    cur0: Seq<char>,
    cur1: Seq<char>,
) -> bool {
    exists|sn: Seq<char>|
        derived_name_ok(tl, p, sn) && zs1 == #[trigger] open_session(zs0, sn) && (if has_session(
            zs0,
            sn,
        ) {
            cur1 == cur0
        } else {
            cur1 == p
        })
}

/// The full enter-directory outcome: attach-or-create with the
/// working-directory rule, and `p` registered with the frecency store.
pub open spec fn dir_entry_outcome(
    tl: (bool, Seq<char>),
    p: Seq<char>,
    zs0: Seq<SessionV>,
    zs1: Seq<SessionV>,
    xe0: Seq<ZoxideEntryV>,
    xe1: Seq<ZoxideEntryV>,
    cur0: Seq<char>,
    cur1: Seq<char>,
) -> bool {
    entered_session(tl, p, zs0, zs1, cur0, cur1) && xe1 == crate::zoxide::bump_entry(xe0, p)
}

/// An entry of `m` scoring at least as high as every entry of `m`.
pub open spec fn best_match_entry(m: Seq<ZoxideEntryV>, e: ZoxideEntryV) -> bool {
    m.to_multiset().contains(e) && forall|j: int| 0 <= j < m.len() ==> e.score >= #[trigger] m[j].score
}

/// Entering the same directory twice attaches the second time rather
/// than creating a duplicate session: once the attach-or-create step has
/// run for a name, the session holding that name exists, and running the
/// step again for the same name changes nothing — in particular the
/// session count is unchanged between the first and second run.
pub proof fn lemma_open_session_idempotent(s: Seq<SessionV>, n: Seq<char>)
    ensures
        has_session(open_session(s, n), n),
        open_session(open_session(s, n), n) == open_session(s, n),
        open_session(open_session(s, n), n).len() == open_session(s, n).len(),
{
    let s1 = open_session(s, n);
    if has_session(s, n) {
        let i = choose|i: int| 0 <= i < s.len() && s[i].name == n;
        assert(s1[i].name == n);
        assert(has_session(s1, n));
    } else {
        assert(s1[s1.len() - 1].name == n);
        assert(has_session(s1, n));
    }
    assert(open_session(s1, n) =~= s1);
}

/// Idempotence of the whole enter-directory outcome: when the repository
/// lookup reports "not inside a repository", the derived name is fixed
/// (the directory's base name), so a second successful entry of the same
/// path attaches — the session set, its size and the working directory
/// are unchanged between the end of the first entry and the end of the
/// second.
pub proof fn lemma_dir_entry_idempotent(
    tl: (bool, Seq<char>),
    p: Seq<char>,
    zs0: Seq<SessionV>,
    zs1: Seq<SessionV>,
    zs2: Seq<SessionV>,
    xe0: Seq<ZoxideEntryV>,
    xe1: Seq<ZoxideEntryV>,
    xe2: Seq<ZoxideEntryV>,
    cur0: Seq<char>,
    cur1: Seq<char>,
    cur2: Seq<char>,
)
    requires
        !tl.0,
        dir_entry_outcome(tl, p, zs0, zs1, xe0, xe1, cur0, cur1),
        dir_entry_outcome(tl, p, zs1, zs2, xe1, xe2, cur1, cur2),
    ensures
        zs2 == zs1,
        zs2.len() == zs1.len(),
        cur2 == cur1,
{
    let sn1 = choose|sn: Seq<char>|
        derived_name_ok(tl, p, sn) && zs1 == #[trigger] open_session(zs0, sn) && (if has_session(
            zs0,
            sn,
        ) {
            cur1 == cur0
        } else {
            cur1 == p
        });
    let sn2 = choose|sn: Seq<char>|
        derived_name_ok(tl, p, sn) && zs2 == #[trigger] open_session(zs1, sn) && (if has_session(
            zs1,
            sn,
        ) {
            cur2 == cur1
        } else {
            cur2 == p
        });
    assert(session_name_spec(tl.0, tl.1, p) == base_name_spec(p));
    assert(base_name_spec(p) == Some(sn1));
    assert(base_name_spec(p) == Some(sn2));
    assert(sn2 == sn1);
    lemma_open_session_idempotent(zs0, sn1);
    assert(has_session(zs1, sn2));
}

/// The resolver over the four collaborator interfaces.
pub struct ConnectService<Z, X, F, G> where
    Z: ZellijOperations,
    X: ZoxideOperations,
    F: FsOperations,
    G: Git,
 {
    /// The multiplexer collaborator.
    pub zellij: Z,
    /// The frecency-store collaborator.
    pub zoxide: X,
    /// The filesystem collaborator.
    pub fs: F,
    /// The version-control collaborator.
    pub git: G,
}

impl<Z, X, F, G> ConnectService<Z, X, F, G> where
    Z: ZellijOperations,
    X: ZoxideOperations,
    F: FsOperations,
    G: Git,
 {
    /// Build a resolver from its four collaborators.
    pub fn new(zellij: Z, zoxide: X, fs: F, git: G) -> (r: ConnectService<Z, X, F, G>)
        ensures
            r.zellij == zellij,
            r.zoxide == zoxide,
            r.fs == fs,
            r.git == git,
    {
        ConnectService { zellij, zoxide, fs, git }
    }

    /// The session name for directory `path`: repository-aware when the
    /// repository lookup runs, the directory's base name when it fails.
    /// Success is owed whenever both derivable names are defined — only a
    /// missing base name can make this fail, and that failure is
    /// filesystem-tagged.
    pub fn get_session_name_for_path(&self, path: &str) -> (r: Result<String, ConnectError>)
        ensures
            r matches Ok(s) ==> derived_name_ok(self.git.top_level_of(path@), path@, s@),
            r matches Ok(s) ==> s@.len() > 0 && forall|i: int|
                0 <= i < s@.len() ==> s@[i] != crate::paths::sep(),
            session_name_spec(
                self.git.top_level_of(path@).0,
                self.git.top_level_of(path@).1,
                path@,
            ) is Some && base_name_spec(path@) is Some ==> r is Ok,
            r is Err ==> session_name_spec(
                self.git.top_level_of(path@).0,
                self.git.top_level_of(path@).1,
                path@,
            ) is None || base_name_spec(path@) is None,
            r matches Err(e) ==> e is Fs,
    {
        match self.git.show_top_level(path) {
            Ok((in_repo, root)) => {
                match session_name_for(in_repo, root.as_str(), path) {
                    Some(s) => {
                        proof {
                            crate::naming::lemma_session_name_no_sep(in_repo, root@, path@);
                        }
                        Ok(s)
                    },
                    None => Err(
                        ConnectError::Fs(FsError::NoDirectoryName(String::from_str(path))),
                    ),
                }
            },
            Err(_) => {
                match base_name(path) {
                    Some(s) => {
                        proof {
                            crate::paths::lemma_base_name_clean(path@);
                        }
                        Ok(s)
                    },
                    None => Err(
                        ConnectError::Fs(FsError::NoDirectoryName(String::from_str(path))),
                    ),
                }
            },
        }
    }

    /// The attach-or-create step shared by the directory and frecency
    /// stages: derive the session name for `path`, attach if a session
    /// holds it, otherwise move the working directory there and create
    /// one, then register `path` with the frecency store. A
    /// frecency-store-tagged error means the attach-or-create had already
    /// completed and only the registration failed.
    fn enter_directory(&mut self, path: &str, options: &ZellijOptions) -> (r: Result<
        (),
        ConnectError,
    >)
        ensures
            r is Ok ==> dir_entry_outcome(
                old(self).git.top_level_of(path@),
                path@,
                old(self).zellij.sessions(),
                final (self).zellij.sessions(),
                old(self).zoxide.entries(),
                final (self).zoxide.entries(),
                old(self).fs.cur_dir_of(),
                final (self).fs.cur_dir_of(),
            ),
            r is Ok ==> fs_views_preserved(old(self).fs, final (self).fs),
            final (self).git == old(self).git,
            !(r matches Err(ConnectError::NoMatch(_))),
            !(r matches Err(ConnectError::Git(_))),
            r matches Err(e) && e is Fs ==> final (self).zellij == old(self).zellij && final (
            self).zoxide == old(self).zoxide,
            r matches Err(e) && e is Zellij ==> final (self).zoxide == old(self).zoxide,
            r matches Err(e) && e is Zoxide ==> entered_session(
                old(self).git.top_level_of(path@),
                path@,
                old(self).zellij.sessions(),
                final (self).zellij.sessions(),
                old(self).fs.cur_dir_of(),
                final (self).fs.cur_dir_of(),
            ) && fs_views_preserved(old(self).fs, final (self).fs),
    {
        let session_name = match self.get_session_name_for_path(path) {
            Ok(s) => s,
            Err(e) => {
                return Err(e);
            },
        };
        let sessions = match self.zellij.list_sessions() {
            Ok(v) => v,
            Err(e) => {
                return Err(ConnectError::Zellij(e));
            },
        };
        let ghost was_active = has_session(old(self).zellij.sessions(), session_name@);
        match find_session_index(&sessions, session_name.as_str()) {
            Some(i) => {
                proof {
                    assert(session_views(sessions@)[i as int].name == session_name@);
                    assert(was_active);
                }
                match self.zellij.attach_session(session_name.as_str()) {
                    Ok(u) => u,
                    Err(e) => {
                        return Err(ConnectError::Zellij(e));
                    },
                };
            },
            None => {
                proof {
                    assert(!was_active);
                }
                match self.fs.set_current_dir(path) {
                    Ok(u) => u,
                    Err(e) => {
                        return Err(ConnectError::Fs(e));
                    },
                };
                match self.zellij.new_session(session_name.as_str(), options) {
                    Ok(u) => u,
                    Err(e) => {
                        return Err(ConnectError::Zellij(e));
                    },
                };
            },
        }
        proof {
            let sn = session_name@;
            assert(derived_name_ok(old(self).git.top_level_of(path@), path@, sn));
            assert(self.zellij.sessions() == open_session(old(self).zellij.sessions(), sn));
            if was_active {
                assert(self.fs == old(self).fs);
                assert(self.fs.cur_dir_of() == old(self).fs.cur_dir_of());
            } else {
                assert(self.fs.cur_dir_of() == path@);
            }
            assert(entered_session(
                old(self).git.top_level_of(path@),
                path@,
                old(self).zellij.sessions(),
                self.zellij.sessions(),
                old(self).fs.cur_dir_of(),
                self.fs.cur_dir_of(),
            ));
            assert(fs_views_preserved(old(self).fs, self.fs));
        }
        match self.zoxide.add(path) {
            Ok(u) => u,
            Err(e) => {
                return Err(ConnectError::Zoxide(e));
            },
        };
        Ok(())
    }

    /// Stage 1 alone: attach to the session named exactly `name`.
    pub fn connect_to_session(&mut self, name: &str) -> (r: Result<(), ConnectError>)
        ensures
            r is Ok ==> attach_outcome(
                name@,
                old(self).zellij.sessions(),
                final (self).zellij.sessions(),
            ),
            final (self).zoxide == old(self).zoxide,
            final (self).fs == old(self).fs,
            final (self).git == old(self).git,
            r matches Err(ConnectError::NoMatch(n)) ==> n@ == name@ && !has_session(
                old(self).zellij.sessions(),
                name@,
            ) && *final (self) == *old(self),
            r matches Err(e) ==> e is NoMatch || e is Zellij,
    {
        let sessions = match self.zellij.list_sessions() {
            Ok(v) => v,
            Err(e) => {
                return Err(ConnectError::Zellij(e));
            },
        };
        match find_session_index(&sessions, name) {
            Some(i) => {
                proof {
                    assert(session_views(sessions@)[i as int].name == name@);
                    assert(has_session(old(self).zellij.sessions(), name@));
                }
                match self.zellij.attach_session(name) {
                    Ok(u) => Ok(u),
                    Err(e) => Err(ConnectError::Zellij(e)),
                }
            },
            None => Err(ConnectError::NoMatch(String::from_str(name))),
        }
    }

    /// Stage 2 alone: treat `dir` as a directory path, validate it, and
    /// attach to or create its session. When `dir` has no canonical form
    /// the failure is filesystem-tagged; a frecency-store-tagged error
    /// means the session part had already completed.
    pub fn connect_to_directory(&mut self, dir: &str, options: &ZellijOptions) -> (r: Result<
        (),
        ConnectError,
    >)
        ensures
            r is Ok ==> exists|c: Seq<char>|
                old(self).fs.canon_of(dir@) == Some(c) && old(self).fs.exists_of(c) && old(
                self).fs.is_dir_of(c) && #[trigger] dir_entry_outcome(
                    old(self).git.top_level_of(c),
                    c,
                    old(self).zellij.sessions(),
                    final (self).zellij.sessions(),
                    old(self).zoxide.entries(),
                    final (self).zoxide.entries(),
                    old(self).fs.cur_dir_of(),
                    final (self).fs.cur_dir_of(),
                ),
            r is Ok ==> fs_views_preserved(old(self).fs, final (self).fs),
            final (self).git == old(self).git,
            !(r matches Err(ConnectError::NoMatch(_))),
            !(r matches Err(ConnectError::Git(_))),
            r is Err && old(self).fs.canon_of(dir@) is None ==> r->Err_0 is Fs,
            r matches Err(e) && e is Fs ==> final (self).zellij == old(self).zellij && final (
            self).zoxide == old(self).zoxide,
            r matches Err(e) && e is Zellij ==> final (self).zoxide == old(self).zoxide,
            r matches Err(e) && e is Zoxide ==> (exists|c: Seq<char>|
                old(self).fs.canon_of(dir@) == Some(c) && old(self).fs.exists_of(c) && old(
                self).fs.is_dir_of(c) && #[trigger] entered_session(
                    old(self).git.top_level_of(c),
                    c,
                    old(self).zellij.sessions(),
                    final (self).zellij.sessions(),
                    old(self).fs.cur_dir_of(),
                    final (self).fs.cur_dir_of(),
                )) && fs_views_preserved(old(self).fs, final (self).fs),
    {
        let canon = match self.fs.validate_dir_path(dir) {
            Ok(pn) => pn.0,
            Err(e) => {
                return Err(ConnectError::Fs(e));
            },
        };
        let r = self.enter_directory(canon.as_str(), options);
        proof {
            if !(r is Err && r->Err_0 is Zellij) && !(r is Err && r->Err_0 is Fs) {
                assert(old(self).fs.canon_of(dir@) == Some(canon@));
            }
        }
        r
    }

    /// Stage 3 alone: query the frecency store with `query` as one
    /// keyword and enter the highest-scored matching directory. A
    /// frecency-store-tagged error is either the query itself failing
    /// (nothing changed) or the final registration failing after the
    /// session part had already completed.
    pub fn connect_via_zoxide(&mut self, query: &str, options: &ZellijOptions) -> (r: Result<
        (),
        ConnectError,
    >)
        ensures
            r is Ok ==> exists|e: ZoxideEntryV|
                #[trigger] best_match_entry(
                    matching_entries(old(self).zoxide.entries(), seq![query@]),
                    e,
                ) && dir_entry_outcome(
                    old(self).git.top_level_of(e.path),
                    e.path,
                    old(self).zellij.sessions(),
                    final (self).zellij.sessions(),
                    old(self).zoxide.entries(),
                    final (self).zoxide.entries(),
                    old(self).fs.cur_dir_of(),
                    final (self).fs.cur_dir_of(),
                ),
            r is Ok ==> fs_views_preserved(old(self).fs, final (self).fs),
            final (self).git == old(self).git,
            !(r matches Err(ConnectError::Git(_))),
            r matches Err(ConnectError::NoMatch(q)) ==> q@ == query@ && matching_entries(
                old(self).zoxide.entries(),
                seq![query@],
            ).len() == 0 && *final (self) == *old(self),
            r matches Err(e) && e is Fs ==> final (self).zellij == old(self).zellij && final (
            self).zoxide == old(self).zoxide,
            r matches Err(e) && e is Zellij ==> final (self).zoxide == old(self).zoxide,
            r matches Err(e) && e is Zoxide ==> *final (self) == *old(self) || (exists|
                e2: ZoxideEntryV,
            |
                #[trigger] best_match_entry(
                    matching_entries(old(self).zoxide.entries(), seq![query@]),
                    e2,
                ) && entered_session(
                    old(self).git.top_level_of(e2.path),
                    e2.path,
                    old(self).zellij.sessions(),
                    final (self).zellij.sessions(),
                    old(self).fs.cur_dir_of(),
                    final (self).fs.cur_dir_of(),
                )) && fs_views_preserved(old(self).fs, final (self).fs),
    {
        broadcast use vstd::prelude::Seq::to_multiset_ensures;
        broadcast use vstd::multiset::group_multiset_axioms;

        let mut keywords: Vec<String> = Vec::new();
        keywords.push(String::from_str(query));
        proof {
            assert(crate::zoxide::string_views(keywords@) =~= seq![query@]);
        }
        let entries = match self.zoxide.query(&keywords) {
            Ok(v) => v,
            Err(e) => {
                return Err(ConnectError::Zoxide(e));
            },
        };
        let ghost m = matching_entries(old(self).zoxide.entries(), seq![query@]);
        if entries.len() == 0 {
            proof {
                assert(entry_views(entries@).to_multiset() =~= m.to_multiset());
                assert(entry_views(entries@).len() == 0);
                assert(m.to_multiset().len() == 0);
                assert(m.len() == 0);
            }
            return Err(ConnectError::NoMatch(String::from_str(query)));
        }
        proof {
            let vs = entry_views(entries@);
            vs.to_multiset_ensures();
            m.to_multiset_ensures();
            assert(string_views(keywords@) =~= seq![query@]);
            assert(vs.to_multiset() == m.to_multiset());
            let top = vs[0];
            assert(vs.contains(vs[0]));
            assert(vs.to_multiset().count(top) > 0);
            assert(m.to_multiset().contains(top));
            assert forall|j: int| 0 <= j < m.len() implies top.score >= #[trigger] m[j].score by {
                assert(m.contains(m[j]));
                assert(m.to_multiset().count(m[j]) > 0);
                assert(vs.to_multiset().count(m[j]) > 0);
                assert(vs.contains(m[j]));
                let idx = choose|idx: int| 0 <= idx < vs.len() && vs[idx] == m[j];
                if idx > 0 {
                    assert(vs[0].score >= vs[idx].score);
                }
            }
            assert(best_match_entry(m, top));
        }
        let path = entries[0].path.clone();
        let r = self.enter_directory(path.as_str(), options);
        proof {
            let top = entry_views(entries@)[0];
            assert(top.path == path@);
            if r is Ok {
                assert(best_match_entry(m, top) && dir_entry_outcome(
                    old(self).git.top_level_of(top.path),
                    top.path,
                    old(self).zellij.sessions(),
                    self.zellij.sessions(),
                    old(self).zoxide.entries(),
                    self.zoxide.entries(),
                    old(self).fs.cur_dir_of(),
                    self.fs.cur_dir_of(),
                ));
            }
            if r is Err && r->Err_0 is Zoxide {
                assert(best_match_entry(m, top) && entered_session(
                    old(self).git.top_level_of(top.path),
                    top.path,
                    old(self).zellij.sessions(),
                    self.zellij.sessions(),
                    old(self).fs.cur_dir_of(),
                    self.fs.cur_dir_of(),
                ));
            }
        }
        r
    }

    /// Resolve `name` by the three-stage fallback: an exact session name
    /// is attached to, else a valid directory path is entered, else the
    /// frecency store is queried; only the two "not found" conditions
    /// fall through, every other failure aborts at once.
    pub fn connect(&mut self, name: &str, options: &ZellijOptions) -> (r: Result<
        (),
        ConnectError,
    >)
        ensures
            has_session(old(self).zellij.sessions(), name@) ==> final (self).zoxide == old(
                self,
            ).zoxide && final (self).fs == old(self).fs && final (self).git == old(self).git && (r
                is Ok ==> attach_outcome(
                name@,
                old(self).zellij.sessions(),
                final (self).zellij.sessions(),
            )) && (r matches Err(e) ==> e is Zellij),
            final (self).git == old(self).git,
            !(r matches Err(ConnectError::Git(_))),
            r matches Err(ConnectError::NoMatch(t)) ==> t@ == name@ && !has_session(
                old(self).zellij.sessions(),
                name@,
            ) && matching_entries(old(self).zoxide.entries(), seq![name@]).len() == 0 && *final (
            self) == *old(self),
            r is Ok ==> fs_views_preserved(old(self).fs, final (self).fs),
            r is Ok ==> attach_outcome(
                name@,
                old(self).zellij.sessions(),
                final (self).zellij.sessions(),
            ) && final (self).zoxide == old(self).zoxide || (exists|c: Seq<char>|
                old(self).fs.canon_of(name@) == Some(c) && old(self).fs.exists_of(c) && old(
                self).fs.is_dir_of(c) && #[trigger] dir_entry_outcome(
                    old(self).git.top_level_of(c),
                    c,
                    old(self).zellij.sessions(),
                    final (self).zellij.sessions(),
                    old(self).zoxide.entries(),
                    final (self).zoxide.entries(),
                    old(self).fs.cur_dir_of(),
                    final (self).fs.cur_dir_of(),
                )) || (exists|e: ZoxideEntryV|
                #[trigger] best_match_entry(
                    matching_entries(old(self).zoxide.entries(), seq![name@]),
                    e,
                ) && dir_entry_outcome(
                    old(self).git.top_level_of(e.path),
                    e.path,
                    old(self).zellij.sessions(),
                    final (self).zellij.sessions(),
                    old(self).zoxide.entries(),
                    final (self).zoxide.entries(),
                    old(self).fs.cur_dir_of(),
                    final (self).fs.cur_dir_of(),
                )),
            r matches Err(e) && e is Zoxide ==> *final (self) == *old(self) || ((exists|
                c: Seq<char>,
            |
                old(self).fs.canon_of(name@) == Some(c) && old(self).fs.exists_of(c) && old(
                self).fs.is_dir_of(c) && #[trigger] entered_session(
                    old(self).git.top_level_of(c),
                    c,
                    old(self).zellij.sessions(),
                    final (self).zellij.sessions(),
                    old(self).fs.cur_dir_of(),
                    final (self).fs.cur_dir_of(),
                )) || (exists|e2: ZoxideEntryV|
                #[trigger] best_match_entry(
                    matching_entries(old(self).zoxide.entries(), seq![name@]),
                    e2,
                ) && entered_session(
                    old(self).git.top_level_of(e2.path),
                    e2.path,
                    old(self).zellij.sessions(),
                    final (self).zellij.sessions(),
                    old(self).fs.cur_dir_of(),
                    final (self).fs.cur_dir_of(),
                ))) && fs_views_preserved(old(self).fs, final (self).fs),
    {
        match self.connect_to_session(name) {
            Ok(u) => {
                return Ok(u);
            },
            Err(ConnectError::NoMatch(_)) => {},
            Err(e) => {
                return Err(e);
            },
        }
        let validated = match self.fs.validate_dir_path(name) {
            Ok(pn) => Some(pn.0),
            Err(_) => None,
        };
        match validated {
            Some(canon) => {
                let r = self.enter_directory(canon.as_str(), options);
                proof {
                    if !(r is Err && r->Err_0 is Zellij) && !(r is Err && r->Err_0 is Fs) {
                        assert(old(self).fs.canon_of(name@) == Some(canon@));
                    }
                }
                match r {
                    Ok(u) => Ok(u),
                    Err(e) => Err(e),
                }
            },
            None => self.connect_via_zoxide(name, options),
        }
    }

    /// List the active sessions, for display.
    pub fn list_sessions(&self) -> (r: Result<Vec<Session>, ConnectError>)
        ensures
            r matches Ok(v) ==> session_views(v@) == self.zellij.sessions(),
            r matches Err(e) ==> e is Zellij,
    {
        match self.zellij.list_sessions() {
            Ok(v) => Ok(v),
            Err(e) => Err(ConnectError::Zellij(e)),
        }
    }
}

} // verus!
