//! The filesystem collaborator interface: existence and directory checks,
//! canonicalization, directory names, and the process working directory.
//! The contracts speak about abstract views that each implementation
//! provides; [`MockFs`] is an in-memory implementation verified against
//! them, while a process-backed one belongs to the embedding binary.

use vstd::prelude::*;
use vstd::string::*;

verus! {

/// Error type for filesystem operations.
#[derive(Debug)]
pub enum FsError {
    /// The path does not exist.
    PathNotFound(String),
    /// The path exists but is not a directory.
    NotADirectory(String),
    /// The directory name could not be determined.
    NoDirectoryName(String),
    /// Canonicalization failed.
    Canonicalize(String),
    /// Any other filesystem failure.
    Other(String),
}

/// Whether two filesystem states agree on every view except possibly the
/// current directory: existence, directory-ness, canonical forms and
/// directory names are all unchanged.
pub open spec fn fs_views_preserved<F: FsOperations>(f0: F, f1: F) -> bool {
    forall|q: Seq<char>|
        f1.exists_of(q) == f0.exists_of(q) && f1.is_dir_of(q) == f0.is_dir_of(q) && f1.canon_of(q)
            == f0.canon_of(q) && f1.dir_name_of(q) == f0.dir_name_of(q)
}

/// The filesystem capability the resolver and cloner consume.
///
/// Each implementation exposes its state through the spec views below; the
/// method contracts promise results consistent with those views whenever a
/// call succeeds, and that only the current directory is ever changed.
pub trait FsOperations: Sized {
    /// Whether a path exists. The body here is only a default: every
    /// implementation checked by the verifier supplies its own view,
    /// and nothing is proved about one that does not; the same holds
    /// for the other views below.
    open spec fn exists_of(&self, p: Seq<char>) -> bool {
        false
    }

    /// Whether a path is a directory.
    open spec fn is_dir_of(&self, p: Seq<char>) -> bool {
        false
    }

    /// The canonical form of a path, when one is defined.
    open spec fn canon_of(&self, p: Seq<char>) -> Option<Seq<char>> {
        Option::None
    }

    /// The directory name of a path, when one is defined.
    open spec fn dir_name_of(&self, p: Seq<char>) -> Option<Seq<char>> {
        Option::None
    }

    /// The current working directory.
    open spec fn cur_dir_of(&self) -> Seq<char> {
        Seq::empty()
    }

    /// Check whether a path exists.
    fn path_exists(&self, path: &str) -> (r: bool)
        ensures
            r == self.exists_of(path@),
    ;

    /// Check whether a path is a directory.
    fn is_dir(&self, path: &str) -> (r: bool)
        ensures
            r == self.is_dir_of(path@),
    ;

    /// Canonicalize a path (resolve symlinks and relative parts); a
    /// failure is reported under its own tag.
    fn canonicalize(&self, path: &str) -> (r: Result<String, FsError>)
        ensures
            r matches Ok(c) ==> self.canon_of(path@) == Some(c@),
            r matches Err(e) ==> e is Canonicalize,
    ;

    /// Get the directory name of a path; a failure is reported under its
    /// own tag.
    fn get_dir_name(&self, path: &str) -> (r: Result<String, FsError>)
        ensures
            r matches Ok(n) ==> self.dir_name_of(path@) == Some(n@),
            r matches Err(e) ==> e is NoDirectoryName,
    ;

    /// Set the current working directory.
    fn set_current_dir(&mut self, path: &str) -> (r: Result<(), FsError>)
        ensures
            r is Ok ==> final (self).cur_dir_of() == path@,
            r is Ok ==> forall|q: Seq<char>|
                final (self).exists_of(q) == old(self).exists_of(q) && final (self).is_dir_of(q)
                    == old(self).is_dir_of(q) && final (self).canon_of(q) == old(self).canon_of(q)
                    && final (self).dir_name_of(q) == old(self).dir_name_of(q),
    ;

    /// Get the current working directory.
    fn current_dir(&self) -> (r: Result<String, FsError>)
        ensures
            r matches Ok(d) ==> d@ == self.cur_dir_of(),
    ;

    /// Canonicalize a path and confirm it is an existing directory,
    /// returning the canonical path and its directory name. Each error
    /// names its cause: canonicalization failed, the canonical path does
    /// not exist, it is no directory, or its name could not be read, in
    /// exactly that order.
    fn validate_dir_path(&self, path: &str) -> (r: Result<(String, String), FsError>)
        ensures
            r matches Ok(pn) ==> self.canon_of(path@) == Some(pn.0@) && self.exists_of(pn.0@)
                && self.is_dir_of(pn.0@) && self.dir_name_of(pn.0@) == Some(pn.1@),
            r matches Err(e) ==> e is Canonicalize || e is PathNotFound || e is NotADirectory
                || e is NoDirectoryName,
            r matches Err(e) && e is PathNotFound ==> self.canon_of(path@) is Some
                && !self.exists_of(self.canon_of(path@)->Some_0),
            r matches Err(e) && e is NotADirectory ==> self.canon_of(path@) is Some
                && self.exists_of(self.canon_of(path@)->Some_0) && !self.is_dir_of(
                self.canon_of(path@)->Some_0,
            ),
            r matches Err(e) && e is NoDirectoryName ==> self.canon_of(path@) is Some
                && self.exists_of(self.canon_of(path@)->Some_0) && self.is_dir_of(
                self.canon_of(path@)->Some_0,
            ),
    {
        let canon = match self.canonicalize(path) {
            Ok(c) => c,
            Err(e) => {
                return Err(e);
            },
        };
        if !self.path_exists(canon.as_str()) {
            return Err(FsError::PathNotFound(canon));
        }
        if !self.is_dir(canon.as_str()) {
            return Err(FsError::NotADirectory(canon));
        }
        let name = match self.get_dir_name(canon.as_str()) {
            Ok(n) => n,
            Err(e) => {
                return Err(e);
            },
        };
        Ok((canon, name))
    }
}

/// Canonicalize `target` and confirm it is an existing directory, returning
/// the canonical path and the directory name to use for it; errors name
/// their causes as in [`FsOperations::validate_dir_path`].
pub fn dir_strategy<F: FsOperations>(fs: &F, target: &str) -> (r: Result<
    (String, String),
    FsError,
>)
    ensures
        r matches Ok(pn) ==> fs.canon_of(target@) == Some(pn.0@) && fs.exists_of(pn.0@)
            && fs.is_dir_of(pn.0@) && fs.dir_name_of(pn.0@) == Some(pn.1@),
        r matches Err(e) ==> e is Canonicalize || e is PathNotFound || e is NotADirectory
            || e is NoDirectoryName,
        r matches Err(e) && e is PathNotFound ==> fs.canon_of(target@) is Some && !fs.exists_of(
            fs.canon_of(target@)->Some_0,
        ),
        r matches Err(e) && e is NotADirectory ==> fs.canon_of(target@) is Some && fs.exists_of(
            fs.canon_of(target@)->Some_0,
        ) && !fs.is_dir_of(fs.canon_of(target@)->Some_0),
        r matches Err(e) && e is NoDirectoryName ==> fs.canon_of(target@) is Some && fs.exists_of(
            fs.canon_of(target@)->Some_0,
        ) && fs.is_dir_of(fs.canon_of(target@)->Some_0),
{
    fs.validate_dir_path(target)
}

/// One path known to the in-memory filesystem.
pub struct MockFsEntry {
    /// The path itself.
    pub path: String,
    /// Whether the path is a directory.
    pub is_dir: bool,
    /// The directory name registered for the path, if any.
    pub dir_name: Option<String>,
}

/// The first entry of `s` whose path reads `p`.
pub open spec fn find_fs_entry(s: Seq<MockFsEntry>, p: Seq<char>) -> Option<MockFsEntry>
    decreases s.len(),
{
    if s.len() == 0 {
        Option::None
    } else if s[0].path@ == p {
        Option::Some(s[0])
    } else {
        find_fs_entry(s.drop_first(), p)
    }
}

/// An in-memory filesystem for tests: a table of registered paths plus a
/// current directory. Canonicalization returns paths unchanged.
pub struct MockFs {
    entries: Vec<MockFsEntry>,
    cur_dir: String,
}

impl MockFs {
    /// The registered entries, as the views read them.
    pub closed spec fn entries_view(&self) -> Seq<MockFsEntry> {
        self.entries@
    }

    /// Create an empty in-memory filesystem whose current directory is
    /// `/mock/current`.
    pub fn new() -> (r: MockFs)
        ensures
            r.entries_view() == Seq::<MockFsEntry>::empty(),
            r.cur_dir_of() == "/mock/current"@,
    {
        MockFs { entries: Vec::new(), cur_dir: String::from_str("/mock/current") }
    }

    /// Register `path` as an existing directory named `dir_name`.
    pub fn with_directory(&mut self, path: &str, dir_name: &str)
        ensures
            forall|q: Seq<char>|
                final (self).exists_of(q) == (q == path@ || old(self).exists_of(q)),
            forall|q: Seq<char>|
                final (self).is_dir_of(q) == if q == path@ {
                    true
                } else {
                    old(self).is_dir_of(q)
                },
            forall|q: Seq<char>|
                final (self).dir_name_of(q) == if q == path@ {
                    Some(dir_name@)
                } else {
                    old(self).dir_name_of(q)
                },
            forall|q: Seq<char>| final (self).canon_of(q) == old(self).canon_of(q),
            final (self).cur_dir_of() == old(self).cur_dir_of(),
    {
        let entry = MockFsEntry {
            path: String::from_str(path),
            is_dir: true,
            dir_name: Some(String::from_str(dir_name)),
        };
        self.upsert(entry);
    }

    /// Register `path` as an existing file (not a directory).
    pub fn with_file(&mut self, path: &str)
        ensures
            forall|q: Seq<char>|
                final (self).exists_of(q) == (q == path@ || old(self).exists_of(q)),
            forall|q: Seq<char>|
                final (self).is_dir_of(q) == if q == path@ {
                    false
                } else {
                    old(self).is_dir_of(q)
                },
            forall|q: Seq<char>|
                final (self).dir_name_of(q) == if q == path@ {
                    Option::<Seq<char>>::None
                } else {
                    old(self).dir_name_of(q)
                },
            forall|q: Seq<char>| final (self).canon_of(q) == old(self).canon_of(q),
            final (self).cur_dir_of() == old(self).cur_dir_of(),
    {
        let entry = MockFsEntry { path: String::from_str(path), is_dir: false, dir_name: None };
        self.upsert(entry);
    }

    /// Preset the current directory.
    pub fn with_current_dir(&mut self, path: &str)
        ensures
            final (self).cur_dir_of() == path@,
            forall|q: Seq<char>|
                final (self).exists_of(q) == old(self).exists_of(q) && final (self).is_dir_of(q)
                    == old(self).is_dir_of(q) && final (self).canon_of(q) == old(self).canon_of(q)
                    && final (self).dir_name_of(q) == old(self).dir_name_of(q),
    {
        self.cur_dir = String::from_str(path);
    }

    /// Replace the first entry for the same path, or append one.
    fn upsert(&mut self, entry: MockFsEntry)
        ensures
            find_fs_entry(final (self).entries_view(), entry.path@) == Some(entry),
            forall|q: Seq<char>|
                q != entry.path@ ==> find_fs_entry(final (self).entries_view(), q) == find_fs_entry(
                    old(self).entries_view(),
                    q,
                ),
            final (self).cur_dir_of() == old(self).cur_dir_of(),
    {
        let n = self.entries.len();
        let mut i: usize = 0;
        while i < n
            invariant
                0 <= i <= n,
                n == self.entries@.len(),
                forall|k: int| 0 <= k < i ==> self.entries@[k].path@ != entry.path@,
                self == old(self),
            decreases n - i,
        {
            if crate::paths::str_eq(self.entries[i].path.as_str(), entry.path.as_str()) {
                proof {
                    lemma_find_fs_entry_update(self.entries@, i as int, entry);
                }
                self.entries.set(i, entry);
                return ;
            }
            i += 1;
        }
        proof {
            lemma_find_fs_entry_push(self.entries@, entry);
        }
        self.entries.push(entry);
    }
}

/// Updating the first matching entry changes only lookups of its path.
proof fn lemma_find_fs_entry_update(s: Seq<MockFsEntry>, i: int, e: MockFsEntry)
    requires
        0 <= i < s.len(),
        s[i].path@ == e.path@,
        forall|k: int| 0 <= k < i ==> s[k].path@ != e.path@,
    ensures
        find_fs_entry(s.update(i, e), e.path@) == Some(e),
        forall|q: Seq<char>|
            q != e.path@ ==> find_fs_entry(s.update(i, e), q) == find_fs_entry(s, q),
    decreases i,
{
    if i == 0 {
        assert(s.update(0, e)[0] == e);
        assert forall|q: Seq<char>| q != e.path@ implies find_fs_entry(s.update(0, e), q)
            == find_fs_entry(s, q) by {
            assert(s.update(0, e).drop_first() =~= s.drop_first());
        }
    } else {
        assert forall|k: int| 0 <= k < i - 1 implies s.drop_first()[k].path@ != e.path@ by {
            assert(s.drop_first()[k] == s[k + 1]);
        }
        assert(s.drop_first()[i - 1] == s[i]);
        lemma_find_fs_entry_update(s.drop_first(), i - 1, e);
        assert(s.update(i, e).drop_first() =~= s.drop_first().update(i - 1, e));
        assert(s.update(i, e)[0] == s[0]);
        assert(s[0].path@ != e.path@);
        assert(find_fs_entry(s.update(i, e), e.path@) == Some(e));
        assert forall|q: Seq<char>| q != e.path@ implies find_fs_entry(s.update(i, e), q)
            == find_fs_entry(s, q) by {
            if s[0].path@ == q {
            } else {
                assert(find_fs_entry(s.update(i, e), q) == find_fs_entry(
                    s.drop_first().update(i - 1, e),
                    q,
                ));
                assert(find_fs_entry(s, q) == find_fs_entry(s.drop_first(), q));
            }
        }
    }
}

/// Appending an entry changes only lookups that previously found nothing.
proof fn lemma_find_fs_entry_push(s: Seq<MockFsEntry>, e: MockFsEntry)
    requires
        forall|k: int| 0 <= k < s.len() ==> s[k].path@ != e.path@,
    ensures
        find_fs_entry(s.push(e), e.path@) == Some(e),
        forall|q: Seq<char>| q != e.path@ ==> find_fs_entry(s.push(e), q) == find_fs_entry(s, q),
    decreases s.len(),
{
    if s.len() == 0 {
        assert(s.push(e)[0] == e);
        assert forall|q: Seq<char>| q != e.path@ implies find_fs_entry(s.push(e), q)
            == find_fs_entry(s, q) by {
            assert(s.push(e).drop_first() =~= Seq::<MockFsEntry>::empty());
            assert(find_fs_entry(Seq::<MockFsEntry>::empty(), q) is None);
            assert(find_fs_entry(s.push(e), q) == find_fs_entry(s.push(e).drop_first(), q));
        }
    } else {
        assert forall|k: int| 0 <= k < s.drop_first().len() implies s.drop_first()[k].path@
            != e.path@ by {
            assert(s.drop_first()[k] == s[k + 1]);
        }
        lemma_find_fs_entry_push(s.drop_first(), e);
        assert(s.push(e).drop_first() =~= s.drop_first().push(e));
        assert(s.push(e)[0] == s[0]);
        assert(s[0].path@ != e.path@);
        assert(find_fs_entry(s.push(e), e.path@) == Some(e));
        assert forall|q: Seq<char>| q != e.path@ implies find_fs_entry(s.push(e), q)
            == find_fs_entry(s, q) by {
            if s[0].path@ == q {
            } else {
                assert(find_fs_entry(s.push(e), q) == find_fs_entry(s.drop_first().push(e), q));
                assert(find_fs_entry(s, q) == find_fs_entry(s.drop_first(), q));
            }
        }
    }
}

/// `find_fs_entry` over a suffix: skipping known non-matching entries.
proof fn lemma_find_fs_entry_skip(s: Seq<MockFsEntry>, i: int, p: Seq<char>)
    requires
        0 <= i <= s.len(),
        forall|k: int| 0 <= k < i ==> s[k].path@ != p,
    ensures
        find_fs_entry(s, p) == find_fs_entry(s.skip(i), p),
    decreases i,
{
    if i > 0 {
        assert forall|k: int| 0 <= k < i - 1 implies s.drop_first()[k].path@ != p by {
            assert(s.drop_first()[k] == s[k + 1]);
        }
        lemma_find_fs_entry_skip(s.drop_first(), i - 1, p);
        assert(s.drop_first().skip(i - 1) =~= s.skip(i));
        assert(s[0].path@ != p);
        assert(find_fs_entry(s, p) == find_fs_entry(s.drop_first(), p));
    } else {
        assert(s.skip(0) =~= s);
    }
}

impl MockFs {
    /// Find the first entry for `p`, as an index.
    fn lookup(&self, p: &str) -> (r: Option<usize>)
        ensures
            r matches Some(i) ==> i < self.entries_view().len() && find_fs_entry(
                self.entries_view(),
                p@,
            ) == Some(self.entries_view()[i as int]),
            r is None ==> find_fs_entry(self.entries_view(), p@) is None,
    {
        let n = self.entries.len();
        let mut i: usize = 0;
        while i < n
            invariant
                0 <= i <= n,
                n == self.entries@.len(),
                forall|k: int| 0 <= k < i ==> self.entries@[k].path@ != p@,
            decreases n - i,
        {
            if crate::paths::str_eq(self.entries[i].path.as_str(), p) {
                proof {
                    lemma_find_fs_entry_skip(self.entries@, i as int, p@);
                    assert(self.entries@.skip(i as int)[0] == self.entries@[i as int]);
                }
                return Some(i);
            }
            i += 1;
        }
        proof {
            lemma_find_fs_entry_skip(self.entries@, n as int, p@);
            assert(self.entries@.skip(n as int).len() == 0);
        }
        None
    }
}

impl FsOperations for MockFs {
    open spec fn exists_of(&self, p: Seq<char>) -> bool {
        find_fs_entry(self.entries_view(), p) is Some
    }

    open spec fn is_dir_of(&self, p: Seq<char>) -> bool {
        match find_fs_entry(self.entries_view(), p) {
            Option::Some(e) => e.is_dir,
            Option::None => false,
        }
    }

    open spec fn canon_of(&self, p: Seq<char>) -> Option<Seq<char>> {
        Option::Some(p)
    }

    open spec fn dir_name_of(&self, p: Seq<char>) -> Option<Seq<char>> {
        match find_fs_entry(self.entries_view(), p) {
            Option::Some(e) => match e.dir_name {
                Option::Some(n) => Option::Some(n@),
                Option::None => Option::None,
            },
            Option::None => Option::None,
        }
    }

    closed spec fn cur_dir_of(&self) -> Seq<char> {
        self.cur_dir@
    }

    fn path_exists(&self, path: &str) -> (r: bool) {
        self.lookup(path).is_some()
    }

    fn is_dir(&self, path: &str) -> (r: bool) {
        match self.lookup(path) {
            Some(i) => self.entries[i].is_dir,
            None => false,
        }
    }

    fn canonicalize(&self, path: &str) -> (r: Result<String, FsError>)
        ensures
            r is Ok,
    {
        Ok(String::from_str(path))
    }

    fn get_dir_name(&self, path: &str) -> (r: Result<String, FsError>)
        ensures
            r is Ok <==> self.dir_name_of(path@) is Some,
    {
        match self.lookup(path) {
            Some(i) => match &self.entries[i].dir_name {
                Some(n) => Ok(n.clone()),
                None => Err(FsError::NoDirectoryName(String::from_str(path))),
            },
            None => Err(FsError::NoDirectoryName(String::from_str(path))),
        }
    }

    fn set_current_dir(&mut self, path: &str) -> (r: Result<(), FsError>)
        ensures
            r is Ok,
    {
        self.cur_dir = String::from_str(path);
        Ok(())
    }

    fn current_dir(&self) -> (r: Result<String, FsError>)
        ensures
            r is Ok,
    {
        Ok(self.cur_dir.clone())
    }
}

/// A filesystem whose every operation fails; for exercising error paths.
pub struct FailingFs;

impl FailingFs {
    /// Create a failing filesystem.
    pub fn new() -> (r: FailingFs) {
        FailingFs
    }
}

impl FsOperations for FailingFs {
    open spec fn exists_of(&self, p: Seq<char>) -> bool {
        false
    }

    open spec fn is_dir_of(&self, p: Seq<char>) -> bool {
        false
    }

    open spec fn canon_of(&self, p: Seq<char>) -> Option<Seq<char>> {
        Option::None
    }

    open spec fn dir_name_of(&self, p: Seq<char>) -> Option<Seq<char>> {
        Option::None
    }

    open spec fn cur_dir_of(&self) -> Seq<char> {
        Seq::empty()
    }

    fn path_exists(&self, path: &str) -> (r: bool) {
        false
    }

    fn is_dir(&self, path: &str) -> (r: bool) {
        false
    }

    fn canonicalize(&self, path: &str) -> (r: Result<String, FsError>)
        ensures
            r is Err,
    {
        Err(FsError::Canonicalize(String::from_str("failed to canonicalize")))
    }

    fn get_dir_name(&self, path: &str) -> (r: Result<String, FsError>)
        ensures
            r is Err,
    {
        Err(FsError::NoDirectoryName(String::from_str(path)))
    }

    fn set_current_dir(&mut self, path: &str) -> (r: Result<(), FsError>)
        ensures
            r is Err,
    {
        Err(FsError::Other(String::from_str("failed to set current dir")))
    }

    fn current_dir(&self) -> (r: Result<String, FsError>)
        ensures
            r is Err,
    {
        Err(FsError::Other(String::from_str("failed to get current dir")))
    }
}

/// Handle for the filesystem of the running process. The process-backed
/// [`FsOperations`] implementation belongs to the embedding binary, which
/// performs the actual system calls.
#[derive(Copy, Clone)]
pub struct RealFs;

impl RealFs {
    /// Create a new handle.
    pub fn new() -> (r: RealFs) {
        RealFs
    }
}

impl Default for RealFs {
    fn default() -> (r: Self) {
        RealFs::new()
    }
}

} // verus!
