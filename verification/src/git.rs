//! The version-control collaborator interface: repository-root lookup and
//! cloning. The lookup contract speaks about an abstract per-path view;
//! [`MockGit`] and [`StubGit`] are in-memory implementations verified
//! against it, while a process-backed one belongs to the embedding binary.

use vstd::prelude::*;
use vstd::string::*;

verus! {

/// Error type for version-control operations.
#[derive(Debug)]
pub enum GitError {
    /// The underlying command could not be run.
    IoError(String),
    /// The command ran and reported a failure.
    CommandError(String),
}

/// The version-control capability the resolver and cloner consume.
///
/// A lookup answers whether a directory lies inside a repository and, if
/// so, names the repository root; on success the answer agrees with the
/// implementation's `top_level_of` view. A lookup may also fail outright,
/// which callers treat as "not inside a repository".
pub trait Git: Sized {
    /// The repository answer for a directory: whether it is inside a
    /// repository, and the root path (or diagnostic text) reported for
    /// it. The body here is only a default: every implementation checked
    /// by the verifier supplies its own view, and nothing is proved
    /// about one that does not.
    open spec fn top_level_of(&self, p: Seq<char>) -> (bool, Seq<char>) {
        (false, Seq::empty())
    }

    /// The common-directory answer for a directory.
    open spec fn common_dir_of(&self, p: Seq<char>) -> (bool, Seq<char>) {
        (false, Seq::empty())
    }

    /// Whether a directory lies inside a repository and, if so, its root.
    fn show_top_level(&self, name: &str) -> (r: Result<(bool, String), GitError>)
        ensures
            r matches Ok(v) ==> v.0 == self.top_level_of(name@).0 && v.1@ == self.top_level_of(
                name@,
            ).1,
    ;

    /// The repository common directory for a directory.
    fn git_common_dir(&self, name: &str) -> (r: Result<(bool, String), GitError>)
        ensures
            r matches Ok(v) ==> v.0 == self.common_dir_of(name@).0 && v.1@ == self.common_dir_of(
                name@,
            ).1,
    ;

    /// Clone `url` into the directory named `dir` under `cmd_dir`,
    /// handing `extra_args` to the tool verbatim and returning its
    /// output on success.
    fn clone(&self, url: &str, cmd_dir: &str, dir: &str, extra_args: &Vec<String>) -> (r: Result<
        String,
        GitError,
    >);
}

/// An in-memory implementation that always reports the same repository:
/// every directory lies inside `/mock/repo/top-level`, and cloning
/// always succeeds.
pub struct MockGit;

impl Git for MockGit {
    open spec fn top_level_of(&self, p: Seq<char>) -> (bool, Seq<char>) {
        (true, "/mock/repo/top-level"@)
    }

    open spec fn common_dir_of(&self, p: Seq<char>) -> (bool, Seq<char>) {
        (true, "/mock/repo/common-dir"@)
    }

    fn show_top_level(&self, name: &str) -> (r: Result<(bool, String), GitError>)
        ensures
            r is Ok,
    {
        Ok((true, String::from_str("/mock/repo/top-level")))
    }

    fn git_common_dir(&self, name: &str) -> (r: Result<(bool, String), GitError>)
        ensures
            r is Ok,
    {
        Ok((true, String::from_str("/mock/repo/common-dir")))
    }

    fn clone(&self, url: &str, cmd_dir: &str, dir: &str, extra_args: &Vec<String>) -> (r: Result<
        String,
        GitError,
    >)
        ensures
            r is Ok,
    {
        Ok(String::from_str("Mock clone successful"))
    }
}

/// A configurable in-memory implementation: reports the same repository
/// answer for every directory, and cloning succeeds or fails as preset.
pub struct StubGit {
    /// Whether every lookup reports "inside a repository".
    pub in_repo: bool,
    /// The repository root every lookup reports.
    pub root: String,
    /// Whether clone attempts fail.
    pub clone_fails: bool,
}

impl StubGit {
    /// An implementation answering `(in_repo, root)` for every directory,
    /// with cloning succeeding.
    pub fn new(in_repo: bool, root: &str) -> (r: StubGit)
        ensures
            r.in_repo == in_repo,
            r.root@ == root@,
            !r.clone_fails,
    {
        StubGit { in_repo, root: String::from_str(root), clone_fails: false }
    }

    /// An implementation outside any repository whose clone attempts fail.
    pub fn with_failing_clone() -> (r: StubGit)
        ensures
            !r.in_repo,
            r.clone_fails,
    {
        StubGit { in_repo: false, root: String::new(), clone_fails: true }
    }
}

impl Git for StubGit {
    open spec fn top_level_of(&self, p: Seq<char>) -> (bool, Seq<char>) {
        (self.in_repo, self.root@)
    }

    open spec fn common_dir_of(&self, p: Seq<char>) -> (bool, Seq<char>) {
        (self.in_repo, self.root@)
    }

    fn show_top_level(&self, name: &str) -> (r: Result<(bool, String), GitError>)
        ensures
            r is Ok,
    {
        Ok((self.in_repo, self.root.clone()))
    }

    fn git_common_dir(&self, name: &str) -> (r: Result<(bool, String), GitError>)
        ensures
            r is Ok,
    {
        Ok((self.in_repo, self.root.clone()))
    }

    fn clone(&self, url: &str, cmd_dir: &str, dir: &str, extra_args: &Vec<String>) -> (r: Result<
        String,
        GitError,
    >)
        ensures
            r is Ok <==> !self.clone_fails,
    {
        if self.clone_fails {
            Err(GitError::CommandError(String::from_str("clone failed")))
        } else {
            Ok(String::from_str("Mock clone successful"))
        }
    }
}

/// A version-control implementation whose every operation fails to run.
pub struct FailingGit;

impl Git for FailingGit {
    open spec fn top_level_of(&self, p: Seq<char>) -> (bool, Seq<char>) {
        (false, Seq::empty())
    }

    open spec fn common_dir_of(&self, p: Seq<char>) -> (bool, Seq<char>) {
        (false, Seq::empty())
    }

    fn show_top_level(&self, name: &str) -> (r: Result<(bool, String), GitError>)
        ensures
            r is Err,
    {
        Err(GitError::CommandError(String::from_str("failed to run")))
    }

    fn git_common_dir(&self, name: &str) -> (r: Result<(bool, String), GitError>)
        ensures
            r is Err,
    {
        Err(GitError::CommandError(String::from_str("failed to run")))
    }

    fn clone(&self, url: &str, cmd_dir: &str, dir: &str, extra_args: &Vec<String>) -> (r: Result<
        String,
        GitError,
    >)
        ensures
            r is Err,
    {
        Err(GitError::CommandError(String::from_str("failed to run")))
    }
}

/// Handle for the command-line version-control tool. The process-backed
/// [`Git`] implementation belongs to the embedding binary, which spawns
/// the tool and captures its output.
pub struct RealGit;

} // verus!
