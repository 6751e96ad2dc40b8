//! The terminal-multiplexer collaborator interface: named, attachable
//! sessions and the tab operations of the current session. The contracts
//! speak about sequences of session and tab views; [`MockZellijClient`] is
//! an in-memory implementation verified against them, while a
//! process-backed one belongs to the embedding binary. The parser for the
//! session-listing output of the real tool also lives here, verified.

use vstd::prelude::*;
use vstd::string::*;

use crate::options::ZellijOptions;
use crate::paths::str_eq;

verus! {

/// Error type for multiplexer operations.
#[derive(Debug)]
pub enum ZellijError {
    /// The command could not be executed or reported failure.
    CommandExecution(String),
    /// The command's output could not be parsed.
    OutputParsing(String),
    /// An input/output failure.
    Io(String),
    /// Output was not valid UTF-8.
    Utf8(String),
}

/// A multiplexer session.
#[derive(Debug, PartialEq, Eq)]
pub struct Session {
    /// The session's name, unique among active sessions.
    pub name: String,
    /// Whether this is the currently attached session.
    pub is_current: bool,
}

/// The mathematical view of a session.
pub struct SessionV {
    /// The name's characters.
    pub name: Seq<char>,
    /// Whether this is the currently attached session.
    pub is_current: bool,
}

impl View for Session {
    type V = SessionV;

    open spec fn view(&self) -> SessionV {
        SessionV { name: self.name@, is_current: self.is_current }
    }
}

impl Clone for Session {
    fn clone(&self) -> (r: Self)
        ensures
            r@ == self@,
    {
        Session { name: self.name.clone(), is_current: self.is_current }
    }
}

/// A pane of a tab.
#[derive(Debug, PartialEq, Eq)]
pub struct Pane {
    /// The pane's identifier.
    pub id: u32,
    /// The pane's name, if any.
    pub name: Option<String>,
    /// Whether the pane is focused.
    pub is_focused: bool,
    /// Whether the pane is a plugin pane.
    pub is_plugin: bool,
}

/// The mathematical view of a pane.
pub struct PaneV {
    /// The pane's identifier.
    pub id: u32,
    /// The pane's name, if any.
    pub name: Option<Seq<char>>,
    /// Whether the pane is focused.
    pub is_focused: bool,
    /// Whether the pane is a plugin pane.
    pub is_plugin: bool,
}

/// The view of an optional string.
pub open spec fn opt_view(o: Option<String>) -> Option<Seq<char>> {
    match o {
        Option::Some(s) => Option::Some(s@),
        Option::None => Option::None,
    }
}

/// The view of an optional string slice.
pub open spec fn opt_str_view(o: Option<&str>) -> Option<Seq<char>> {
    match o {
        Option::Some(s) => Option::Some(s@),
        Option::None => Option::None,
    }
}

impl View for Pane {
    type V = PaneV;

    open spec fn view(&self) -> PaneV {
        PaneV {
            id: self.id,
            name: opt_view(self.name),
            is_focused: self.is_focused,
            is_plugin: self.is_plugin,
        }
    }
}

/// Duplicate an optional string.
fn clone_opt_string(o: &Option<String>) -> (r: Option<String>)
    ensures
        opt_view(r) == opt_view(*o),
{
    match o {
        Some(s) => Some(s.clone()),
        None => None,
    }
}

impl Clone for Pane {
    fn clone(&self) -> (r: Self)
        ensures
            r@ == self@,
    {
        Pane {
            id: self.id,
            name: clone_opt_string(&self.name),
            is_focused: self.is_focused,
            is_plugin: self.is_plugin,
        }
    }
}

/// A tab of a session.
#[derive(Debug, PartialEq, Eq)]
pub struct Tab {
    /// The tab's position in its session.
    pub position: u32,
    /// The tab's name, if any.
    pub name: Option<String>,
    /// Whether the tab is the active one.
    pub is_active: bool,
    /// The tab's panes.
    pub panes: Vec<Pane>,
}

/// The mathematical view of a tab.
pub struct TabV {
    /// The tab's position in its session.
    pub position: u32,
    /// The tab's name, if any.
    pub name: Option<Seq<char>>,
    /// Whether the tab is the active one.
    pub is_active: bool,
    /// The views of the tab's panes.
    pub panes: Seq<PaneV>,
}

impl View for Tab {
    type V = TabV;

    open spec fn view(&self) -> TabV {
        TabV {
            position: self.position,
            name: opt_view(self.name),
            is_active: self.is_active,
            panes: self.panes@.map_values(|p: Pane| p@),
        }
    }
}

impl Clone for Tab {
    fn clone(&self) -> (r: Self)
        ensures
            r@ == self@,
    {
        let mut panes: Vec<Pane> = Vec::new();
        let n = self.panes.len();
        let mut i: usize = 0;
        while i < n
            invariant
                0 <= i <= n,
                n == self.panes@.len(),
                panes@.len() == i,
                forall|k: int| 0 <= k < i ==> panes@[k]@ == self.panes@[k]@,
            decreases n - i,
        {
            panes.push(self.panes[i].clone());
            i += 1;
        }
        let r = Tab {
            position: self.position,
            name: clone_opt_string(&self.name),
            is_active: self.is_active,
            panes,
        };
        proof {
            assert(r@.panes =~= self@.panes);
        }
        r
    }
}

/// The views of a listing.
pub open spec fn session_views(v: Seq<Session>) -> Seq<SessionV> {
    v.map_values(|s: Session| s@)
}

/// The views of a tab listing.
pub open spec fn tab_views(v: Seq<Tab>) -> Seq<TabV> {
    v.map_values(|t: Tab| t@)
}

/// Whether a session named `n` is present.
pub open spec fn has_session(s: Seq<SessionV>, n: Seq<char>) -> bool {
    exists|i: int| 0 <= i < s.len() && s[i].name == n
}

/// All sessions with the flag set exactly on those named `n`.
pub open spec fn set_current(s: Seq<SessionV>, n: Seq<char>) -> Seq<SessionV> {
    Seq::new(s.len(), |i: int| SessionV { name: s[i].name, is_current: s[i].name == n })
}

/// The attach-or-create step: attach to `n` when present, else create it;
/// either way `n` ends up the one current session.
pub open spec fn open_session(s: Seq<SessionV>, n: Seq<char>) -> Seq<SessionV> {
    if has_session(s, n) {
        set_current(s, n)
    } else {
        set_current(s, n).push(SessionV { name: n, is_current: true })
    }
}

/// After the attach-or-create step, a session is current exactly when it
/// carries the target name: since active session names are unique, at
/// most one session in a listing is current.
pub proof fn lemma_open_session_one_current(s: Seq<SessionV>, n: Seq<char>)
    ensures
        forall|i: int|
            0 <= i < open_session(s, n).len() ==> (open_session(s, n)[i].is_current <==> open_session(
                s,
                n,
            )[i].name == n),
{
    let s1 = open_session(s, n);
    assert forall|i: int| 0 <= i < s1.len() implies (s1[i].is_current <==> s1[i].name == n) by {
        if has_session(s, n) || i < s.len() {
            assert(s1[i] == set_current(s, n)[i]);
        }
    }
}

/// All tabs deactivated.
pub open spec fn deactivate_all(t: Seq<TabV>) -> Seq<TabV> {
    Seq::new(
        t.len(),
        |i: int|
            TabV { position: t[i].position, name: t[i].name, is_active: false, panes: t[i].panes },
    )
}

/// A fresh active tab named `n` appended after deactivating the rest.
pub open spec fn push_tab(t: Seq<TabV>, n: Option<Seq<char>>) -> Seq<TabV> {
    deactivate_all(t).push(
        TabV { position: t.len() as u32, name: n, is_active: true, panes: Seq::empty() },
    )
}

/// Whether some tab is active.
pub open spec fn has_active_tab(t: Seq<TabV>) -> bool {
    exists|i: int| 0 <= i < t.len() && t[i].is_active
}

/// The index a closed tab hands activity to: its own position, clamped to
/// the end of the remaining tabs.
pub open spec fn close_target(i: int, len: int) -> int {
    if i <= len - 1 {
        i
    } else {
        len - 1
    }
}

/// The tabs after closing the tab at `i`: it is removed, positions are
/// renumbered, and the tab at the hand-over index becomes active.
pub open spec fn close_tabs(t: Seq<TabV>, i: int) -> Seq<TabV>
    recommends
        0 <= i < t.len(),
{
    let rem = t.remove(i);
    Seq::new(
        rem.len(),
        |k: int|
            TabV {
                position: k as u32,
                name: rem[k].name,
                is_active: rem[k].is_active || k == close_target(i, rem.len() as int),
                panes: rem[k].panes,
            },
    )
}

/// The multiplexer capability the resolver and cloner consume.
///
/// Each implementation exposes its sessions and tabs through the spec
/// views below; the method contracts promise, whenever a call succeeds,
/// results and state changes consistent with those views.
pub trait ZellijOperations: Sized {
    /// The active sessions. The body here is only a default: every
    /// implementation checked by the verifier supplies its own view,
    /// and nothing is proved about one that does not.
    open spec fn sessions(&self) -> Seq<SessionV> {
        Seq::empty()
    }

    /// The tabs of the current session. The body here is only a default,
    /// as for `sessions`.
    open spec fn tabs(&self) -> Seq<TabV> {
        Seq::empty()
    }

    /// List all active sessions.
    fn list_sessions(&self) -> (r: Result<Vec<Session>, ZellijError>)
        ensures
            r matches Ok(v) ==> session_views(v@) == self.sessions(),
    ;

    /// Attach to an existing session: it becomes the one current session.
    fn attach_session(&mut self, session_name: &str) -> (r: Result<(), ZellijError>)
        ensures
            r is Ok ==> has_session(old(self).sessions(), session_name@),
            r is Ok ==> final (self).sessions() == set_current(
                old(self).sessions(),
                session_name@,
            ),
            r is Ok ==> final (self).tabs() == old(self).tabs(),
    ;

    /// Create a session (or take over the name) and make it current.
    fn new_session(&mut self, session_name: &str, options: &ZellijOptions) -> (r: Result<
        (),
        ZellijError,
    >)
        ensures
            r is Ok ==> final (self).sessions() == open_session(
                old(self).sessions(),
                session_name@,
            ),
            r is Ok ==> final (self).tabs() == old(self).tabs(),
    ;

    /// Close a session.
    fn kill_session(&mut self, session_name: &str) -> (r: Result<(), ZellijError>)
        ensures
            r is Ok ==> exists|i: int|
                0 <= i < old(self).sessions().len() && old(self).sessions()[i].name
                    == session_name@ && (forall|k: int|
                    0 <= k < i ==> old(self).sessions()[k].name != session_name@) && final (
                self).sessions() == old(self).sessions().remove(i),
            r is Ok ==> final (self).tabs() == old(self).tabs(),
    ;

    /// List all tabs in the current session.
    fn list_tabs(&self) -> (r: Result<Vec<Tab>, ZellijError>)
        ensures
            r matches Ok(v) ==> tab_views(v@) == self.tabs(),
    ;

    /// Create a new tab, optionally named, and make it the active one.
    fn new_tab(&mut self, name: Option<&str>) -> (r: Result<(), ZellijError>)
        ensures
            r is Ok ==> final (self).tabs() == push_tab(old(self).tabs(), opt_str_view(name)),
            r is Ok ==> final (self).sessions() == old(self).sessions(),
    ;

    /// Rename the active tab.
    fn rename_tab(&mut self, name: &str) -> (r: Result<(), ZellijError>)
        ensures
            r is Ok ==> exists|i: int|
                0 <= i < old(self).tabs().len() && old(self).tabs()[i].is_active && (forall|k: int|
                    0 <= k < i ==> !old(self).tabs()[k].is_active) && final (self).tabs() == old(
                    self,
                ).tabs().update(
                    i,
                    TabV {
                        position: old(self).tabs()[i].position,
                        name: Some(name@),
                        is_active: true,
                        panes: old(self).tabs()[i].panes,
                    },
                ),
            r is Ok ==> final (self).sessions() == old(self).sessions(),
    ;

    /// Close the active tab.
    fn close_tab(&mut self) -> (r: Result<(), ZellijError>)
        ensures
            r is Ok ==> exists|i: int|
                0 <= i < old(self).tabs().len() && old(self).tabs()[i].is_active && (forall|k: int|
                    0 <= k < i ==> !old(self).tabs()[k].is_active) && final (self).tabs()
                    == close_tabs(old(self).tabs(), i),
            r is Ok ==> final (self).sessions() == old(self).sessions(),
    ;

    /// Run a command in a new pane.
    fn run_command(&self, command: &str, args: &Vec<String>) -> (r: Result<(), ZellijError>);
}

/// The index of the first session named `name` in a listing.
pub fn find_session_index(v: &Vec<Session>, name: &str) -> (r: Option<usize>)
    ensures
        r matches Some(i) ==> i < v@.len() && v@[i as int].name@ == name@ && forall|k: int|
            0 <= k < i ==> v@[k].name@ != name@,
        r is None ==> !has_session(session_views(v@), name@),
{
    let n = v.len();
    let mut i: usize = 0;
    while i < n
        invariant
            0 <= i <= n,
            n == v@.len(),
            forall|k: int| 0 <= k < i ==> v@[k].name@ != name@,
        decreases n - i,
    {
        if str_eq(v[i].name.as_str(), name) {
            return Some(i);
        }
        i += 1;
    }
    proof {
        assert forall|k: int| 0 <= k < session_views(v@).len() implies session_views(v@)[k].name
            != name@ by {
            assert(session_views(v@)[k] == v@[k]@);
        }
    }
    None
}

/// The index of the first active tab in a listing.
pub fn first_active_index(v: &Vec<Tab>) -> (r: Option<usize>)
    ensures
        r matches Some(i) ==> i < v@.len() && tab_views(v@)[i as int].is_active && forall|k: int|
            0 <= k < i ==> !tab_views(v@)[k].is_active,
        r is None ==> forall|k: int| 0 <= k < v@.len() ==> !tab_views(v@)[k].is_active,
        r is Some <==> has_active_tab(tab_views(v@)),
{
    let n = v.len();
    let mut i: usize = 0;
    while i < n
        invariant
            0 <= i <= n,
            n == v@.len(),
            forall|k: int| 0 <= k < i ==> !tab_views(v@)[k].is_active,
        decreases n - i,
    {
        if v[i].is_active {
            proof {
                assert(tab_views(v@)[i as int] == v@[i as int]@);
                assert(has_active_tab(tab_views(v@)));
            }
            return Some(i);
        }
        proof {
            assert(tab_views(v@)[i as int] == v@[i as int]@);
        }
        i += 1;
    }
    None
}

/// An in-memory multiplexer for tests: a session table and a tab list.
pub struct MockZellijClient {
    sessions: Vec<Session>,
    tabs: Vec<Tab>,
}

impl MockZellijClient {
    /// Create a multiplexer with no sessions and no tabs.
    pub fn new() -> (r: MockZellijClient)
        ensures
            r.sessions() == Seq::<SessionV>::empty(),
            r.tabs() == Seq::<TabV>::empty(),
    {
        let r = MockZellijClient { sessions: Vec::new(), tabs: Vec::new() };
        proof {
            assert(r.sessions() =~= Seq::<SessionV>::empty());
            assert(r.tabs() =~= Seq::<TabV>::empty());
        }
        r
    }

    /// Preset the session table.
    pub fn with_sessions(sessions: Vec<Session>) -> (r: MockZellijClient)
        ensures
            r.sessions() == session_views(sessions@),
            r.tabs() == Seq::<TabV>::empty(),
    {
        let r = MockZellijClient { sessions, tabs: Vec::new() };
        proof {
            assert(r.tabs() =~= Seq::<TabV>::empty());
        }
        r
    }

    /// Preset the tab list.
    pub fn with_tabs(tabs: Vec<Tab>) -> (r: MockZellijClient)
        ensures
            r.sessions() == Seq::<SessionV>::empty(),
            r.tabs() == tab_views(tabs@),
    {
        let r = MockZellijClient { sessions: Vec::new(), tabs };
        proof {
            assert(r.sessions() =~= Seq::<SessionV>::empty());
        }
        r
    }

    /// Set the flag of every session to "named `name`".
    fn mark_current(&mut self, name: &str)
        ensures
            session_views(final (self).sessions@) == set_current(
                session_views(old(self).sessions@),
                name@,
            ),
            final (self).tabs@ == old(self).tabs@,
    {
        let n = self.sessions.len();
        let mut i: usize = 0;
        while i < n
            invariant
                0 <= i <= n,
                n == self.sessions@.len(),
                self.tabs@ == old(self).tabs@,
                forall|k: int| i <= k < n ==> self.sessions@[k] == old(self).sessions@[k],
                forall|k: int|
                    0 <= k < i ==> self.sessions@[k]@ == (SessionV {
                        name: old(self).sessions@[k].name@,
                        is_current: old(self).sessions@[k].name@ == name@,
                    }),
            decreases n - i,
        {
            let nm = self.sessions[i].name.clone();
            let cur = str_eq(nm.as_str(), name);
            self.sessions.set(i, Session { name: nm, is_current: cur });
            i += 1;
        }
        proof {
            assert(session_views(self.sessions@) =~= set_current(
                session_views(old(self).sessions@),
                name@,
            ));
        }
    }
}

impl ZellijOperations for MockZellijClient {
    closed spec fn sessions(&self) -> Seq<SessionV> {
        session_views(self.sessions@)
    }

    closed spec fn tabs(&self) -> Seq<TabV> {
        tab_views(self.tabs@)
    }

    fn list_sessions(&self) -> (r: Result<Vec<Session>, ZellijError>)
        ensures
            r is Ok,
    {
        let n = self.sessions.len();
        let mut out: Vec<Session> = Vec::new();
        let mut i: usize = 0;
        while i < n
            invariant
                0 <= i <= n,
                n == self.sessions@.len(),
                out@.len() == i,
                forall|k: int| 0 <= k < i ==> out@[k]@ == self.sessions@[k]@,
            decreases n - i,
        {
            out.push(self.sessions[i].clone());
            i += 1;
        }
        proof {
            assert(session_views(out@) =~= session_views(self.sessions@));
        }
        Ok(out)
    }

    fn attach_session(&mut self, session_name: &str) -> (r: Result<(), ZellijError>)
        ensures
            r is Ok <==> has_session(old(self).sessions(), session_name@),
    {
        match find_session_index(&self.sessions, session_name) {
            Some(i) => {
                proof {
                    assert(session_views(self.sessions@)[i as int].name == session_name@);
                    assert(has_session(session_views(self.sessions@), session_name@));
                }
                self.mark_current(session_name);
                Ok(())
            },
            None => {
                let mut msg = String::from_str("Session '");
                msg.append(session_name);
                msg.append("' not found");
                Err(ZellijError::CommandExecution(msg))
            },
        }
    }

    fn new_session(&mut self, session_name: &str, options: &ZellijOptions) -> (r: Result<
        (),
        ZellijError,
    >)
        ensures
            r is Ok,
    {
        let found = match find_session_index(&self.sessions, session_name) {
            Some(i) => {
                proof {
                    assert(session_views(self.sessions@)[i as int].name == session_name@);
                    assert(has_session(session_views(self.sessions@), session_name@));
                }
                true
            },
            None => false,
        };
        self.mark_current(session_name);
        if !found {
            self.sessions.push(
                Session { name: String::from_str(session_name), is_current: true },
            );
            proof {
                assert(session_views(self.sessions@) =~= set_current(
                    session_views(old(self).sessions@),
                    session_name@,
                ).push(SessionV { name: session_name@, is_current: true }));
            }
        }
        Ok(())
    }

    fn kill_session(&mut self, session_name: &str) -> (r: Result<(), ZellijError>)
        ensures
            r is Ok <==> has_session(old(self).sessions(), session_name@),
    {
        match find_session_index(&self.sessions, session_name) {
            Some(i) => {
                proof {
                    assert(session_views(self.sessions@)[i as int].name == session_name@);
                    assert(forall|k: int|
                        0 <= k < i ==> session_views(self.sessions@)[k].name != session_name@);
                }
                self.sessions.remove(i);
                proof {
                    let ghost w = i as int;
                    assert(session_views(self.sessions@) =~= session_views(
                        old(self).sessions@,
                    ).remove(w));
                    assert(0 <= w < old(self).sessions().len() && old(self).sessions()[w].name
                        == session_name@ && (forall|k: int|
                        0 <= k < w ==> old(self).sessions()[k].name != session_name@)
                        && self.sessions() == old(self).sessions().remove(w));
                }
                Ok(())
            },
            None => {
                let mut msg = String::from_str("Session '");
                msg.append(session_name);
                msg.append("' not found");
                Err(ZellijError::CommandExecution(msg))
            },
        }
    }

    fn list_tabs(&self) -> (r: Result<Vec<Tab>, ZellijError>)
        ensures
            r is Ok,
    {
        let n = self.tabs.len();
        let mut out: Vec<Tab> = Vec::new();
        let mut i: usize = 0;
        while i < n
            invariant
                0 <= i <= n,
                n == self.tabs@.len(),
                out@.len() == i,
                forall|k: int| 0 <= k < i ==> out@[k]@ == self.tabs@[k]@,
            decreases n - i,
        {
            out.push(self.tabs[i].clone());
            i += 1;
        }
        proof {
            assert(tab_views(out@) =~= tab_views(self.tabs@));
        }
        Ok(out)
    }

    fn new_tab(&mut self, name: Option<&str>) -> (r: Result<(), ZellijError>)
        ensures
            r is Ok,
    {
        let n = self.tabs.len();
        let mut i: usize = 0;
        while i < n
            invariant
                0 <= i <= n,
                n == self.tabs@.len(),
                self.sessions@ == old(self).sessions@,
                forall|k: int| i <= k < n ==> self.tabs@[k] == old(self).tabs@[k],
                forall|k: int|
                    0 <= k < i ==> self.tabs@[k]@ == (TabV {
                        position: old(self).tabs@[k]@.position,
                        name: old(self).tabs@[k]@.name,
                        is_active: false,
                        panes: old(self).tabs@[k]@.panes,
                    }),
            decreases n - i,
        {
            let mut t = self.tabs[i].clone();
            t.is_active = false;
            self.tabs.set(i, t);
            i += 1;
        }
        let named = match name {
            Some(s) => Some(String::from_str(s)),
            None => None,
        };
        #[verifier::truncate]
        let position = n as u32;
        self.tabs.push(Tab { position, name: named, is_active: true, panes: Vec::new() });
        proof {
            assert(self.tabs@.last()@.panes =~= Seq::<PaneV>::empty());
            assert(tab_views(self.tabs@) =~= push_tab(
                tab_views(old(self).tabs@),
                opt_str_view(name),
            ));
        }
        Ok(())
    }

    fn rename_tab(&mut self, name: &str) -> (r: Result<(), ZellijError>)
        ensures
            r is Ok <==> has_active_tab(old(self).tabs()),
    {
        match first_active_index(&self.tabs) {
            Some(i) => {
                let mut t = self.tabs[i].clone();
                t.name = Some(String::from_str(name));
                self.tabs.set(i, t);
                proof {
                    let ghost w = i as int;
                    assert(tab_views(self.tabs@) =~= tab_views(old(self).tabs@).update(
                        w,
                        TabV {
                            position: tab_views(old(self).tabs@)[w].position,
                            name: Some(name@),
                            is_active: true,
                            panes: tab_views(old(self).tabs@)[w].panes,
                        },
                    ));
                    assert(0 <= w < old(self).tabs().len() && old(self).tabs()[w].is_active && (
                    forall|k: int| 0 <= k < w ==> !old(self).tabs()[k].is_active) && self.tabs()
                        == old(self).tabs().update(
                        w,
                        TabV {
                            position: old(self).tabs()[w].position,
                            name: Some(name@),
                            is_active: true,
                            panes: old(self).tabs()[w].panes,
                        },
                    ));
                }
                Ok(())
            },
            None => Err(ZellijError::CommandExecution(String::from_str("No active tab found"))),
        }
    }

    fn close_tab(&mut self) -> (r: Result<(), ZellijError>)
        ensures
            r is Ok <==> has_active_tab(old(self).tabs()),
    {
        let index = match first_active_index(&self.tabs) {
            Some(a) => a,
            None => {
                return Err(
                    ZellijError::CommandExecution(String::from_str("No active tab found")),
                );
            },
        };
        self.tabs.remove(index);
        let ghost rem = tab_views(old(self).tabs@).remove(index as int);
        proof {
            assert(tab_views(self.tabs@) =~= rem);
        }
        let tab_len = self.tabs.len();
        let target: usize = if tab_len > 0 {
            if index <= tab_len - 1 {
                index
            } else {
                tab_len - 1
            }
        } else {
            0
        };
        let mut k: usize = 0;
        while k < tab_len
            invariant
                0 <= k <= tab_len,
                tab_len == self.tabs@.len(),
                tab_len == rem.len(),
                self.sessions@ == old(self).sessions@,
                tab_len > 0 ==> target as int == close_target(index as int, tab_len as int),
                forall|m: int| k <= m < tab_len ==> self.tabs@[m]@ == rem[m],
                forall|m: int|
                    0 <= m < k ==> self.tabs@[m]@ == (TabV {
                        position: m as u32,
                        name: rem[m].name,
                        is_active: rem[m].is_active || m == close_target(
                            index as int,
                            tab_len as int,
                        ),
                        panes: rem[m].panes,
                    }),
            decreases tab_len - k,
        {
            let mut t = self.tabs[k].clone();
            let pos = #[verifier::truncate] (k as u32);
            t.position = pos;
            if k == target {
                t.is_active = true;
            }
            self.tabs.set(k, t);
            k += 1;
        }
        proof {
            let ghost w = index as int;
            assert(tab_views(self.tabs@) =~= close_tabs(tab_views(old(self).tabs@), w));
            assert(0 <= w < old(self).tabs().len() && old(self).tabs()[w].is_active && (forall|
                k: int,
            | 0 <= k < w ==> !old(self).tabs()[k].is_active) && self.tabs() == close_tabs(
                old(self).tabs(),
                w,
            ));
        }
        Ok(())
    }

    fn run_command(&self, command: &str, args: &Vec<String>) -> (r: Result<(), ZellijError>)
        ensures
            r is Ok,
    {
        Ok(())
    }
}

/// A multiplexer whose every operation fails; for exercising error paths.
pub struct FailingZellijClient;

impl FailingZellijClient {
    /// Create a failing multiplexer.
    pub fn new() -> (r: FailingZellijClient) {
        FailingZellijClient
    }
}

impl ZellijOperations for FailingZellijClient {
    open spec fn sessions(&self) -> Seq<SessionV> {
        Seq::empty()
    }

    open spec fn tabs(&self) -> Seq<TabV> {
        Seq::empty()
    }

    fn list_sessions(&self) -> (r: Result<Vec<Session>, ZellijError>)
        ensures
            r is Err,
    {
        Err(ZellijError::CommandExecution(String::from_str("Command failed")))
    }

    fn attach_session(&mut self, session_name: &str) -> (r: Result<(), ZellijError>)
        ensures
            r is Err,
    {
        Err(ZellijError::CommandExecution(String::from_str("Command failed")))
    }

    fn new_session(&mut self, session_name: &str, options: &ZellijOptions) -> (r: Result<
        (),
        ZellijError,
    >)
        ensures
            r is Err,
    {
        Err(ZellijError::CommandExecution(String::from_str("Command failed")))
    }

    fn kill_session(&mut self, session_name: &str) -> (r: Result<(), ZellijError>)
        ensures
            r is Err,
    {
        Err(ZellijError::CommandExecution(String::from_str("Command failed")))
    }

    fn list_tabs(&self) -> (r: Result<Vec<Tab>, ZellijError>)
        ensures
            r is Err,
    {
        Err(ZellijError::CommandExecution(String::from_str("Command failed")))
    }

    fn new_tab(&mut self, name: Option<&str>) -> (r: Result<(), ZellijError>)
        ensures
            r is Err,
    {
        Err(ZellijError::CommandExecution(String::from_str("Command failed")))
    }

    fn rename_tab(&mut self, name: &str) -> (r: Result<(), ZellijError>)
        ensures
            r is Err,
    {
        Err(ZellijError::CommandExecution(String::from_str("Command failed")))
    }

    fn close_tab(&mut self) -> (r: Result<(), ZellijError>)
        ensures
            r is Err,
    {
        Err(ZellijError::CommandExecution(String::from_str("Command failed")))
    }

    fn run_command(&self, command: &str, args: &Vec<String>) -> (r: Result<(), ZellijError>)
        ensures
            r is Err,
    {
        Err(ZellijError::CommandExecution(String::from_str("Command failed")))
    }
}

/// Whether a character counts as surrounding blank space of a line.
pub open spec fn is_blank(c: char) -> bool {
    c == ' ' || c == '\t' || c == '\r'
}

/// `s` with leading blank space removed.
pub open spec fn trim_front_spec(s: Seq<char>) -> Seq<char>
    decreases s.len(),
{
    if s.len() > 0 && is_blank(s.first()) {
        trim_front_spec(s.drop_first())
    } else {
        s
    }
}

/// `s` with trailing blank space removed.
pub open spec fn trim_back_spec(s: Seq<char>) -> Seq<char>
    decreases s.len(),
{
    if s.len() > 0 && is_blank(s.last()) {
        trim_back_spec(s.drop_last())
    } else {
        s
    }
}

/// `s` with surrounding blank space removed.
pub open spec fn trim_spec(s: Seq<char>) -> Seq<char> {
    trim_back_spec(trim_front_spec(s))
}

/// The prefix of `s` up to (excluding) its first space.
pub open spec fn first_token_spec(s: Seq<char>) -> Seq<char>
    decreases s.len(),
{
    if s.len() == 0 || s.first() == ' ' {
        Seq::empty()
    } else {
        seq![s.first()] + first_token_spec(s.drop_first())
    }
}

/// Whether `needle` occurs contiguously inside `hay`.
pub open spec fn contains_sub(hay: Seq<char>, needle: Seq<char>) -> bool {
    exists|k: int|
        0 <= k && k + needle.len() <= hay.len() && #[trigger] hay.subrange(
            k,
            k + needle.len() as int,
        ) == needle
}

/// The session one line of a session listing describes: after trimming,
/// the first space-separated word names the session, and the marker
/// `(current)` flags the attached one. A blank line describes none.
pub open spec fn line_session(l: Seq<char>) -> Option<SessionV> {
    let t = trim_spec(l);
    if t.len() == 0 {
        Option::None
    } else {
        Option::Some(
            SessionV { name: first_token_spec(t), is_current: contains_sub(t, "(current)"@) },
        )
    }
}

/// The number of characters of `s` before its first newline.
pub open spec fn upto_nl(s: Seq<char>) -> int
    decreases s.len(),
{
    if s.len() == 0 {
        0
    } else if s.first() == '\n' {
        0
    } else {
        1 + upto_nl(s.drop_first())
    }
}

/// Range and character facts about `upto_nl`.
pub proof fn lemma_upto_nl(s: Seq<char>)
    ensures
        0 <= upto_nl(s) <= s.len(),
        forall|k: int| 0 <= k < upto_nl(s) ==> s[k] != '\n',
        upto_nl(s) < s.len() ==> s[upto_nl(s)] == '\n',
    decreases s.len(),
{
    if s.len() > 0 && s.first() != '\n' {
        lemma_upto_nl(s.drop_first());
        assert forall|k: int| 0 <= k < upto_nl(s) implies s[k] != '\n' by {
            if k > 0 {
                assert(s.drop_first()[k - 1] == s[k]);
            }
        }
        if upto_nl(s) < s.len() {
            assert(s.drop_first()[upto_nl(s) - 1] == s[upto_nl(s)]);
        }
    }
}

/// `upto_nl` is determined by a scan that stopped at `j`.
pub proof fn lemma_upto_nl_is(s: Seq<char>, j: int)
    requires
        0 <= j <= s.len(),
        forall|k: int| 0 <= k < j ==> s[k] != '\n',
        j < s.len() ==> s[j] == '\n',
    ensures
        upto_nl(s) == j,
    decreases j,
{
    if j == 0 {
    } else {
        assert(s[0] != '\n');
        assert forall|k: int| 0 <= k < j - 1 implies s.drop_first()[k] != '\n' by {
            assert(s.drop_first()[k] == s[k + 1]);
        }
        if j - 1 < s.drop_first().len() {
            assert(s.drop_first()[j - 1] == s[j]);
        }
        lemma_upto_nl_is(s.drop_first(), j - 1);
    }
}

/// The sessions a whole listing describes: one per nonblank line.
pub open spec fn parse_sessions_spec(s: Seq<char>) -> Seq<SessionV>
    decreases s.len(),
{
    if s.len() == 0 {
        Seq::empty()
    } else {
        let i = upto_nl(s);
        let head = match line_session(s.subrange(0, i)) {
            Option::Some(x) => seq![x],
            Option::None => Seq::<SessionV>::empty(),
        };
        if i >= s.len() {
            head
        } else {
            proof {
                lemma_upto_nl(s);
            }
            head + parse_sessions_spec(s.subrange(i + 1, s.len() as int))
        }
    }
}

/// Whether a character counts as surrounding blank space of a line.
pub fn is_blank_char(c: char) -> (r: bool)
    ensures
        r == is_blank(c),
{
    c == ' ' || c == '\t' || c == '\r'
}

/// `l` with surrounding blank space removed.
pub fn trim_str(l: &str) -> (r: &str)
    ensures
        r@ == trim_spec(l@),
{
    let n = l.unicode_len();
    let mut i: usize = 0;
    proof {
        assert(l@.subrange(0, n as int) =~= l@);
    }
    while i < n && is_blank_char(l.get_char(i))
        invariant
            0 <= i <= n,
            n == l@.len(),
            trim_front_spec(l@) == trim_front_spec(l@.subrange(i as int, n as int)),
        decreases n - i,
    {
        proof {
            let rest = l@.subrange(i as int, n as int);
            assert(rest.first() == l@[i as int]);
            assert(rest.drop_first() =~= l@.subrange(i as int + 1, n as int));
        }
        i += 1;
    }
    proof {
        if i < n {
            assert(l@.subrange(i as int, n as int).first() == l@[i as int]);
        }
        assert(trim_front_spec(l@) =~= l@.subrange(i as int, n as int));
    }
    let ghost f = l@.subrange(i as int, n as int);
    let mut j: usize = n;
    proof {
        assert(f.subrange(0, (n - i) as int) =~= f);
    }
    while j > i && is_blank_char(l.get_char(j - 1))
        invariant
            i <= j <= n,
            n == l@.len(),
            f == l@.subrange(i as int, n as int),
            trim_back_spec(f) == trim_back_spec(f.subrange(0, (j - i) as int)),
        decreases j,
    {
        proof {
            let part = f.subrange(0, (j - i) as int);
            assert(part.last() == l@[j as int - 1]);
            assert(part.drop_last() =~= f.subrange(0, (j - 1 - i) as int));
        }
        j -= 1;
    }
    proof {
        if j > i {
            assert(f.subrange(0, (j - i) as int).last() == l@[j as int - 1]);
        }
        assert(trim_back_spec(f) =~= f.subrange(0, (j - i) as int));
        assert(f.subrange(0, (j - i) as int) =~= l@.subrange(i as int, j as int));
    }
    l.substring_char(i, j)
}

/// The prefix of `t` up to its first space.
pub fn token_prefix(t: &str) -> (r: &str)
    ensures
        r@ == first_token_spec(t@),
{
    let n = t.unicode_len();
    let mut j: usize = 0;
    proof {
        assert(t@.subrange(0, 0) =~= Seq::<char>::empty());
        assert(t@.subrange(0, n as int) =~= t@);
    }
    while j < n && t.get_char(j) != ' '
        invariant
            0 <= j <= n,
            n == t@.len(),
            first_token_spec(t@) == t@.subrange(0, j as int) + first_token_spec(
                t@.subrange(j as int, n as int),
            ),
        decreases n - j,
    {
        proof {
            let rest = t@.subrange(j as int, n as int);
            assert(rest.first() == t@[j as int]);
            assert(rest.drop_first() =~= t@.subrange(j as int + 1, n as int));
            assert(t@.subrange(0, j as int) + seq![t@[j as int]] =~= t@.subrange(0, j as int + 1));
        }
        j += 1;
    }
    proof {
        if j < n {
            assert(t@.subrange(j as int, n as int).first() == t@[j as int]);
            assert(first_token_spec(t@.subrange(j as int, n as int)) =~= Seq::<char>::empty());
        } else {
            assert(t@.subrange(j as int, n as int) =~= Seq::<char>::empty());
        }
        assert(first_token_spec(t@) =~= t@.subrange(0, j as int));
    }
    t.substring_char(0, j)
}

/// Whether `needle` occurs contiguously inside `hay`.
pub fn contains_substr(hay: &str, needle: &str) -> (r: bool)
    ensures
        r == contains_sub(hay@, needle@),
{
    let nh = hay.unicode_len();
    let nn = needle.unicode_len();
    if nn > nh {
        return false;
    }
    if nn == 0 {
        proof {
            assert(hay@.subrange(0, 0 + needle@.len() as int) =~= needle@);
        }
        return true;
    }
    let mut k: usize = 0;
    while k <= nh - nn
        invariant
            0 <= k <= nh - nn + 1,
            1 <= nn <= nh,
            nh == hay@.len(),
            nn == needle@.len(),
            forall|k2: int|
                0 <= k2 < k ==> #[trigger] hay@.subrange(k2, k2 + needle@.len() as int)
                    != needle@,
        decreases nh + 1 - k,
    {
        let mut m: usize = 0;
        let mut matched = true;
        while m < nn
            invariant
                0 <= m <= nn,
                0 <= k <= nh - nn,
                nh == hay@.len(),
                nn == needle@.len(),
                matched ==> forall|m2: int| 0 <= m2 < m ==> hay@[k + m2] == needle@[m2],
                !matched ==> hay@.subrange(k as int, k + needle@.len() as int) != needle@,
            decreases nn - m,
        {
            if hay.get_char(k + m) != needle.get_char(m) {
                proof {
                    assert(hay@.subrange(k as int, k + needle@.len() as int)[m as int] == hay@[k
                        + m]);
                }
                matched = false;
                m = nn;
            } else {
                m += 1;
            }
        }
        if matched {
            proof {
                assert(hay@.subrange(k as int, k + needle@.len() as int) =~= needle@);
            }
            return true;
        }
        k += 1;
    }
    proof {
        assert forall|k2: int|
            0 <= k2 && k2 + needle@.len() <= hay@.len() implies #[trigger] hay@.subrange(
            k2,
            k2 + needle@.len() as int,
        ) != needle@ by {
            assert(k2 < k);
        }
    }
    false
}

/// Parse the multiplexer's session-listing output: one session per
/// nonblank line, named by the line's first word, with `(current)`
/// flagging the attached session. Never fails.
pub fn parse_session_list(output: &str) -> (r: Result<Vec<Session>, ZellijError>)
    ensures
        r matches Ok(v) ==> session_views(v@) == parse_sessions_spec(output@),
        r is Ok,
{
    let n = output.unicode_len();
    let mut acc: Vec<Session> = Vec::new();
    let mut pos: usize = 0;
    proof {
        assert(session_views(acc@) =~= Seq::<SessionV>::empty());
        assert(output@.subrange(0, n as int) =~= output@);
        assert(Seq::<SessionV>::empty() + parse_sessions_spec(output@) =~= parse_sessions_spec(
            output@,
        ));
    }
    while pos < n
        invariant
            0 <= pos <= n,
            n == output@.len(),
            session_views(acc@) + parse_sessions_spec(output@.subrange(pos as int, n as int))
                =~= parse_sessions_spec(output@),
        decreases n - pos,
    {
        let ghost rest = output@.subrange(pos as int, n as int);
        let mut j: usize = pos;
        while j < n && output.get_char(j) != '\n'
            invariant
                pos <= j <= n,
                n == output@.len(),
                forall|k: int| pos <= k < j ==> output@[k] != '\n',
            decreases n - j,
        {
            j += 1;
        }
        proof {
            assert forall|k: int| 0 <= k < j - pos implies rest[k] != '\n' by {
                assert(rest[k] == output@[pos + k]);
            }
            if j < n {
                assert(rest[j - pos as int] == output@[j as int]);
            }
            lemma_upto_nl_is(rest, j - pos as int);
        }
        let line = output.substring_char(pos, j);
        proof {
            assert(line@ =~= rest.subrange(0, (j - pos) as int));
        }
        let t = trim_str(line);
        let ghost before = acc@;
        if t.unicode_len() > 0 {
            let word = token_prefix(t);
            let cur = contains_substr(t, "(current)");
            acc.push(Session { name: word.to_owned(), is_current: cur });
            proof {
                assert(line_session(line@) == Some(
                    SessionV { name: first_token_spec(trim_spec(line@)), is_current: contains_sub(
                        trim_spec(line@),
                        "(current)"@,
                    ) },
                ));
                assert(session_views(acc@) =~= session_views(before).push(
                    line_session(line@)->Some_0,
                ));
            }
        } else {
            proof {
                assert(line_session(line@) is None);
            }
        }
        proof {
            if j < n {
                assert(rest.subrange(j - pos as int + 1, rest.len() as int) =~= output@.subrange(
                    j as int + 1,
                    n as int,
                ));
                match line_session(line@) {
                    Option::Some(x) => {
                        assert(parse_sessions_spec(rest) =~= seq![x] + parse_sessions_spec(
                            output@.subrange(j as int + 1, n as int),
                        ));
                        assert(session_views(acc@) =~= session_views(before) + seq![x]);
                    },
                    Option::None => {
                        assert(parse_sessions_spec(rest) =~= parse_sessions_spec(
                            output@.subrange(j as int + 1, n as int),
                        ));
                    },
                }
                assert(session_views(acc@) + parse_sessions_spec(
                    output@.subrange(j as int + 1, n as int),
                ) =~= parse_sessions_spec(output@));
            } else {
                match line_session(line@) {
                    Option::Some(x) => {
                        assert(parse_sessions_spec(rest) =~= seq![x]);
                        assert(session_views(acc@) =~= session_views(before) + seq![x]);
                    },
                    Option::None => {
                        assert(parse_sessions_spec(rest) =~= Seq::<SessionV>::empty());
                    },
                }
                assert(output@.subrange(n as int, n as int) =~= Seq::<char>::empty());
                assert(session_views(acc@) + parse_sessions_spec(
                    output@.subrange(n as int, n as int),
                ) =~= parse_sessions_spec(output@));
            }
        }
        if j < n {
            pos = j + 1;
        } else {
            pos = j;
        }
    }
    proof {
        assert(output@.subrange(n as int, n as int) =~= Seq::<char>::empty());
        assert(session_views(acc@) =~= parse_sessions_spec(output@));
    }
    Ok(acc)
}

/// Consume the multiplexer's tab-query output. Tab listings are not
/// interpreted by this library: every listing reads as empty.
pub fn parse_tabs_json(json: &str) -> (r: Result<Vec<Tab>, ZellijError>)
    ensures
        r matches Ok(v) ==> v@.len() == 0,
        r is Ok,
{
    let tabs: Vec<Tab> = Vec::new();
    Ok(tabs)
}

/// Handle for the command-line multiplexer. The process-backed
/// [`ZellijOperations`] implementation belongs to the embedding binary,
/// which spawns the tool; the binary parses session listings with
/// [`parse_session_list`].
pub struct ZellijClient;

impl ZellijClient {
    /// Create a new handle.
    pub fn new() -> (r: ZellijClient) {
        ZellijClient
    }
}

impl Default for ZellijClient {
    fn default() -> (r: Self) {
        ZellijClient::new()
    }
}

} // verus!
