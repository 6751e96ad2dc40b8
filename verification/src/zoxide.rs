//! The directory-frecency collaborator interface: registering paths and
//! querying them by keyword, results ordered by descending score. The
//! contracts speak about a sequence of scored entries; [`MockZoxideClient`]
//! is an in-memory implementation verified against them, while a
//! process-backed one belongs to the embedding binary.

use vstd::prelude::*;
use vstd::string::*;

use crate::paths::str_eq;
use vstd::multiset::Multiset;

verus! {

broadcast use vstd::seq_lib::group_seq_properties;

/// Error type for frecency-store operations.
#[derive(Debug)]
pub enum ZoxideError {
    /// The command could not be executed or reported failure.
    CommandExecution(String),
    /// The command's output could not be parsed.
    OutputParsing(String),
    /// An input/output failure.
    Io(String),
    /// Output was not valid UTF-8.
    Utf8(String),
}

/// A path with its frecency score.
#[derive(Debug, PartialEq, Eq)]
pub struct ZoxideEntry {
    /// The recorded path.
    pub path: String,
    /// The path's score; higher means more frequently and recently used.
    pub score: u64,
}

/// The mathematical view of an entry.
pub struct ZoxideEntryV {
    /// The recorded path's characters.
    pub path: Seq<char>,
    /// The path's score.
    pub score: u64,
}

impl View for ZoxideEntry {
    type V = ZoxideEntryV;

    open spec fn view(&self) -> ZoxideEntryV {
        ZoxideEntryV { path: self.path@, score: self.score }
    }
}

impl Clone for ZoxideEntry {
    fn clone(&self) -> (r: Self)
        ensures
            r@ == self@,
    {
        ZoxideEntry { path: self.path.clone(), score: self.score }
    }
}

/// The views of an entry listing.
pub open spec fn entry_views(v: Seq<ZoxideEntry>) -> Seq<ZoxideEntryV> {
    v.map_values(|e: ZoxideEntry| e@)
}

/// The views of a keyword listing.
pub open spec fn string_views(v: Seq<String>) -> Seq<Seq<char>> {
    v.map_values(|s: String| s@)
}

/// Whether the scores of `s` never increase.
pub open spec fn sorted_desc(s: Seq<ZoxideEntryV>) -> bool {
    forall|i: int, j: int| 0 <= i < j < s.len() ==> s[i].score >= s[j].score
}

/// A letter lowered, other characters unchanged.
pub open spec fn lower_char_spec(c: char) -> char {
    match c {
        'A' => 'a',
        'B' => 'b',
        'C' => 'c',
        'D' => 'd',
        'E' => 'e',
        'F' => 'f',
        'G' => 'g',
        'H' => 'h',
        'I' => 'i',
        'J' => 'j',
        'K' => 'k',
        'L' => 'l',
        'M' => 'm',
        'N' => 'n',
        'O' => 'o',
        'P' => 'p',
        'Q' => 'q',
        'R' => 'r',
        'S' => 's',
        'T' => 't',
        'U' => 'u',
        'V' => 'v',
        'W' => 'w',
        'X' => 'x',
        'Y' => 'y',
        'Z' => 'z',
        _ => c,
    }
}

/// A letter lowered, other characters unchanged.
pub fn lower_char(c: char) -> (r: char)
    ensures
        r == lower_char_spec(c),
{
    match c {
        'A' => 'a',
        'B' => 'b',
        'C' => 'c',
        'D' => 'd',
        'E' => 'e',
        'F' => 'f',
        'G' => 'g',
        'H' => 'h',
        'I' => 'i',
        'J' => 'j',
        'K' => 'k',
        'L' => 'l',
        'M' => 'm',
        'N' => 'n',
        'O' => 'o',
        'P' => 'p',
        'Q' => 'q',
        'R' => 'r',
        'S' => 's',
        'T' => 't',
        'U' => 'u',
        'V' => 'v',
        'W' => 'w',
        'X' => 'x',
        'Y' => 'y',
        'Z' => 'z',
        _ => c,
    }
}

/// `s` with every letter lowered.
pub open spec fn lower_seq(s: Seq<char>) -> Seq<char> {
    s.map_values(|c: char| lower_char_spec(c))
}

/// Whether `needle` occurs inside `hay`, letters compared without case.
pub fn contains_ci(hay: &str, needle: &str) -> (r: bool)
    ensures
        r == crate::zellij::contains_sub(lower_seq(hay@), lower_seq(needle@)),
{
    let ghost lh = lower_seq(hay@);
    let ghost ln = lower_seq(needle@);
    let nh = hay.unicode_len();
    let nn = needle.unicode_len();
    if nn > nh {
        return false;
    }
    if nn == 0 {
        proof {
            assert(lh.subrange(0, 0 + ln.len() as int) =~= ln);
        }
        return true;
    }
    let mut k: usize = 0;
    while k <= nh - nn
        invariant
            0 <= k <= nh - nn + 1,
            1 <= nn <= nh,
            nh == hay@.len(),
            nn == needle@.len(),
            lh == lower_seq(hay@),
            ln == lower_seq(needle@),
            forall|k2: int| 0 <= k2 < k ==> #[trigger] lh.subrange(k2, k2 + ln.len() as int) != ln,
        decreases nh + 1 - k,
    {
        let mut m: usize = 0;
        let mut matched = true;
        while m < nn
            invariant
                0 <= m <= nn,
                0 <= k <= nh - nn,
                nh == hay@.len(),
                nn == needle@.len(),
                lh == lower_seq(hay@),
                ln == lower_seq(needle@),
                matched ==> forall|m2: int| 0 <= m2 < m ==> lh[k + m2] == ln[m2],
                !matched ==> lh.subrange(k as int, k + ln.len() as int) != ln,
            decreases nn - m,
        {
            if lower_char(hay.get_char(k + m)) != lower_char(needle.get_char(m)) {
                proof {
                    assert(lh.subrange(k as int, k + ln.len() as int)[m as int] == lh[k + m]);
                }
                matched = false;
                m = nn;
            } else {
                m += 1;
            }
        }
        if matched {
            proof {
                assert(lh.subrange(k as int, k + ln.len() as int) =~= ln);
            }
            return true;
        }
        k += 1;
    }
    proof {
        assert forall|k2: int| 0 <= k2 && k2 + ln.len() <= lh.len() implies #[trigger] lh.subrange(
            k2,
            k2 + ln.len() as int,
        ) != ln by {
            assert(k2 < k);
        }
    }
    false
}

/// Whether a path matches a keyword list: an empty list matches
/// everything; otherwise some keyword must occur in the path, letters
/// compared without case.
pub open spec fn entry_matches(path: Seq<char>, kws: Seq<Seq<char>>) -> bool {
    kws.len() == 0 || exists|i: int|
        0 <= i < kws.len() && crate::zellij::contains_sub(
            lower_seq(path),
            lower_seq(#[trigger] kws[i]),
        )
}

/// The entries of `entries` that match the keyword list, in order.
pub open spec fn matching_entries(entries: Seq<ZoxideEntryV>, kws: Seq<Seq<char>>) -> Seq<
    ZoxideEntryV,
> {
    entries.filter(|e: ZoxideEntryV| entry_matches(e.path, kws))
}

/// Whether `path` matches the keyword list.
pub fn matches_keywords(path: &str, keywords: &Vec<String>) -> (r: bool)
    ensures
        r == entry_matches(path@, string_views(keywords@)),
{
    let ghost kws = string_views(keywords@);
    let n = keywords.len();
    if n == 0 {
        return true;
    }
    let mut i: usize = 0;
    while i < n
        invariant
            0 <= i <= n,
            n == keywords@.len(),
            kws == string_views(keywords@),
            forall|k: int|
                0 <= k < i ==> !crate::zellij::contains_sub(
                    lower_seq(path@),
                    lower_seq(#[trigger] kws[k]),
                ),
        decreases n - i,
    {
        if contains_ci(path, keywords[i].as_str()) {
            proof {
                assert(kws[i as int] == keywords@[i as int]@);
            }
            return true;
        }
        proof {
            assert(kws[i as int] == keywords@[i as int]@);
        }
        i += 1;
    }
    false
}

/// `e` with its score raised by one, saturating at the maximum.
pub open spec fn bumped(e: ZoxideEntryV) -> ZoxideEntryV {
    ZoxideEntryV {
        path: e.path,
        score: if e.score < u64::MAX {
            (e.score + 1) as u64
        } else {
            e.score
        },
    }
}

/// The entry listing after registering `p`: the first entry for `p` has
/// its score raised by one, or a fresh entry with score one is appended.
pub open spec fn bump_entry(s: Seq<ZoxideEntryV>, p: Seq<char>) -> Seq<ZoxideEntryV>
    decreases s.len(),
{
    if s.len() == 0 {
        seq![ZoxideEntryV { path: p, score: 1 }]
    } else if s.first().path == p {
        seq![bumped(s.first())] + s.drop_first()
    } else {
        seq![s.first()] + bump_entry(s.drop_first(), p)
    }
}

/// Registering a present path bumps exactly its first entry.
proof fn lemma_bump_hit(s: Seq<ZoxideEntryV>, i: int, p: Seq<char>)
    requires
        0 <= i < s.len(),
        s[i].path == p,
        forall|k: int| 0 <= k < i ==> s[k].path != p,
    ensures
        bump_entry(s, p) == s.update(i, bumped(s[i])),
    decreases i,
{
    if i == 0 {
        assert(bump_entry(s, p) =~= s.update(0, bumped(s[0])));
    } else {
        assert forall|k: int| 0 <= k < i - 1 implies s.drop_first()[k].path != p by {
            assert(s.drop_first()[k] == s[k + 1]);
        }
        assert(s.drop_first()[i - 1] == s[i]);
        lemma_bump_hit(s.drop_first(), i - 1, p);
        assert(bump_entry(s, p) =~= s.update(i, bumped(s[i])));
    }
}

/// Registering an absent path appends a fresh entry with score one.
proof fn lemma_bump_miss(s: Seq<ZoxideEntryV>, p: Seq<char>)
    requires
        forall|k: int| 0 <= k < s.len() ==> s[k].path != p,
    ensures
        bump_entry(s, p) == s.push(ZoxideEntryV { path: p, score: 1 }),
    decreases s.len(),
{
    if s.len() == 0 {
        assert(bump_entry(s, p) =~= s.push(ZoxideEntryV { path: p, score: 1 }));
    } else {
        assert forall|k: int| 0 <= k < s.drop_first().len() implies s.drop_first()[k].path
            != p by {
            assert(s.drop_first()[k] == s[k + 1]);
        }
        lemma_bump_miss(s.drop_first(), p);
        assert(bump_entry(s, p) =~= s.push(ZoxideEntryV { path: p, score: 1 }));
    }
}

/// Reorder `v` by descending score.
fn sort_entries_desc(v: Vec<ZoxideEntry>) -> (r: Vec<ZoxideEntry>)
    ensures
        sorted_desc(entry_views(r@)),
        entry_views(r@).to_multiset() == entry_views(v@).to_multiset(),
{
    broadcast use vstd::prelude::Seq::to_multiset_ensures;
    broadcast use vstd::multiset::group_multiset_axioms;

    let ghost orig = entry_views(v@);
    let mut tmp = v;
    let mut out: Vec<ZoxideEntry> = Vec::new();
    proof {
        assert(entry_views(out@) =~= Seq::<ZoxideEntryV>::empty());
        assert(entry_views(out@).to_multiset().add(entry_views(tmp@).to_multiset())
            =~= orig.to_multiset());
    }
    while tmp.len() > 0
        invariant
            sorted_desc(entry_views(out@)),
            forall|i: int, j: int|
                0 <= i < out@.len() && 0 <= j < tmp@.len() ==> entry_views(out@)[i].score
                    >= entry_views(tmp@)[j].score,
            entry_views(out@).to_multiset().add(entry_views(tmp@).to_multiset())
                == orig.to_multiset(),
        decreases tmp@.len(),
    {
        let n = tmp.len();
        let mut m: usize = 0;
        let mut i: usize = 1;
        while i < n
            invariant
                0 <= m < i <= n,
                n == tmp@.len(),
                forall|k: int|
                    0 <= k < i ==> entry_views(tmp@)[k].score <= entry_views(tmp@)[m as int].score,
            decreases n - i,
        {
            if tmp[i].score > tmp[m].score {
                m = i;
            }
            i += 1;
        }
        let ghost before_tmp = entry_views(tmp@);
        let ghost before_out = entry_views(out@);
        let picked = tmp.remove(m);
        proof {
            assert(entry_views(tmp@) =~= before_tmp.remove(m as int));
            assert(before_tmp.remove(m as int).to_multiset() =~= before_tmp.to_multiset().remove(
                before_tmp[m as int],
            ));
        }
        out.push(picked);
        proof {
            assert(entry_views(out@) =~= before_out.push(picked@));
            assert(before_out.push(picked@).to_multiset() =~= before_out.to_multiset().insert(
                picked@,
            ));
            assert(picked@ == before_tmp[m as int]);
            assert(entry_views(out@).to_multiset().add(entry_views(tmp@).to_multiset())
                =~= orig.to_multiset());
            assert forall|i2: int, j2: int|
                0 <= i2 < out@.len() && 0 <= j2 < tmp@.len() implies entry_views(out@)[i2].score
                >= entry_views(tmp@)[j2].score by {
                if j2 < m {
                    assert(entry_views(tmp@)[j2] == before_tmp[j2]);
                } else {
                    assert(entry_views(tmp@)[j2] == before_tmp[j2 + 1]);
                }
            }
        }
    }
    proof {
        assert(entry_views(tmp@).to_multiset() =~= Multiset::<ZoxideEntryV>::empty());
        assert(entry_views(out@).to_multiset() =~= orig.to_multiset());
    }
    out
}

/// The frecency-store capability the resolver and cloner consume.
///
/// Each implementation exposes its recorded entries through the spec view
/// below; the method contracts promise, whenever a call succeeds, results
/// and state changes consistent with that view, with query results
/// ordered by descending score as the store hands them out.
pub trait ZoxideOperations: Sized {
    /// The recorded entries. The body here is only a default: every
    /// implementation checked by the verifier supplies its own view,
    /// and nothing is proved about one that does not.
    open spec fn entries(&self) -> Seq<ZoxideEntryV> {
        Seq::empty()
    }

    /// Register a path: its score rises by one, starting from nothing.
    fn add(&mut self, path: &str) -> (r: Result<(), ZoxideError>)
        ensures
            r is Ok ==> final (self).entries() == bump_entry(old(self).entries(), path@),
    ;

    /// List all recorded entries, ordered by descending score.
    fn list(&self) -> (r: Result<Vec<ZoxideEntry>, ZoxideError>)
        ensures
            r matches Ok(v) ==> sorted_desc(entry_views(v@)) && entry_views(v@).to_multiset()
                == self.entries().to_multiset(),
    ;

    /// The recorded entries matching the keywords, ordered by descending
    /// score.
    fn query(&self, keywords: &Vec<String>) -> (r: Result<Vec<ZoxideEntry>, ZoxideError>)
        ensures
            r matches Ok(v) ==> sorted_desc(entry_views(v@)) && entry_views(v@).to_multiset()
                == matching_entries(self.entries(), string_views(keywords@)).to_multiset(),
    ;
}

/// An in-memory frecency store for tests.
pub struct MockZoxideClient {
    entries: Vec<ZoxideEntry>,
}

impl MockZoxideClient {
    /// Create an empty store.
    pub fn new() -> (r: MockZoxideClient)
        ensures
            r.entries() == Seq::<ZoxideEntryV>::empty(),
    {
        let r = MockZoxideClient { entries: Vec::new() };
        proof {
            assert(r.entries() =~= Seq::<ZoxideEntryV>::empty());
        }
        r
    }

    /// Preset the recorded entries.
    pub fn with_paths(entries: Vec<ZoxideEntry>) -> (r: MockZoxideClient)
        ensures
            r.entries() == entry_views(entries@),
    {
        MockZoxideClient { entries }
    }
}

impl ZoxideOperations for MockZoxideClient {
    closed spec fn entries(&self) -> Seq<ZoxideEntryV> {
        entry_views(self.entries@)
    }

    fn add(&mut self, path: &str) -> (r: Result<(), ZoxideError>)
        ensures
            r is Ok,
    {
        let n = self.entries.len();
        let mut i: usize = 0;
        while i < n
            invariant
                0 <= i <= n,
                n == self.entries@.len(),
                self == old(self),
                forall|k: int| 0 <= k < i ==> self.entries@[k].path@ != path@,
            decreases n - i,
        {
            if str_eq(self.entries[i].path.as_str(), path) {
                let score = self.entries[i].score;
                let raised = if score < u64::MAX {
                    score + 1
                } else {
                    score
                };
                let nm = self.entries[i].path.clone();
                proof {
                    lemma_bump_hit(entry_views(self.entries@), i as int, path@);
                }
                self.entries.set(i, ZoxideEntry { path: nm, score: raised });
                proof {
                    assert(entry_views(self.entries@) =~= entry_views(old(self).entries@).update(
                        i as int,
                        bumped(entry_views(old(self).entries@)[i as int]),
                    ));
                }
                return Ok(());
            }
            i += 1;
        }
        proof {
            lemma_bump_miss(entry_views(self.entries@), path@);
        }
        self.entries.push(ZoxideEntry { path: String::from_str(path), score: 1 });
        proof {
            assert(entry_views(self.entries@) =~= entry_views(old(self).entries@).push(
                ZoxideEntryV { path: path@, score: 1 },
            ));
        }
        Ok(())
    }

    fn list(&self) -> (r: Result<Vec<ZoxideEntry>, ZoxideError>)
        ensures
            r is Ok,
    {
        let n = self.entries.len();
        let mut all: Vec<ZoxideEntry> = Vec::new();
        let mut i: usize = 0;
        while i < n
            invariant
                0 <= i <= n,
                n == self.entries@.len(),
                all@.len() == i,
                forall|k: int| 0 <= k < i ==> all@[k]@ == self.entries@[k]@,
            decreases n - i,
        {
            all.push(self.entries[i].clone());
            i += 1;
        }
        proof {
            assert(entry_views(all@) =~= entry_views(self.entries@));
        }
        Ok(sort_entries_desc(all))
    }

    fn query(&self, keywords: &Vec<String>) -> (r: Result<Vec<ZoxideEntry>, ZoxideError>)
        ensures
            r is Ok,
    {
        let ghost pred = |e: ZoxideEntryV| entry_matches(e.path, string_views(keywords@));
        let n = self.entries.len();
        let mut kept: Vec<ZoxideEntry> = Vec::new();
        let mut i: usize = 0;
        proof {
            assert(entry_views(self.entries@).subrange(0, 0) =~= Seq::<ZoxideEntryV>::empty());
            assert(entry_views(kept@) =~= Seq::<ZoxideEntryV>::empty());
            assert(Seq::<ZoxideEntryV>::empty().filter(pred) =~= Seq::<ZoxideEntryV>::empty());
        }
        while i < n
            invariant
                0 <= i <= n,
                n == self.entries@.len(),
                entry_views(kept@) == entry_views(self.entries@).subrange(0, i as int).filter(
                    pred,
                ),
                pred == (|e: ZoxideEntryV| entry_matches(e.path, string_views(keywords@))),
            decreases n - i,
        {
            let ghost prefix = entry_views(self.entries@).subrange(0, i as int);
            let ghost before = entry_views(kept@);
            let hit = matches_keywords(self.entries[i].path.as_str(), keywords);
            proof {
                let elem = entry_views(self.entries@)[i as int];
                let grown = prefix.push(elem);
                assert(entry_views(self.entries@).subrange(0, i as int + 1) =~= grown);
                assert(grown.drop_last() =~= prefix);
                assert(grown.last() == elem);
                assert(pred(elem) == hit);
                reveal_with_fuel(Seq::filter, 2);
                if hit {
                    assert(grown.filter(pred) =~= prefix.filter(pred).push(elem));
                } else {
                    assert(grown.filter(pred) =~= prefix.filter(pred));
                }
            }
            if hit {
                kept.push(self.entries[i].clone());
                proof {
                    assert(entry_views(kept@) =~= before.push(entry_views(self.entries@)[i as int]));
                }
            }
            proof {
                assert(entry_views(kept@) =~= entry_views(self.entries@).subrange(
                    0,
                    i as int + 1,
                ).filter(pred));
            }
            i += 1;
        }
        proof {
            assert(entry_views(self.entries@).subrange(0, n as int) =~= entry_views(
                self.entries@,
            ));
            assert(entry_views(kept@) == matching_entries(
                entry_views(self.entries@),
                string_views(keywords@),
            ));
        }
        Ok(sort_entries_desc(kept))
    }
}

/// A frecency store whose every operation fails; for exercising error
/// paths.
pub struct FailingZoxideClient;

impl FailingZoxideClient {
    /// Create a failing store.
    pub fn new() -> (r: FailingZoxideClient) {
        FailingZoxideClient
    }
}

impl ZoxideOperations for FailingZoxideClient {
    open spec fn entries(&self) -> Seq<ZoxideEntryV> {
        Seq::empty()
    }

    fn add(&mut self, path: &str) -> (r: Result<(), ZoxideError>)
        ensures
            r is Err,
    {
        Err(ZoxideError::CommandExecution(String::from_str("Command failed")))
    }

    fn list(&self) -> (r: Result<Vec<ZoxideEntry>, ZoxideError>)
        ensures
            r is Err,
    {
        Err(ZoxideError::CommandExecution(String::from_str("Command failed")))
    }

    fn query(&self, keywords: &Vec<String>) -> (r: Result<Vec<ZoxideEntry>, ZoxideError>)
        ensures
            r is Err,
    {
        Err(ZoxideError::CommandExecution(String::from_str("Command failed")))
    }
}

/// Handle for the command-line frecency tool. The process-backed
/// [`ZoxideOperations`] implementation belongs to the embedding binary,
/// which spawns the tool and parses its scored output.
#[derive(Clone)]
pub struct ZoxideClient;

impl ZoxideClient {
    /// Create a new handle.
    pub fn new() -> (r: ZoxideClient) {
        ZoxideClient
    }
}

impl Default for ZoxideClient {
    fn default() -> (r: Self) {
        ZoxideClient::new()
    }
}

} // verus!
