//! Registry of active directory watchers and the current workspace root.
//!
//! The registry owns each native watch handle outright. Registering a second
//! watcher for a key replaces and drops the first inside the same operation,
//! and removal drops the handle before returning, so at most one live handle
//! per directory ever exists. The embedder is expected to serialize access
//! (the surrounding application guards this state with a single lock); the
//! `Result` signatures keep the channel that reports a failed lock in that
//! setting, and every operation here reports success through it.

use vstd::prelude::*;

use crate::strutil::str_copy;
use crate::strutil::str_eq;
use vstd::string::StringExecFns;

verus! {

/// Declares notify's platform watcher type so that verified code can own
/// and move values of it; nothing is assumed about the type itself.
#[verifier::external_type_specification]
#[verifier::external_body]
pub struct ExRecommendedWatcher(notify::RecommendedWatcher);

/// Relies on `std::time::SystemTime::now` and `duration_since`: the current
/// time as whole seconds since the Unix epoch, negative when the system
/// clock is set before it. Every clock reading is converted without
/// panicking; nothing is assumed of the clock's value.
#[verifier::external_body]
fn now_unix_seconds() -> i64 {
    match std::time::SystemTime::now().duration_since(std::time::UNIX_EPOCH) {
        Ok(d) => i64::try_from(d.as_secs()).unwrap_or(i64::MAX),
        Err(e) => -i64::try_from(e.duration().as_secs()).unwrap_or(i64::MAX),
    }
}

/// One watched directory: the key it is registered under, the owned native
/// handle, when the entry was created, and how many events it has received.
pub struct WatcherEntry {
    pub path: String,
    pub watcher: notify::RecommendedWatcher,
    pub created_at: i64,
    pub event_count: u64,
}

/// What the registry's map view records per key.
pub ghost struct WatcherView {
    pub created_at: i64,
    pub event_count: u64,
}

/// Statistics snapshot for one watcher, for display purposes.
#[derive(Debug, Clone)]
pub struct WatcherStats {
    pub path: String,
    pub created_at: i64,
    pub event_count: u64,
    pub uptime_seconds: i64,
}

/// The counter value after one more event: one higher, saturating at the
/// top of the range.
pub open spec fn bumped(c: u64) -> u64 {
    if c == u64::MAX {
        u64::MAX
    } else {
        (c + 1) as u64
    }
}

pub open spec fn entry_view(e: WatcherEntry) -> WatcherView {
    WatcherView { created_at: e.created_at, event_count: e.event_count }
}

spec fn distinct_keys(es: Seq<WatcherEntry>) -> bool {
    forall|i: int, j: int| 0 <= i < j < es.len() ==> es[i].path@ != es[j].path@
}

spec fn watcher_map_of(es: Seq<WatcherEntry>) -> Map<Seq<char>, WatcherView>
    decreases es.len(),
{
    if es.len() == 0 {
        Map::empty()
    } else {
        watcher_map_of(es.drop_last()).insert(es.last().path@, entry_view(es.last()))
    }
}

proof fn lemma_wm_dom(es: Seq<WatcherEntry>)
    ensures
        watcher_map_of(es).dom().finite(),
        forall|p: Seq<char>|
            watcher_map_of(es).contains_key(p) <==> exists|i: int|
                0 <= i < es.len() && es[i].path@ == p,
    decreases es.len(),
{
    if es.len() == 0 {
    } else {
        lemma_wm_dom(es.drop_last());
        assert forall|p: Seq<char>| watcher_map_of(es).contains_key(p) implies exists|i: int|
            0 <= i < es.len() && es[i].path@ == p by {
            if p == es.last().path@ {
                assert(es[es.len() - 1].path@ == p);
            } else {
                let i = choose|i: int|
                    0 <= i < es.drop_last().len() && es.drop_last()[i].path@ == p;
                assert(es[i].path@ == p);
            }
        }
        assert forall|p: Seq<char>|
            (exists|i: int| 0 <= i < es.len() && es[i].path@ == p) implies watcher_map_of(
            es,
        ).contains_key(p) by {
            let i = choose|i: int| 0 <= i < es.len() && es[i].path@ == p;
            if i < es.len() - 1 {
                assert(es.drop_last()[i].path@ == p);
            }
        }
    }
}

proof fn lemma_wm_len(es: Seq<WatcherEntry>)
    requires
        distinct_keys(es),
    ensures
        watcher_map_of(es).dom().len() == es.len(),
    decreases es.len(),
{
    lemma_wm_dom(es);
    if es.len() == 0 {
        assert(watcher_map_of(es).dom() =~= Set::<Seq<char>>::empty());
    } else {
        let prefix = es.drop_last();
        assert(distinct_keys(prefix));
        lemma_wm_len(prefix);
        lemma_wm_dom(prefix);
        let p = es.last().path@;
        assert(!watcher_map_of(prefix).contains_key(p)) by {
            if watcher_map_of(prefix).contains_key(p) {
                let i = choose|i: int| 0 <= i < prefix.len() && prefix[i].path@ == p;
                assert(es[i].path@ == es[es.len() - 1].path@);
            }
        }
        assert(watcher_map_of(es).dom() =~= watcher_map_of(prefix).dom().insert(p));
        vstd::set::axiom_set_insert_len(watcher_map_of(prefix).dom(), p);
    }
}

proof fn lemma_wm_index(es: Seq<WatcherEntry>, i: int)
    requires
        distinct_keys(es),
        0 <= i < es.len(),
    ensures
        watcher_map_of(es).contains_key(es[i].path@),
        watcher_map_of(es)[es[i].path@] == entry_view(es[i]),
    decreases es.len(),
{
    if i == es.len() - 1 {
    } else {
        let prefix = es.drop_last();
        assert(distinct_keys(prefix));
        assert(prefix[i] == es[i]);
        lemma_wm_index(prefix, i);
        assert(es[i].path@ != es.last().path@);
    }
}

proof fn lemma_wm_remove(es: Seq<WatcherEntry>, i: int)
    requires
        distinct_keys(es),
        0 <= i < es.len(),
    ensures
        distinct_keys(es.remove(i)),
        watcher_map_of(es.remove(i)) == watcher_map_of(es).remove(es[i].path@),
    decreases es.len(),
{
    es.remove_ensures(i);
    assert(distinct_keys(es.remove(i))) by {
        assert forall|a: int, b: int| 0 <= a < b < es.remove(i).len() implies es.remove(i)[a].path@
            != es.remove(i)[b].path@ by {
            let a0 = if a < i {
                a
            } else {
                a + 1
            };
            let b0 = if b < i {
                b
            } else {
                b + 1
            };
            assert(es.remove(i)[a] == es[a0]);
            assert(es.remove(i)[b] == es[b0]);
        }
    }
    let p = es[i].path@;
    if i == es.len() - 1 {
        let prefix = es.drop_last();
        assert(es.remove(i) =~= prefix);
        lemma_wm_dom(prefix);
        assert(!watcher_map_of(prefix).contains_key(p)) by {
            if watcher_map_of(prefix).contains_key(p) {
                let j = choose|j: int| 0 <= j < prefix.len() && prefix[j].path@ == p;
                assert(es[j].path@ == es[i].path@);
            }
        }
        assert(watcher_map_of(es).remove(p) =~= watcher_map_of(prefix));
    } else {
        let prefix = es.drop_last();
        assert(distinct_keys(prefix));
        assert(prefix[i] == es[i]);
        lemma_wm_remove(prefix, i);
        let e = es.last();
        assert(es.remove(i).last() == e);
        assert(es.remove(i).drop_last() =~= prefix.remove(i));
        assert(watcher_map_of(es.remove(i)) == watcher_map_of(prefix.remove(i)).insert(
            e.path@,
            entry_view(e),
        ));
        assert(e.path@ != p);
        assert(watcher_map_of(prefix).remove(p).insert(e.path@, entry_view(e))
            =~= watcher_map_of(prefix).insert(e.path@, entry_view(e)).remove(p));
    }
}

proof fn lemma_distinct_push(es: Seq<WatcherEntry>, pushed: Seq<WatcherEntry>, p: Seq<char>)
    requires
        distinct_keys(es),
        !watcher_map_of(es).contains_key(p),
        pushed.len() == es.len() + 1,
        forall|i: int| 0 <= i < es.len() ==> pushed[i] == es[i],
        pushed.last().path@ == p,
    ensures
        distinct_keys(pushed),
{
    lemma_wm_dom(es);
    assert forall|a: int, b: int| 0 <= a < b < pushed.len() implies pushed[a].path@
        != pushed[b].path@ by {
        if b == pushed.len() - 1 {
            assert(pushed[a] == es[a]);
            if es[a].path@ == p {
                assert(watcher_map_of(es).contains_key(p));
            }
        } else {
            assert(pushed[a] == es[a]);
            assert(pushed[b] == es[b]);
        }
    }
}

proof fn lemma_wm_push(es: Seq<WatcherEntry>, e: WatcherEntry)
    ensures
        watcher_map_of(es.push(e)) == watcher_map_of(es).insert(e.path@, entry_view(e)),
{
    assert(es.push(e).drop_last() =~= es);
    assert(es.push(e).last() == e);
}

/// Law: registering the same key twice reports no replacement the first
/// time, a replacement the second time, and leaves exactly one entry for
/// the key, so the registry grows by one entry in total.
pub proof fn lemma_register_same_key_twice(
    m0: Map<Seq<char>, WatcherView>,
    p: Seq<char>,
    v1: WatcherView,
    v2: WatcherView,
)
    requires
        m0.dom().finite(),
        !m0.contains_key(p),
    ensures
        ({
            let m1 = m0.insert(p, v1);
            let m2 = m1.insert(p, v2);
            &&& m1.contains_key(p)
            &&& m2.dom() == m1.dom()
            &&& m2.dom().len() == m0.dom().len() + 1
        }),
{
    let m1 = m0.insert(p, v1);
    let m2 = m1.insert(p, v2);
    assert(m2.dom() =~= m1.dom());
    assert(m1.dom() =~= m0.dom().insert(p));
    vstd::set::axiom_set_insert_len(m0.dom(), p);
}

/// Process-wide mutable state: the configured workspace root, if any, and
/// the registry of active directory watchers, keyed by directory path.
pub struct AppState {
    workspace_path: Option<String>,
    watchers: Vec<WatcherEntry>,
}

impl AppState {
    /// The configured workspace root.
    pub closed spec fn workspace(self) -> Option<Seq<char>> {
        match self.workspace_path {
            Some(s) => Some(s@),
            None => None,
        }
    }

    /// The registered watchers: key, creation time and event count.
    pub closed spec fn watcher_map(self) -> Map<Seq<char>, WatcherView> {
        watcher_map_of(self.watchers@)
    }

    /// Well-formedness: at most one entry per key, the invariant every
    /// operation preserves.
    pub closed spec fn wf(self) -> bool {
        distinct_keys(self.watchers@)
    }

    pub fn new() -> (r: AppState)
        ensures
            r.wf(),
            r.workspace() is None,
            r.watcher_map() == Map::<Seq<char>, WatcherView>::empty(),
    {
        AppState { workspace_path: None, watchers: Vec::new() }
    }

    /// Sets the workspace root, replacing any previous one wholesale.
    pub fn set_workspace_path(&mut self, path: String) -> (r: Result<(), String>)
        requires
            old(self).wf(),
        ensures
            final(self).wf(),
            r is Ok,
            final(self).workspace() == Some(path@),
            final(self).watcher_map() == old(self).watcher_map(),
    {
        self.workspace_path = Some(path);
        Ok(())
    }

    /// Returns the workspace root, or an error when none is configured.
    pub fn get_workspace_path(&self) -> (r: Result<String, String>)
        ensures
            r is Ok <==> self.workspace() is Some,
            r matches Ok(s) ==> self.workspace() == Some(s@),
            r matches Err(m) ==> m@ == "No workspace configured"@,
    {
        match &self.workspace_path {
            Some(s) => Ok(s.clone()),
            None => Err(String::from_str("No workspace configured")),
        }
    }

    /// Whether a workspace root is configured.
    pub fn has_workspace(&self) -> (r: bool)
        ensures
            r == (self.workspace() is Some),
    {
        self.workspace_path.is_some()
    }

    /// Clears the workspace root.
    pub fn clear_workspace_path(&mut self) -> (r: Result<(), String>)
        requires
            old(self).wf(),
        ensures
            final(self).wf(),
            r is Ok,
            final(self).workspace() is None,
            final(self).watcher_map() == old(self).watcher_map(),
    {
        self.workspace_path = None;
        Ok(())
    }

    /// The index of the entry for `path`, if one exists.
    fn find_watcher(&self, path: &str) -> (r: Option<usize>)
        ensures
            match r {
                Some(i) => i < self.watchers@.len() && self.watchers@[i as int].path@ == path@,
                None => forall|i: int|
                    0 <= i < self.watchers@.len() ==> self.watchers@[i].path@ != path@,
            },
    {
        let n = self.watchers.len();
        let mut i: usize = 0;
        while i < n
            invariant
                n == self.watchers@.len(),
                i <= n,
                forall|j: int| 0 <= j < i ==> self.watchers@[j].path@ != path@,
            decreases n - i,
        {
            if str_eq(self.watchers[i].path.as_str(), path) {
                return Some(i);
            }
            i = i + 1;
        }
        None
    }

    /// Removes and returns the entry for `path`, if one exists.
    fn take_entry(&mut self, path: &str) -> (r: Option<WatcherEntry>)
        requires
            old(self).wf(),
        ensures
            final(self).wf(),
            final(self).workspace() == old(self).workspace(),
            r is Some <==> old(self).watcher_map().contains_key(path@),
            r matches Some(e) ==> e.path@ == path@ && entry_view(e) == old(
                self,
            ).watcher_map()[path@],
            final(self).watcher_map() == old(self).watcher_map().remove(path@),
    {
        proof {
            lemma_wm_dom(old(self).watchers@);
        }
        match self.find_watcher(path) {
            Some(i) => {
                proof {
                    lemma_wm_index(self.watchers@, i as int);
                    lemma_wm_remove(self.watchers@, i as int);
                }
                let e = self.watchers.remove(i);
                Some(e)
            },
            None => {
                proof {
                    assert(old(self).watcher_map().remove(path@) =~= old(self).watcher_map());
                }
                None
            },
        }
    }

    /// Registers a watcher for `path`, capturing the creation time and a
    /// zero event count. An existing entry for the same key is replaced and
    /// its handle dropped inside the same operation; the result reports
    /// whether that happened.
    pub fn register_watcher(&mut self, path: String, watcher: notify::RecommendedWatcher) -> (r:
        Result<bool, String>)
        requires
            old(self).wf(),
        ensures
            final(self).wf(),
            r == Ok::<bool, String>(old(self).watcher_map().contains_key(path@)),
            final(self).workspace() == old(self).workspace(),
            exists|t: i64|
                final(self).watcher_map() == old(self).watcher_map().insert(
                    path@,
                    WatcherView { created_at: t, event_count: 0 },
                ),
            final(self).watcher_map().dom() == old(self).watcher_map().dom().insert(path@),
            final(self).watcher_map().dom().len() == old(self).watcher_map().dom().len() + (
            if old(self).watcher_map().contains_key(path@) {
                0int
            } else {
                1int
            }),
    {
        proof {
            lemma_wm_dom(old(self).watchers@);
        }
        let replaced = self.take_entry(path.as_str());
        let was_there = replaced.is_some();
        let now = now_unix_seconds();
        let ghost mid = *self;
        let entry = WatcherEntry { path, watcher, created_at: now, event_count: 0 };
        let ghost p = entry.path@;
        let ghost v = entry_view(entry);
        proof {
            lemma_wm_push(self.watchers@, entry);
        }
        self.watchers.push(entry);
        proof {
            assert(p == path@);
            lemma_distinct_push(mid.watchers@, self.watchers@, p);
            assert(v == (WatcherView { created_at: now, event_count: 0 }));
            assert(self.watcher_map() == mid.watcher_map().insert(p, v));
            assert(mid.watcher_map() == old(self).watcher_map().remove(p));
            assert(self.watcher_map() =~= old(self).watcher_map().insert(p, v));
            assert(self.watcher_map().dom() =~= old(self).watcher_map().dom().insert(p));
            if old(self).watcher_map().contains_key(p) {
                assert(old(self).watcher_map().dom().insert(p) =~= old(self).watcher_map().dom());
            } else {
                vstd::set::axiom_set_insert_len(old(self).watcher_map().dom(), p);
            }
        }
        Ok(was_there)
    }

    /// Removes the watcher for `path`, dropping its handle before
    /// returning; reports whether one was present.
    pub fn remove_watcher(&mut self, path: &str) -> (r: Result<bool, String>)
        requires
            old(self).wf(),
        ensures
            final(self).wf(),
            r == Ok::<bool, String>(old(self).watcher_map().contains_key(path@)),
            final(self).workspace() == old(self).workspace(),
            final(self).watcher_map() == old(self).watcher_map().remove(path@),
    {
        let e = self.take_entry(path);
        Ok(e.is_some())
    }

    /// Whether a watcher is registered for `path`.
    pub fn has_watcher(&self, path: &str) -> (r: bool)
        ensures
            r == self.watcher_map().contains_key(path@),
    {
        proof {
            lemma_wm_dom(self.watchers@);
        }
        self.find_watcher(path).is_some()
    }

    /// The number of active watchers.
    pub fn watcher_count(&self) -> (r: usize)
        requires
            self.wf(),
        ensures
            r == self.watcher_map().dom().len(),
    {
        proof {
            lemma_wm_len(self.watchers@);
        }
        self.watchers.len()
    }

    /// The watched directory paths, one for each registered key.
    pub fn get_watched_directories(&self) -> (r: Result<Vec<String>, String>)
        requires
            self.wf(),
        ensures
            r is Ok,
            r matches Ok(v) ==> {
                &&& v@.len() == self.watcher_map().dom().len()
                &&& forall|i: int|
                    0 <= i < v@.len() ==> self.watcher_map().contains_key(#[trigger] v@[i]@)
                &&& forall|p: Seq<char>|
                    self.watcher_map().contains_key(p) ==> exists|i: int|
                        0 <= i < v@.len() && v@[i]@ == p
                &&& forall|i: int, j: int| 0 <= i < j < v@.len() ==> v@[i]@ != v@[j]@
            },
    {
        let n = self.watchers.len();
        let mut v: Vec<String> = Vec::new();
        let mut i: usize = 0;
        while i < n
            invariant
                n == self.watchers@.len(),
                i <= n,
                v@.len() == i,
                forall|j: int| 0 <= j < i ==> #[trigger] v@[j]@ == self.watchers@[j].path@,
            decreases n - i,
        {
            v.push(str_copy(self.watchers[i].path.as_str()));
            i = i + 1;
        }
        proof {
            lemma_wm_dom(self.watchers@);
            lemma_wm_len(self.watchers@);
            assert forall|p: Seq<char>| self.watcher_map().contains_key(p) implies exists|k: int|
                0 <= k < v@.len() && v@[k]@ == p by {
                let k = choose|k: int| 0 <= k < self.watchers@.len() && self.watchers@[k].path@ == p;
                assert(v@[k]@ == p);
            }
        }
        Ok(v)
    }

    /// Removes every watcher, dropping each handle, and reports how many
    /// there were. Afterwards the registry is empty, whatever sequence of
    /// operations came before.
    pub fn clear_all_watchers(&mut self) -> (r: Result<usize, String>)
        requires
            old(self).wf(),
        ensures
            final(self).wf(),
            r matches Ok(n) && n == old(self).watcher_map().dom().len(),
            final(self).workspace() == old(self).workspace(),
            final(self).watcher_map() == Map::<Seq<char>, WatcherView>::empty(),
            final(self).watcher_map().dom().len() == 0,
    {
        proof {
            lemma_wm_len(self.watchers@);
        }
        let n = self.watchers.len();
        self.watchers.clear();
        proof {
            lemma_wm_len(self.watchers@);
            assert(self.watcher_map() =~= Map::<Seq<char>, WatcherView>::empty());
        }
        Ok(n)
    }

    /// Records one filesystem event for `path`: bumps the entry's counter
    /// and returns the new count, or reports that the watch is gone.
    pub fn increment_watcher_event_count(&mut self, path: &str) -> (r: Result<u64, String>)
        requires
            old(self).wf(),
        ensures
            final(self).wf(),
            final(self).workspace() == old(self).workspace(),
            old(self).watcher_map().contains_key(path@) ==> {
                &&& r matches Ok(n) && n == bumped(old(self).watcher_map()[path@].event_count)
                &&& final(self).watcher_map() == old(self).watcher_map().insert(
                    path@,
                    WatcherView {
                        created_at: old(self).watcher_map()[path@].created_at,
                        event_count: bumped(old(self).watcher_map()[path@].event_count),
                    },
                )
            },
            !old(self).watcher_map().contains_key(path@) ==> {
                &&& r matches Err(m) && m@ == "No watcher found for: "@ + path@
                &&& final(self).watcher_map() == old(self).watcher_map()
            },
    {
        let found = self.take_entry(path);
        match found {
            Some(e) => {
                let ghost mid = *self;
                let new_count = if e.event_count == u64::MAX {
                    u64::MAX
                } else {
                    e.event_count + 1
                };
                let entry = WatcherEntry {
                    path: e.path,
                    watcher: e.watcher,
                    created_at: e.created_at,
                    event_count: new_count,
                };
                let ghost p = entry.path@;
                let ghost v = entry_view(entry);
                proof {
                    lemma_wm_push(self.watchers@, entry);
                }
                self.watchers.push(entry);
                proof {
                    assert(p == path@);
                    lemma_distinct_push(mid.watchers@, self.watchers@, p);
                    assert(self.watcher_map() == mid.watcher_map().insert(p, v));
                    assert(self.watcher_map() =~= old(self).watcher_map().insert(p, v));
                }
                Ok(new_count)
            },
            None => {
                proof {
                    assert(old(self).watcher_map().remove(path@) =~= old(self).watcher_map());
                }
                Err(String::from_str("No watcher found for: ").concat(path))
            },
        }
    }

    /// A statistics snapshot for the watcher at `path`, if one exists. The
    /// uptime is computed from the clock at call time and is never negative.
    pub fn get_watcher_stats(&self, path: &str) -> (r: Result<Option<WatcherStats>, String>)
        requires
            self.wf(),
        ensures
            r is Ok,
            r matches Ok(o) ==> (o is Some <==> self.watcher_map().contains_key(path@)),
            r matches Ok(o) && o matches Some(st) ==> {
                &&& st.path@ == path@
                &&& st.created_at == self.watcher_map()[path@].created_at
                &&& st.event_count == self.watcher_map()[path@].event_count
                &&& st.uptime_seconds >= 0
            },
    {
        proof {
            lemma_wm_dom(self.watchers@);
        }
        match self.find_watcher(path) {
            Some(i) => {
                proof {
                    lemma_wm_index(self.watchers@, i as int);
                }
                let e = &self.watchers[i];
                let now = now_unix_seconds();
                let uptime = match now.checked_sub(e.created_at) {
                    Some(d) => if d >= 0 {
                        d
                    } else {
                        0
                    },
                    None => 0,
                };
                Ok(
                    Some(
                        WatcherStats {
                            path: str_copy(path),
                            created_at: e.created_at,
                            event_count: e.event_count,
                            uptime_seconds: uptime,
                        },
                    ),
                )
            },
            None => Ok(None),
        }
    }
}

impl Default for AppState {
    fn default() -> (r: AppState)
        ensures
            r.wf(),
            r.workspace() is None,
            r.watcher_map() == Map::<Seq<char>, WatcherView>::empty(),
    {
        AppState::new()
    }
}

} // verus!
