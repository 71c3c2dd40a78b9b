use vstd::prelude::*;

use crate::paths::{path_components, same_path};

verus! {

/// Detection state for an application's scroll behaviour.
#[derive(Debug, Clone, Copy, PartialEq, Eq, Structural)]
pub enum ThresholdMode {
    /// Not yet examined: use the safe default.
    Unknown,
    /// Detection in progress: use the safe default until resolved.
    Detecting,
    /// The application handles smooth (high-resolution) scrolling.
    SmoothOk,
    /// The application expects legacy 120-unit wheel deltas.
    Legacy120,
}

/// The injection threshold, in wheel units, that a mode implies.
pub open spec fn mode_threshold(mode: ThresholdMode) -> u32 {
    match mode {
        ThresholdMode::Legacy120 => 120,
        _ => 1,
    }
}

/// Whether a mode is a detection result (and so worth persisting).
pub open spec fn is_resolved(mode: ThresholdMode) -> bool {
    mode == ThresholdMode::SmoothOk || mode == ThresholdMode::Legacy120
}

impl ThresholdMode {
    /// The `inject_threshold` value implied by this mode: 120 for legacy
    /// applications, 1 otherwise.
    pub fn threshold(&self) -> (r: u32)
        ensures
            r == mode_threshold(*self),
    {
        match self {
            ThresholdMode::Legacy120 => 120,
            _ => 1,
        }
    }
}

/// Identity of an application binary: its executable path and, when known,
/// its modification time (seconds since the UNIX epoch), so that an updated
/// binary is detected again. Paths are compared by their components, as
/// Windows paths are (see `path_components`).
#[derive(Debug)]
pub struct AppKey {
    pub exe_path: String,
    pub exe_mtime: Option<u64>,
}

/// The value a key stands for: the components of its path, and its
/// modification time.
pub type KeyView = (Seq<Seq<char>>, Option<u64>);

impl View for AppKey {
    type V = KeyView;

    open spec fn view(&self) -> KeyView {
        (path_components(self.exe_path@), self.exe_mtime)
    }
}

impl Clone for AppKey {
    fn clone(&self) -> (r: Self)
        ensures
            r@ == self@,
            r.exe_path@ == self.exe_path@,
            r.exe_mtime == self.exe_mtime,
    {
        AppKey { exe_path: self.exe_path.clone(), exe_mtime: self.exe_mtime }
    }
}

/// Compares two keys by path components and modification time.
pub fn same_key(a: &AppKey, b: &AppKey) -> (r: bool)
    ensures
        r == (a@ == b@),
{
    let same_time = match (a.exe_mtime, b.exe_mtime) {
        (None, None) => true,
        (Some(x), Some(y)) => x == y,
        _ => false,
    };
    same_time && same_path(a.exe_path.as_str(), b.exe_path.as_str())
}

impl PartialEq for AppKey {
    fn eq(&self, other: &Self) -> (r: bool) {
        same_key(self, other)
    }
}

impl vstd::std_specs::cmp::PartialEqSpecImpl for AppKey {
    open spec fn obeys_eq_spec() -> bool {
        true
    }

    open spec fn eq_spec(&self, other: &Self) -> bool {
        self@ == other@
    }
}

impl Eq for AppKey {

}

/// On-disk form of one resolved cache entry.
#[derive(Debug, Clone)]
pub struct CacheEntry {
    pub exe_path: String,
    pub exe_mtime: u64,
    pub mode: ThresholdMode,
}

/// The key a persisted entry stands for.
pub open spec fn entry_key(e: CacheEntry) -> KeyView {
    (path_components(e.exe_path@), Some(e.exe_mtime))
}

/// The map that a list of (key, mode) pairs describes; a later pair for the
/// same key wins.
pub open spec fn map_of(s: Seq<(AppKey, ThresholdMode)>) -> Map<KeyView, ThresholdMode>
    decreases s.len(),
{
    if s.len() == 0 {
        Map::empty()
    } else {
        map_of(s.drop_last()).insert(s.last().0@, s.last().1)
    }
}

/// The path text of the pair kept for each key of a list of (key, mode)
/// pairs; a later pair for the same key wins.
pub open spec fn text_map_of(s: Seq<(AppKey, ThresholdMode)>) -> Map<KeyView, Seq<char>>
    decreases s.len(),
{
    if s.len() == 0 {
        Map::empty()
    } else {
        text_map_of(s.drop_last()).insert(s.last().0@, s.last().0.exe_path@)
    }
}

/// No key occurs twice.
pub open spec fn distinct_keys(s: Seq<(AppKey, ThresholdMode)>) -> bool {
    forall|i: int, j: int| 0 <= i < j < s.len() ==> s[i].0@ != s[j].0@
}

proof fn lemma_map_of_lookup(s: Seq<(AppKey, ThresholdMode)>)
    requires
        distinct_keys(s),
    ensures
        forall|i: int|
            0 <= i < s.len() ==> #[trigger] map_of(s).contains_key(s[i].0@) && map_of(s)[s[i].0@]
                == s[i].1,
        forall|k: KeyView|
            #[trigger] map_of(s).contains_key(k) ==> exists|i: int| 0 <= i < s.len() && s[i].0@ == k,
        map_of(s).dom().finite(),
        map_of(s).len() == s.len(),
    decreases s.len(),
{
    if s.len() > 0 {
        let init = s.drop_last();
        assert(distinct_keys(init));
        lemma_map_of_lookup(init);
        let last = s.last();
        assert(!map_of(init).contains_key(last.0@)) by {
            if map_of(init).contains_key(last.0@) {
                let i = choose|i: int| 0 <= i < init.len() && init[i].0@ == last.0@;
                assert(s[i].0@ == s[s.len() - 1].0@);
            }
        }
        assert forall|i: int| 0 <= i < s.len() implies #[trigger] map_of(s).contains_key(s[i].0@)
            && map_of(s)[s[i].0@] == s[i].1 by {
            if i < s.len() - 1 {
                assert(init[i] == s[i]);
                assert(s[i].0@ != last.0@);
            }
        }
        assert forall|k: KeyView| #[trigger] map_of(s).contains_key(k) implies exists|i: int|
            0 <= i < s.len() && s[i].0@ == k by {
            if k != last.0@ {
                assert(map_of(init).contains_key(k));
                let i = choose|i: int| 0 <= i < init.len() && init[i].0@ == k;
                assert(s[i] == init[i]);
            } else {
                assert(s[s.len() - 1].0@ == k);
            }
        }
    }
}

proof fn lemma_map_of_update(s: Seq<(AppKey, ThresholdMode)>, i: int, key: AppKey, mode: ThresholdMode)
    requires
        0 <= i < s.len(),
        key@ == s[i].0@,
        distinct_keys(s),
    ensures
        map_of(s.update(i, (key, mode))) == map_of(s).insert(key@, mode),
        distinct_keys(s.update(i, (key, mode))),
    decreases s.len(),
{
    let t = s.update(i, (key, mode));
    if i == s.len() - 1 {
        assert(t.drop_last() =~= s.drop_last());
        assert(map_of(t) =~= map_of(s).insert(key@, mode));
    } else {
        lemma_map_of_update(s.drop_last(), i, key, mode);
        assert(t.drop_last() =~= s.drop_last().update(i, (key, mode)));
        assert(t.last() == s.last());
        assert(s[i].0@ != s[s.len() - 1].0@);
        assert(map_of(t) =~= map_of(s).insert(key@, mode));
    }
    assert forall|a: int, b: int| 0 <= a < b < t.len() implies t[a].0@ != t[b].0@ by {
        assert(s[a].0@ != s[b].0@);
    }
}

proof fn lemma_text_map_of(s: Seq<(AppKey, ThresholdMode)>)
    requires
        distinct_keys(s),
    ensures
        text_map_of(s).dom() == map_of(s).dom(),
        forall|i: int|
            0 <= i < s.len() ==> #[trigger] text_map_of(s)[s[i].0@] == s[i].0.exe_path@,
    decreases s.len(),
{
    if s.len() > 0 {
        let init = s.drop_last();
        assert(distinct_keys(init));
        lemma_text_map_of(init);
        assert(text_map_of(s).dom() =~= map_of(s).dom());
        assert forall|i: int| 0 <= i < s.len() implies #[trigger] text_map_of(s)[s[i].0@]
            == s[i].0.exe_path@ by {
            if i < s.len() - 1 {
                assert(init[i] == s[i]);
                assert(s[i].0@ != s[s.len() - 1].0@);
            }
        }
    }
}

proof fn lemma_text_map_of_update(
    s: Seq<(AppKey, ThresholdMode)>,
    i: int,
    key: AppKey,
    mode: ThresholdMode,
)
    requires
        0 <= i < s.len(),
        key@ == s[i].0@,
        key.exe_path@ == s[i].0.exe_path@,
        distinct_keys(s),
    ensures
        text_map_of(s.update(i, (key, mode))) == text_map_of(s),
    decreases s.len(),
{
    let t = s.update(i, (key, mode));
    if i == s.len() - 1 {
        assert(t.drop_last() =~= s.drop_last());
    } else {
        assert(distinct_keys(s.drop_last()));
        lemma_text_map_of_update(s.drop_last(), i, key, mode);
        assert(t.drop_last() =~= s.drop_last().update(i, (key, mode)));
        assert(t.last() == s.last());
    }
}

/// The injection threshold for an application (`None`: no application),
/// given the cache's map: the one its mode implies, or the safe default 1.
pub open spec fn threshold_spec(m: Map<KeyView, ThresholdMode>, key: Option<KeyView>) -> u32 {
    match key {
        Some(k) => if m.contains_key(k) {
            mode_threshold(m[k])
        } else {
            1
        },
        None => 1,
    }
}

/// Read after write: after `set_mode` records `mode` for an application,
/// `get_threshold` gives for it the threshold `mode` implies, and for any
/// other application what it gave before.
pub proof fn lemma_set_mode_then_threshold(
    m: Map<KeyView, ThresholdMode>,
    k: KeyView,
    mode: ThresholdMode,
    other: KeyView,
)
    ensures
        threshold_spec(m.insert(k, mode), Some(k)) == mode_threshold(mode),
        other != k ==> threshold_spec(m.insert(k, mode), Some(other)) == threshold_spec(
            m,
            Some(other),
        ),
{
}

/// Detection is requested at most once: after a successful
/// `start_detecting`, another call for the same application is refused,
/// and so is one for an application whose mode is resolved.
pub proof fn lemma_start_detecting_once(m: Map<KeyView, ThresholdMode>, k: KeyView)
    ensures
        ({
            let after = m.insert(k, ThresholdMode::Detecting);
            !(!after.contains_key(k) || after[k] == ThresholdMode::Unknown)
        }),
        m.contains_key(k) && is_resolved(m[k]) ==> !(!m.contains_key(k) || m[k]
            == ThresholdMode::Unknown),
{
}

/// An application's threshold is 120 exactly when it is known to be legacy,
/// and 1 otherwise.
pub proof fn lemma_threshold_values(mode: ThresholdMode)
    ensures
        mode_threshold(mode) == 120 <==> mode == ThresholdMode::Legacy120,
        mode_threshold(mode) == 1 <==> mode != ThresholdMode::Legacy120,
{
}

/// Per-application threshold cache.
///
/// Its entries never hold the same key twice; its view is the map from key
/// to mode.
pub struct AppThresholdCache {
    entries: Vec<(AppKey, ThresholdMode)>,
}

impl View for AppThresholdCache {
    type V = Map<KeyView, ThresholdMode>;

    closed spec fn view(&self) -> Map<KeyView, ThresholdMode> {
        map_of(self.entries@)
    }
}

impl AppThresholdCache {
    /// The path text stored for each application: that of the key under
    /// which it was first recorded (a later key for the same path, spelt
    /// differently, changes the mode only).
    pub closed spec fn stored_paths(&self) -> Map<KeyView, Seq<char>> {
        text_map_of(self.entries@)
    }

    #[verifier::type_invariant]
    closed spec fn wf(self) -> bool {
        distinct_keys(self.entries@)
    }

    /// An empty cache.
    pub fn new() -> (r: Self)
        ensures
            r@ == Map::<KeyView, ThresholdMode>::empty(),
            r.stored_paths() == Map::<KeyView, Seq<char>>::empty(),
    {
        AppThresholdCache { entries: Vec::new() }
    }

    /// Number of applications in the cache.
    pub fn len(&self) -> (r: usize)
        ensures
            r == self@.len(),
    {
        proof {
            use_type_invariant(self);
            lemma_map_of_lookup(self.entries@);
        }
        self.entries.len()
    }

    fn find(&self, key: &AppKey) -> (r: Option<usize>)
        ensures
            match r {
                Some(i) => i < self.entries@.len() && self.entries@[i as int].0@ == key@,
                None => forall|i: int|
                    0 <= i < self.entries@.len() ==> self.entries@[i].0@ != key@,
            },
    {
        let n = self.entries.len();
        let mut i: usize = 0;
        while i < n
            invariant
                n == self.entries@.len(),
                i <= n,
                forall|j: int| 0 <= j < i ==> self.entries@[j].0@ != key@,
            decreases n - i,
        {
            if same_key(&self.entries[i].0, key) {
                return Some(i);
            }
            i = i + 1;
        }
        None
    }

    /// The mode recorded for an application, if any.
    pub fn get_mode(&self, key: &AppKey) -> (r: Option<&ThresholdMode>)
        ensures
            match r {
                Some(m) => self@.contains_key(key@) && *m == self@[key@],
                None => !self@.contains_key(key@),
            },
    {
        proof {
            use_type_invariant(self);
            lemma_map_of_lookup(self.entries@);
        }
        match self.find(key) {
            Some(i) => {
                assert(map_of(self.entries@).contains_key(self.entries@[i as int].0@));
                Some(&self.entries[i].1)
            },
            None => None,
        }
    }

    /// The effective injection threshold for an application: the one its
    /// mode implies, or the safe default 1 for an application never seen
    /// (or for no application at all).
    pub fn get_threshold(&self, app_key: Option<&AppKey>) -> (r: u32)
        ensures
            r == threshold_spec(
                self@,
                match app_key {
                    Some(k) => Some(k@),
                    None => None,
                },
            ),
    {
        match app_key {
            Some(k) => match self.get_mode(k) {
                Some(mode) => mode.threshold(),
                None => ThresholdMode::Unknown.threshold(),
            },
            None => ThresholdMode::Unknown.threshold(),
        }
    }

    /// Records `mode` for an application, replacing any earlier mode. An
    /// application already present keeps the key it was first recorded
    /// under; a new one is stored under `app_key`.
    pub fn set_mode(&mut self, app_key: AppKey, mode: ThresholdMode)
        ensures
            final(self)@ == old(self)@.insert(app_key@, mode),
            final(self).stored_paths() == (if old(self)@.contains_key(app_key@) {
                old(self).stored_paths()
            } else {
                old(self).stored_paths().insert(app_key@, app_key.exe_path@)
            }),
            final(self).stored_paths().dom() == final(self)@.dom(),
    {
        proof {
            use_type_invariant(&*self);
            lemma_map_of_lookup(self.entries@);
        }
        let found = self.find(&app_key);
        let mut entries: Vec<(AppKey, ThresholdMode)> = Vec::new();
        std::mem::swap(&mut entries, &mut self.entries);
        match found {
            Some(i) => {
                let kept = entries[i].0.clone();
                proof {
                    lemma_map_of_update(entries@, i as int, kept, mode);
                    lemma_text_map_of_update(entries@, i as int, kept, mode);
                    assert(map_of(entries@).contains_key(entries@[i as int].0@));
                }
                entries.set(i, (kept, mode));
            },
            None => {
                let ghost before = entries@;
                entries.push((app_key, mode));
                assert(entries@.drop_last() =~= before);
                assert forall|a: int, b: int| 0 <= a < b < entries@.len() implies entries@[a].0@
                    != entries@[b].0@ by {
                    if b == entries@.len() - 1 {
                        assert(before[a].0@ != app_key@);
                    } else {
                        assert(before[a].0@ != before[b].0@);
                    }
                }
            },
        }
        self.entries = entries;
        proof {
            lemma_text_map_of(self.entries@);
        }
    }

    /// Begins detection for an application: when it has no mode yet, or
    /// only `Unknown`, marks it `Detecting` and returns `true`; otherwise
    /// (already detecting, or resolved) changes nothing and returns `false`.
    pub fn start_detecting(&mut self, app_key: AppKey) -> (r: bool)
        ensures
            r == (!old(self)@.contains_key(app_key@) || old(self)@[app_key@]
                == ThresholdMode::Unknown),
            r ==> final(self)@ == old(self)@.insert(app_key@, ThresholdMode::Detecting),
            !r ==> final(self)@ == old(self)@,
            final(self).stored_paths() == (if r && !old(self)@.contains_key(app_key@) {
                old(self).stored_paths().insert(app_key@, app_key.exe_path@)
            } else {
                old(self).stored_paths()
            }),
    {
        let startable = match self.get_mode(&app_key) {
            None => true,
            Some(m) => *m == ThresholdMode::Unknown,
        };
        if startable {
            self.set_mode(app_key, ThresholdMode::Detecting);
        }
        startable
    }
}

/// The part of a cache that is written to disk: resolved modes of
/// applications whose modification time is known.
pub open spec fn persisted_part(m: Map<KeyView, ThresholdMode>) -> Map<KeyView, ThresholdMode> {
    Map::new(|k: KeyView| m.contains_key(k) && is_resolved(m[k]) && k.1 is Some, |k: KeyView| m[k])
}

/// `entries` lists exactly the persisted part of `m`, each key once.
pub open spec fn saved_as(m: Map<KeyView, ThresholdMode>, entries: Seq<CacheEntry>) -> bool {
    &&& forall|i: int, j: int|
        #![trigger entries[i], entries[j]]
        0 <= i < j < entries.len() ==> entry_key(entries[i]) != entry_key(entries[j])
    &&& forall|i: int|
        #![trigger entries[i]]
            0 <= i < entries.len() ==> persisted_part(m).contains_key(entry_key(entries[i]))
            && persisted_part(m)[entry_key(entries[i])] == entries[i].mode
    &&& forall|k: KeyView|
        #[trigger] persisted_part(m).contains_key(k) ==> exists|i: int|
            #![trigger entries[i]]
            0 <= i < entries.len() && entry_key(entries[i]) == k
}

proof fn lemma_saved_as_intro(m: Map<KeyView, ThresholdMode>, entries: Seq<CacheEntry>)
    requires
        forall|i: int, j: int|
            #![trigger entries[i], entries[j]]
            0 <= i < j < entries.len() ==> entry_key(entries[i]) != entry_key(entries[j]),
        forall|i: int|
            #![trigger entries[i]]
            0 <= i < entries.len() ==> persisted_part(m).contains_key(entry_key(entries[i]))
                && persisted_part(m)[entry_key(entries[i])] == entries[i].mode,
        forall|k: KeyView|
            #[trigger] persisted_part(m).contains_key(k) ==> exists|i: int|
                #![trigger entries[i]]
                0 <= i < entries.len() && entry_key(entries[i]) == k,
    ensures
        saved_as(m, entries),
{
}

/// The entries collected from the resolved, timed pairs of `s` (at the
/// positions `src`) list exactly the persisted part of `map_of(s)`.
proof fn lemma_collected_entries(s: Seq<(AppKey, ThresholdMode)>, entries: Seq<CacheEntry>, src: Seq<int>)
    requires
        distinct_keys(s),
        entries.len() == src.len(),
        forall|a: int| 0 <= a < src.len() ==> 0 <= #[trigger] src[a] < s.len(),
        forall|a: int, b: int| 0 <= a < b < src.len() ==> src[a] < src[b],
        forall|a: int|
            0 <= a < entries.len() ==> entry_key(#[trigger] entries[a]) == s[src[a]].0@
                && entries[a].mode == s[src[a]].1,
        forall|j: int|
            0 <= j < s.len() && is_resolved(#[trigger] s[j].1) && s[j].0.exe_mtime is Some
                ==> exists|a: int| 0 <= a < src.len() && src[a] == j,
        forall|a: int| 0 <= a < src.len() ==> is_resolved(s[#[trigger] src[a]].1)
            && s[src[a]].0.exe_mtime is Some,
    ensures
        saved_as(map_of(s), entries),
{
    lemma_map_of_lookup(s);
    let m = map_of(s);
    assert forall|a: int, b: int|
        #![trigger entries[a], entries[b]]
        0 <= a < b < entries.len() implies entry_key(entries[a]) != entry_key(entries[b]) by {
        assert(s[src[a]].0@ != s[src[b]].0@);
    }
    assert forall|a: int|
        #![trigger entries[a]]
        0 <= a < entries.len() implies persisted_part(m).contains_key(
        entry_key(entries[a]),
    ) && persisted_part(m)[entry_key(entries[a])] == entries[a].mode by {
        let j = src[a];
        assert(m.contains_key(s[j].0@));
    }
    assert forall|k: KeyView| #[trigger] persisted_part(m).contains_key(k) implies exists|
        a: int,
    |
        #![trigger entries[a]]
        0 <= a < entries.len() && entry_key(entries[a]) == k by {
        let j = choose|j: int| 0 <= j < s.len() && s[j].0@ == k;
        assert(m[s[j].0@] == s[j].1);
        let a = choose|a: int| 0 <= a < src.len() && src[a] == j;
        assert(entry_key(entries[a]) == k);
    }
    lemma_saved_as_intro(m, entries);
}

/// The cache that loading `entries` gives, when `observed[i]` is the
/// modification time found on disk for the binary of `entries[i]`: an entry
/// is kept only when that time is known and equals the recorded one; a
/// later entry for the same key wins.
pub open spec fn load_spec(entries: Seq<CacheEntry>, observed: Seq<Option<u64>>) -> Map<
    KeyView,
    ThresholdMode,
>
    decreases entries.len(),
{
    if entries.len() == 0 || observed.len() == 0 {
        Map::empty()
    } else {
        let m = load_spec(entries.drop_last(), observed.drop_last());
        if observed.last() == Some(entries.last().exe_mtime) {
            m.insert(entry_key(entries.last()), entries.last().mode)
        } else {
            m
        }
    }
}

/// Loading keeps exactly the fresh entries: an application is in the loaded
/// cache exactly when some entry for it has its recorded modification time
/// equal to the one observed on disk (an entry whose binary is gone or has
/// another time is skipped), and its mode is that of the last such entry.
pub proof fn lemma_load_keeps_fresh_entries(entries: Seq<CacheEntry>, observed: Seq<Option<u64>>)
    requires
        entries.len() == observed.len(),
    ensures
        forall|k: KeyView|
            #[trigger] load_spec(entries, observed).contains_key(k) <==> exists|i: int|
                0 <= i < entries.len() && entry_key(entries[i]) == k && observed[i] == Some(
                    entries[i].exe_mtime,
                ),
        forall|i: int|
            0 <= i < entries.len() && observed[i] == Some(entries[i].exe_mtime) && (forall|j: int|
                i < j < entries.len() && entry_key(entries[j]) == entry_key(entries[i])
                    ==> observed[j] != Some(entries[j].exe_mtime)) ==> #[trigger] load_spec(
                entries,
                observed,
            )[entry_key(entries[i])] == entries[i].mode,
    decreases entries.len(),
{
    if entries.len() > 0 {
        let ei = entries.drop_last();
        let oi = observed.drop_last();
        lemma_load_keeps_fresh_entries(ei, oi);
        let n = entries.len() - 1;
        let m = load_spec(entries, observed);
        let mi = load_spec(ei, oi);
        assert forall|k: KeyView| #[trigger] m.contains_key(k) <==> exists|i: int|
            0 <= i < entries.len() && entry_key(entries[i]) == k && observed[i] == Some(
                entries[i].exe_mtime,
            ) by {
            if mi.contains_key(k) {
                let i = choose|i: int|
                    0 <= i < ei.len() && entry_key(ei[i]) == k && oi[i] == Some(ei[i].exe_mtime);
                assert(entries[i] == ei[i] && observed[i] == oi[i]);
            }
            if exists|i: int|
                0 <= i < entries.len() && entry_key(entries[i]) == k && observed[i] == Some(
                    entries[i].exe_mtime,
                ) {
                let i = choose|i: int|
                    0 <= i < entries.len() && entry_key(entries[i]) == k && observed[i] == Some(
                        entries[i].exe_mtime,
                    );
                if i < n {
                    assert(entries[i] == ei[i] && observed[i] == oi[i]);
                    assert(mi.contains_key(k));
                }
            }
        }
        assert forall|i: int|
            0 <= i < entries.len() && observed[i] == Some(entries[i].exe_mtime) && (forall|j: int|
                i < j < entries.len() && entry_key(entries[j]) == entry_key(entries[i])
                    ==> observed[j] != Some(entries[j].exe_mtime)) implies #[trigger] m[entry_key(
            entries[i],
        )] == entries[i].mode by {
            if i < n {
                assert(entries[i] == ei[i] && observed[i] == oi[i]);
                assert forall|j: int|
                    i < j < ei.len() && entry_key(ei[j]) == entry_key(ei[i]) implies oi[j]
                    != Some(ei[j].exe_mtime) by {
                    assert(entries[j] == ei[j] && observed[j] == oi[j]);
                }
                if observed[n] == Some(entries[n].exe_mtime) {
                    assert(entry_key(entries[n]) != entry_key(entries[i]));
                }
            }
        }
    }
}

/// The times found on disk when no binary changed since it was saved.
pub open spec fn unchanged_mtimes(entries: Seq<CacheEntry>) -> Seq<Option<u64>> {
    entries.map_values(|e: CacheEntry| Some(e.exe_mtime))
}

proof fn lemma_load_unchanged(entries: Seq<CacheEntry>)
    requires
        forall|i: int, j: int|
            0 <= i < j < entries.len() ==> entry_key(entries[i]) != entry_key(entries[j]),
    ensures
        forall|k: KeyView|
            #[trigger] load_spec(entries, unchanged_mtimes(entries)).contains_key(k) <==> exists|
                i: int,
            |
                0 <= i < entries.len() && entry_key(entries[i]) == k,
        forall|i: int|
            0 <= i < entries.len() ==> #[trigger] load_spec(entries, unchanged_mtimes(entries))[entry_key(
                entries[i],
            )] == entries[i].mode,
    decreases entries.len(),
{
    if entries.len() > 0 {
        let init = entries.drop_last();
        assert(unchanged_mtimes(entries).drop_last() =~= unchanged_mtimes(init));
        lemma_load_unchanged(init);
        let last = entries.last();
        assert(unchanged_mtimes(entries).last() == Some(last.exe_mtime));
        let m = load_spec(entries, unchanged_mtimes(entries));
        assert forall|k: KeyView| #[trigger] m.contains_key(k) <==> exists|i: int|
            0 <= i < entries.len() && entry_key(entries[i]) == k by {
            if m.contains_key(k) && k != entry_key(last) {
                let i = choose|i: int| 0 <= i < init.len() && entry_key(init[i]) == k;
                assert(entries[i] == init[i]);
            }
            if exists|i: int| 0 <= i < entries.len() && entry_key(entries[i]) == k {
                let i = choose|i: int| 0 <= i < entries.len() && entry_key(entries[i]) == k;
                if i < entries.len() - 1 {
                    assert(entries[i] == init[i]);
                }
            }
        }
        assert forall|i: int| 0 <= i < entries.len() implies #[trigger] m[entry_key(entries[i])]
            == entries[i].mode by {
            if i < entries.len() - 1 {
                assert(entries[i] == init[i]);
                assert(entry_key(entries[i]) != entry_key(last));
            }
        }
    }
}

/// Round trip: loading the saved entries of a cache, while no binary has
/// changed, gives back exactly the persisted part of that cache.
pub proof fn lemma_save_load_round_trip(m: Map<KeyView, ThresholdMode>, entries: Seq<CacheEntry>)
    requires
        saved_as(m, entries),
    ensures
        load_spec(entries, unchanged_mtimes(entries)) == persisted_part(m),
{
    lemma_load_unchanged(entries);
    let l = load_spec(entries, unchanged_mtimes(entries));
    let p = persisted_part(m);
    assert forall|k: KeyView| l.contains_key(k) <==> p.contains_key(k) by {
        if l.contains_key(k) {
            let i = choose|i: int| 0 <= i < entries.len() && entry_key(entries[i]) == k;
            assert(p.contains_key(entry_key(entries[i])));
        }
    }
    assert forall|k: KeyView| l.contains_key(k) implies l[k] == p[k] by {
        let i = choose|i: int| 0 <= i < entries.len() && entry_key(entries[i]) == k;
        assert(p.contains_key(entry_key(entries[i])));
    }
    assert(l =~= p);
}

impl AppThresholdCache {
    /// The entries to write to disk: every application with a resolved
    /// mode (`SmoothOk` or `Legacy120`) and a known modification time.
    /// Transient states (`Unknown`, `Detecting`) are left out.
    pub fn persistable_entries(&self) -> (r: Vec<CacheEntry>)
        ensures
            saved_as(self@, r@),
            forall|a: int|
                0 <= a < r@.len() ==> #[trigger] r@[a].exe_path@ == self.stored_paths()[entry_key(
                    r@[a],
                )],
    {
        proof {
            use_type_invariant(self);
            lemma_map_of_lookup(self.entries@);
            lemma_text_map_of(self.entries@);
        }
        let ghost s = self.entries@;
        let mut r: Vec<CacheEntry> = Vec::new();
        let ghost mut src: Seq<int> = Seq::empty();
        let n = self.entries.len();
        let mut i: usize = 0;
        while i < n
            invariant
                n == s.len(),
                s == self.entries@,
                distinct_keys(s),
                i <= n,
                r@.len() == src.len(),
                forall|a: int| 0 <= a < src.len() ==> 0 <= #[trigger] src[a] < i,
                forall|a: int, b: int| 0 <= a < b < src.len() ==> src[a] < src[b],
                forall|a: int|
                    0 <= a < r@.len() ==> entry_key(#[trigger] r@[a]) == s[src[a]].0@ && r@[a].mode
                        == s[src[a]].1 && r@[a].exe_path@ == s[src[a]].0.exe_path@,
                forall|j: int|
                    0 <= j < i && is_resolved(#[trigger] s[j].1) && s[j].0.exe_mtime is Some
                        ==> exists|a: int| 0 <= a < src.len() && src[a] == j,
                forall|a: int| 0 <= a < src.len() ==> is_resolved(s[#[trigger] src[a]].1)
                    && s[src[a]].0.exe_mtime is Some,
            decreases n - i,
        {
            let (key, mode) = (&self.entries[i].0, self.entries[i].1);
            let resolved = match mode {
                ThresholdMode::SmoothOk | ThresholdMode::Legacy120 => true,
                _ => false,
            };
            if resolved {
                match key.exe_mtime {
                    Some(mtime) => {
                        r.push(CacheEntry { exe_path: key.exe_path.clone(), exe_mtime: mtime, mode });
                        proof {
                            let old_src = src;
                            src = src.push(i as int);
                            assert forall|j: int|
                                0 <= j < i + 1 && is_resolved(#[trigger] s[j].1)
                                    && s[j].0.exe_mtime is Some implies exists|a: int|
                                0 <= a < src.len() && src[a] == j by {
                                if j < i {
                                    let a = choose|a: int| 0 <= a < old_src.len() && old_src[a] == j;
                                    assert(src[a] == j);
                                } else {
                                    assert(src[src.len() - 1] == j);
                                }
                            }
                        }
                    },
                    None => {},
                }
            }
            i = i + 1;
        }
        proof {
            lemma_collected_entries(s, r@, src);
        }
        r
    }

    /// Rebuilds a cache from saved entries. `observed[i]` is the
    /// modification time found on disk for the binary of `entries[i]`
    /// (`None` when it no longer exists); stale entries are skipped.
    pub fn from_entries(entries: Vec<CacheEntry>, observed: Vec<Option<u64>>) -> (r: Self)
        requires
            entries.len() == observed.len(),
        ensures
            r@ == load_spec(entries@, observed@),
    {
        let mut cache = AppThresholdCache::new();
        let n = entries.len();
        let mut i: usize = 0;
        while i < n
            invariant
                n == entries.len(),
                n == observed.len(),
                i <= n,
                cache@ == load_spec(entries@.take(i as int), observed@.take(i as int)),
            decreases n - i,
        {
            let e = &entries[i];
            assert(entries@.take(i + 1).drop_last() =~= entries@.take(i as int));
            assert(observed@.take(i + 1).drop_last() =~= observed@.take(i as int));
            let fresh = match observed[i] {
                Some(actual) => actual == e.exe_mtime,
                None => false,
            };
            if fresh {
                let key = AppKey { exe_path: e.exe_path.clone(), exe_mtime: Some(e.exe_mtime) };
                cache.set_mode(key, e.mode);
            }
            i = i + 1;
        }
        assert(entries@.take(n as int) =~= entries@);
        assert(observed@.take(n as int) =~= observed@);
        cache
    }
}

} // verus!
