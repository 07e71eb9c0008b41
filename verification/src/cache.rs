//! The on-disk cache of what the Steam store said about each app.
//!
//! An entry records when it was written, whether the app is free and its DLC
//! ids; a lookup only returns entries younger than [`CACHE_TTL_SECS`].
use vstd::prelude::*;
use crate::text::text_eq;

verus! {

/// How long a cache entry stays valid: seven days, in seconds.
pub const CACHE_TTL_SECS: u64 = 7 * 24 * 3600;

/// What the store reported about one app, and when.
#[derive(Debug)]
pub struct SteamCacheEntry {
    pub timestamp: u64,
    pub is_free: bool,
    pub dlc_list: Vec<u32>,
}

impl View for SteamCacheEntry {
    type V = (u64, bool, Seq<u32>);

    open spec fn view(&self) -> (u64, bool, Seq<u32>) {
        (self.timestamp, self.is_free, self.dlc_list@)
    }
}

impl SteamCacheEntry {
    /// A copy of this entry.
    pub fn duplicate(&self) -> (r: SteamCacheEntry)
        ensures
            r@ == self@,
    {
        let d = self.dlc_list.clone();
        assert(d@ =~= self.dlc_list@);
        SteamCacheEntry { timestamp: self.timestamp, is_free: self.is_free, dlc_list: d }
    }
}

/// An entry written at `timestamp` is still valid at `now` (`now` before
/// `timestamp` counts as age zero).
pub open spec fn is_fresh(timestamp: u64, now: u64) -> bool {
    (if now >= timestamp {
        now - timestamp
    } else {
        0
    }) < CACHE_TTL_SECS
}

/// What a lookup of `appid` at time `now` in the cache contents `m` gives:
/// the entry, if there is one and it is still valid.
pub open spec fn lookup(m: Map<Seq<char>, (u64, bool, Seq<u32>)>, appid: Seq<char>, now: u64) -> Option<
    (u64, bool, Seq<u32>),
> {
    if m.contains_key(appid) && is_fresh(m[appid].0, now) {
        Some(m[appid])
    } else {
        None
    }
}

/// The entries of a list of `(app id, entry)` pairs, later pairs winning.
pub open spec fn entries_map(es: Seq<(String, SteamCacheEntry)>) -> Map<Seq<char>, (u64, bool, Seq<u32>)>
    decreases es.len(),
{
    if es.len() == 0 {
        Map::empty()
    } else {
        entries_map(es.drop_last()).insert(es.last().0@, es.last().1@)
    }
}

/// `r` is what a lookup of `appid` at time `now` in the cache contents `m`
/// gives, taken by view.
pub open spec fn read_at(
    r: Option<SteamCacheEntry>,
    m: Map<Seq<char>, (u64, bool, Seq<u32>)>,
    appid: Seq<char>,
    now: u64,
) -> bool {
    match r {
        Some(e) => lookup(m, appid, now) == Some(e@),
        None => lookup(m, appid, now) is None,
    }
}

/// No app id occurs twice.
pub open spec fn keys_unique(es: Seq<(String, SteamCacheEntry)>) -> bool {
    forall|i: int, j: int| 0 <= i < j < es.len() ==> #[trigger] es[i].0@ != #[trigger] es[j].0@
}

/// The cache: one entry per app id.
pub struct SteamCache {
    entries: Vec<(String, SteamCacheEntry)>,
}

impl View for SteamCache {
    type V = Map<Seq<char>, (u64, bool, Seq<u32>)>;

    closed spec fn view(&self) -> Map<Seq<char>, (u64, bool, Seq<u32>)> {
        entries_map(self.entries@)
    }
}

/// The time now, in whole seconds since the Unix epoch (0 if the clock is
/// before the epoch), from `std::time::SystemTime::now`. Nothing is claimed
/// of the value: it is the machine's clock.
#[verifier::external_body]
fn now_secs() -> u64 {
    std::time::SystemTime::now().duration_since(std::time::UNIX_EPOCH).unwrap_or_default().as_secs()
}

proof fn lemma_entries_map_index(es: Seq<(String, SteamCacheEntry)>, i: int)
    requires
        keys_unique(es),
        0 <= i < es.len(),
    ensures
        entries_map(es).contains_key(es[i].0@),
        entries_map(es)[es[i].0@] == es[i].1@,
    decreases es.len(),
{
    let init = es.drop_last();
    if i < es.len() - 1 {
        assert(init[i] == es[i]);
        assert(keys_unique(init)) by {
            assert forall|a: int, b: int| 0 <= a < b < init.len() implies #[trigger] init[a].0@
                != #[trigger] init[b].0@ by {
                assert(init[a] == es[a] && init[b] == es[b]);
            }
        }
        lemma_entries_map_index(init, i);
        assert(es[i].0@ != es[es.len() - 1].0@);
    }
}

proof fn lemma_entries_map_keys(es: Seq<(String, SteamCacheEntry)>, k: Seq<char>)
    requires
        forall|i: int| 0 <= i < es.len() ==> #[trigger] es[i].0@ != k,
    ensures
        !entries_map(es).contains_key(k),
    decreases es.len(),
{
    if es.len() > 0 {
        let init = es.drop_last();
        assert forall|i: int| 0 <= i < init.len() implies #[trigger] init[i].0@ != k by {
            assert(init[i] == es[i]);
        }
        lemma_entries_map_keys(init, k);
        assert(es[es.len() - 1].0@ != k);
    }
}

proof fn lemma_entries_map_update(
    es: Seq<(String, SteamCacheEntry)>,
    i: int,
    x: (String, SteamCacheEntry),
)
    requires
        keys_unique(es),
        0 <= i < es.len(),
        x.0@ == es[i].0@,
    ensures
        entries_map(es.update(i, x)) == entries_map(es).insert(x.0@, x.1@),
        keys_unique(es.update(i, x)),
    decreases es.len(),
{
    let es2 = es.update(i, x);
    assert(keys_unique(es2)) by {
        assert forall|a: int, b: int| 0 <= a < b < es2.len() implies #[trigger] es2[a].0@
            != #[trigger] es2[b].0@ by {
            assert(es2[a].0@ == es[a].0@ && es2[b].0@ == es[b].0@);
        }
    }
    let init = es.drop_last();
    assert(keys_unique(init)) by {
        assert forall|a: int, b: int| 0 <= a < b < init.len() implies #[trigger] init[a].0@
            != #[trigger] init[b].0@ by {
            assert(init[a] == es[a] && init[b] == es[b]);
        }
    }
    if i == es.len() - 1 {
        assert(es2.drop_last() =~= init);
        assert(entries_map(es2) =~= entries_map(init).insert(x.0@, x.1@));
        assert(entries_map(es) =~= entries_map(init).insert(x.0@, es.last().1@));
        assert(entries_map(es).insert(x.0@, x.1@) =~= entries_map(init).insert(x.0@, x.1@));
    } else {
        lemma_entries_map_update(init, i, x);
        assert(es2.drop_last() =~= init.update(i, x));
        assert(es[i].0@ != es.last().0@);
        assert(entries_map(es2) =~= entries_map(init.update(i, x)).insert(
            es.last().0@,
            es.last().1@,
        ));
        assert(entries_map(es2) =~= entries_map(es).insert(x.0@, x.1@));
    }
}

impl SteamCache {
    #[verifier::type_invariant]
    spec fn unique(&self) -> bool {
        keys_unique(self.entries@)
    }

    /// An empty cache.
    pub fn new() -> (r: SteamCache)
        ensures
            r@ == Map::<Seq<char>, (u64, bool, Seq<u32>)>::empty(),
    {
        let r = SteamCache { entries: Vec::new() };
        assert(entries_map(r.entries@) =~= Map::empty());
        r
    }

    /// The `(app id, entry)` pairs of the cache, each app id once.
    pub fn entries(&self) -> (r: &Vec<(String, SteamCacheEntry)>)
        ensures
            keys_unique(r@),
            entries_map(r@) == self@,
    {
        proof {
            use_type_invariant(self);
        }
        &self.entries
    }

    /// Index of the entry for `appid`.
    fn position(&self, appid: &str) -> (r: Option<usize>)
        ensures
            r matches Some(i) ==> i < self.entries.len() && self.entries@[i as int].0@ == appid@,
            r is None ==> forall|i: int|
                0 <= i < self.entries.len() ==> #[trigger] self.entries@[i].0@ != appid@,
    {
        let mut i: usize = 0;
        while i < self.entries.len()
            invariant
                i <= self.entries.len(),
                forall|k: int| 0 <= k < i ==> #[trigger] self.entries@[k].0@ != appid@,
            decreases self.entries.len() - i,
        {
            if text_eq(self.entries[i].0.as_str(), appid) {
                return Some(i);
            }
            i += 1;
        }
        None
    }

    /// The entry for `appid` if it exists and is still valid at time `now`.
    pub fn get_at(&self, appid: &str, now: u64) -> (r: Option<SteamCacheEntry>)
        ensures
            r matches Some(e) ==> lookup(self@, appid@, now) == Some(e@),
            r is None ==> lookup(self@, appid@, now) is None,
    {
        proof {
            use_type_invariant(self);
        }
        match self.position(appid) {
            Some(i) => {
                proof {
                    lemma_entries_map_index(self.entries@, i as int);
                }
                let e = &self.entries[i].1;
                if now.saturating_sub(e.timestamp) < CACHE_TTL_SECS {
                    Some(e.duplicate())
                } else {
                    None
                }
            },
            None => {
                proof {
                    lemma_entries_map_keys(self.entries@, appid@);
                }
                None
            },
        }
    }

    /// The entry for `appid` if it exists and is still valid now (by the
    /// machine's clock): the lookup at the time the clock gave, whatever
    /// that was.
    pub fn get(&self, appid: &str) -> (r: Option<SteamCacheEntry>)
        ensures
            exists|now: u64| #[trigger] read_at(r, self@, appid@, now),
            r matches Some(e) ==> self@.contains_key(appid@) && e@ == self@[appid@],
            !self@.contains_key(appid@) ==> r is None,
    {
        let now = now_secs();
        let r = self.get_at(appid, now);
        assert(read_at(r, self@, appid@, now));
        r
    }

    /// Records what the store said about `appid`, stamped `timestamp`,
    /// replacing any earlier entry for it.
    pub fn insert_at(&mut self, appid: String, is_free: bool, dlc_list: Vec<u32>, timestamp: u64)
        ensures
            final(self)@ == old(self)@.insert(appid@, (timestamp, is_free, dlc_list@)),
    {
        proof {
            use_type_invariant(&*self);
        }
        let ghost k = appid@;
        let ghost d = dlc_list@;
        let entry = SteamCacheEntry { timestamp, is_free, dlc_list };
        match self.position(appid.as_str()) {
            Some(i) => {
                let ghost es = self.entries@;
                proof {
                    lemma_entries_map_update(es, i as int, (appid, entry));
                }
                let mut entries: Vec<(String, SteamCacheEntry)> = Vec::new();
                std::mem::swap(&mut entries, &mut self.entries);
                entries.set(i, (appid, entry));
                assert(entries@ =~= es.update(i as int, (appid, entry)));
                self.entries = entries;
            },
            None => {
                let ghost es = self.entries@;
                let mut entries: Vec<(String, SteamCacheEntry)> = Vec::new();
                std::mem::swap(&mut entries, &mut self.entries);
                entries.push((appid, entry));
                assert(entries@.drop_last() =~= es);
                assert(keys_unique(entries@)) by {
                    assert forall|a: int, b: int| 0 <= a < b < entries@.len() implies #[trigger] entries@[a].0@
                        != #[trigger] entries@[b].0@ by {
                        if b < es.len() {
                            assert(entries@[a] == es[a] && entries@[b] == es[b]);
                        } else {
                            assert(entries@[a] == es[a]);
                        }
                    }
                }
                self.entries = entries;
            },
        }
    }

    /// Records what the store said about `appid`, stamped with the time now
    /// (by the machine's clock), replacing any earlier entry for it.
    pub fn insert(&mut self, appid: String, is_free: bool, dlc_list: Vec<u32>)
        ensures
            final(self)@ == old(self)@.insert(
                appid@,
                (final(self)@[appid@].0, is_free, dlc_list@),
            ),
    {
        self.insert_at(appid, is_free, dlc_list, now_secs());
    }
}

/// Reading an app back after writing it gives what was written while the
/// entry is valid, and nothing once it has expired.
pub proof fn lemma_read_after_write(
    c: Map<Seq<char>, (u64, bool, Seq<u32>)>,
    appid: Seq<char>,
    is_free: bool,
    dlcs: Seq<u32>,
    timestamp: u64,
    now: u64,
)
    ensures
        is_fresh(timestamp, now) ==> lookup(c.insert(appid, (timestamp, is_free, dlcs)), appid, now)
            == Some((timestamp, is_free, dlcs)),
        !is_fresh(timestamp, now) ==> lookup(
            c.insert(appid, (timestamp, is_free, dlcs)),
            appid,
            now,
        ) is None,
{
}

/// Writing one app does not change what a lookup of another app gives.
pub proof fn lemma_write_keeps_others(
    c: Map<Seq<char>, (u64, bool, Seq<u32>)>,
    appid: Seq<char>,
    other: Seq<char>,
    e: (u64, bool, Seq<u32>),
    now: u64,
)
    requires
        other != appid,
    ensures
        lookup(c.insert(appid, e), other, now) == lookup(c, other, now),
{
}

/// An entry is valid from the moment it is written until the time to live
/// has passed, and not after.
pub proof fn lemma_freshness_window(timestamp: u64, now: u64)
    ensures
        now <= timestamp ==> is_fresh(timestamp, now),
        now >= timestamp ==> (is_fresh(timestamp, now) <==> now - timestamp < CACHE_TTL_SECS),
{
}

} // verus!
