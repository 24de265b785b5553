//! Per-peer route history: which route and transport last worked for a peer,
//! and how many direct attempts failed recently. Entries expire after a TTL,
//! and the history keeps at most `PEER_ROUTE_HISTORY_MAX_ENTRIES` of them.
use crate::crypto::{hex_lower, hex_prefix, sha256, sha256_digest};
use crate::assoc::{
    keys_of, lemma_map_of_at, lemma_map_of_index, lemma_map_of_len, lemma_map_of_push,
    lemma_map_of_remove, lemma_map_of_update, map_of,
};
use crate::text::{trim, trim_string};
use vstd::prelude::*;

verus! {

/// How long a history entry, and a remembered direct failure, stays valid.
pub const PEER_ROUTE_HISTORY_TTL_MS: u64 = 1800000;

pub const PEER_ROUTE_HISTORY_MAX_ENTRIES: usize = 128;

pub const PEER_ROUTE_HISTORY_MAX_FAILURES: u8 = 3;

/// What is remembered of one peer.
#[derive(Clone, Copy, Debug, PartialEq, Eq, Structural)]
pub struct PeerRouteRecord {
    pub route: i32,
    pub transport: i32,
    pub direct_failures: u8,
    pub direct_failure_ms: u64,
    pub updated_ms: u64,
}

pub open spec fn empty_record() -> PeerRouteRecord {
    PeerRouteRecord {
        route: 0,
        transport: 0,
        direct_failures: 0,
        direct_failure_ms: 0,
        updated_ms: 0,
    }
}

impl Default for PeerRouteRecord {
    fn default() -> (r: Self)
        ensures
            r == empty_record(),
    {
        PeerRouteRecord {
            route: 0,
            transport: 0,
            direct_failures: 0,
            direct_failure_ms: 0,
            updated_ms: 0,
        }
    }
}

// ------------------------------------------------------------ key order

/// The order of `String` keys: lexicographic by character, which for UTF-8
/// is the byte order that `String` compares by.
pub open spec fn key_less(a: Seq<char>, b: Seq<char>) -> bool
    decreases a.len(),
{
    if a.len() == 0 {
        b.len() > 0
    } else if b.len() == 0 {
        false
    } else if a[0] != b[0] {
        (a[0] as int) < (b[0] as int)
    } else {
        key_less(a.drop_first(), b.drop_first())
    }
}

pub proof fn lemma_key_less_irreflexive(a: Seq<char>)
    ensures
        !key_less(a, a),
    decreases a.len(),
{
    if a.len() > 0 {
        lemma_key_less_irreflexive(a.drop_first());
    }
}

pub proof fn lemma_key_less_transitive(a: Seq<char>, b: Seq<char>, c: Seq<char>)
    requires
        key_less(a, b),
        key_less(b, c),
    ensures
        key_less(a, c),
    decreases a.len(),
{
    if a.len() > 0 && b.len() > 0 && c.len() > 0 && a[0] == b[0] && b[0] == c[0] {
        lemma_key_less_transitive(a.drop_first(), b.drop_first(), c.drop_first());
    }
}

pub proof fn lemma_key_less_total(a: Seq<char>, b: Seq<char>)
    requires
        a != b,
    ensures
        key_less(a, b) || key_less(b, a),
    decreases a.len(),
{
    if a.len() == 0 && b.len() == 0 {
        assert(a =~= b);
    } else if a.len() > 0 && b.len() > 0 && a[0] == b[0] {
        if a.drop_first() =~= b.drop_first() {
            assert(a =~= seq![a[0]] + a.drop_first());
            assert(b =~= seq![b[0]] + b.drop_first());
        } else {
            lemma_key_less_total(a.drop_first(), b.drop_first());
        }
    } else if a.len() > 0 && b.len() > 0 {
        assert((a[0] as int) != (b[0] as int));
    }
}

/// Entry `(k1, r1)` was updated before `(k2, r2)`; equal times go by key.
pub open spec fn older(k1: Seq<char>, r1: PeerRouteRecord, k2: Seq<char>, r2: PeerRouteRecord) -> bool {
    r1.updated_ms < r2.updated_ms || (r1.updated_ms == r2.updated_ms && key_less(k1, k2))
}

/// Whether `a` comes before `b` as `String`s do.
pub fn key_less_exec(a: &String, b: &String) -> (r: bool)
    ensures
        r == key_less(a@, b@),
{
    let sa = a.as_str();
    let sb = b.as_str();
    let na = sa.unicode_len();
    let nb = sb.unicode_len();
    let mut i: usize = 0;
    assert(a@.skip(0) =~= a@);
    assert(b@.skip(0) =~= b@);
    while i < na && i < nb
        invariant
            na == a@.len(),
            nb == b@.len(),
            sa@ == a@,
            sb@ == b@,
            i <= na,
            i <= nb,
            key_less(a@, b@) == key_less(a@.skip(i as int), b@.skip(i as int)),
        decreases na - i,
    {
        let ca = sa.get_char(i);
        let cb = sb.get_char(i);
        if ca != cb {
            return (ca as u32) < (cb as u32);
        }
        assert(a@.skip(i as int).drop_first() =~= a@.skip(i + 1));
        assert(b@.skip(i as int).drop_first() =~= b@.skip(i + 1));
        i = i + 1;
    }
    i == na && i < nb
}


// ------------------------------------------------------------ the history

/// One history entry with its key as a sequence.
pub type KeyedRecord = (Seq<char>, PeerRouteRecord);

pub open spec fn pairs_of(v: Seq<(String, PeerRouteRecord)>) -> Seq<KeyedRecord> {
    v.map_values(|e: (String, PeerRouteRecord)| (e.0@, e.1))
}

/// Replaces the record under `key`, or appends one.
fn upsert(v: &mut Vec<(String, PeerRouteRecord)>, key: String, record: PeerRouteRecord)
    requires
        keys_of(pairs_of(old(v)@)).no_duplicates(),
    ensures
        keys_of(pairs_of(final(v)@)).no_duplicates(),
        map_of(pairs_of(final(v)@)) == map_of(pairs_of(old(v)@)).insert(key@, record),
{
    let ghost old_p = pairs_of(v@);
    let ghost k = key@;
    match find_key(v, key.as_str()) {
        Some(i) => {
            v.set(i, (key, record));
            proof {
                lemma_map_of_update(old_p, i as int, record);
                assert(pairs_of(v@) =~= old_p.update(i as int, (old_p[i as int].0, record)));
            }
        },
        None => {
            v.push((key, record));
            proof {
                lemma_map_of_push(old_p, k, record);
                assert(pairs_of(v@) =~= old_p.push((k, record)));
            }
        },
    }
}

/// Index of the entry under `key`.
fn find_key(v: &Vec<(String, PeerRouteRecord)>, key: &str) -> (r: Option<usize>)
    ensures
        match r {
            Some(i) => i < v@.len() && pairs_of(v@)[i as int].0 == key@,
            None => !keys_of(pairs_of(v@)).contains(key@),
        },
{
    let mut i: usize = 0;
    while i < v.len()
        invariant
            i <= v@.len(),
            forall|j: int| 0 <= j < i ==> pairs_of(v@)[j].0 != key@,
        decreases v@.len() - i,
    {
        if crate::connect::str_equal(v[i].0.as_str(), key) {
            return Some(i);
        }
        i = i + 1;
    }
    proof {
        if keys_of(pairs_of(v@)).contains(key@) {
            let j = choose|j: int| 0 <= j < keys_of(pairs_of(v@)).len() && keys_of(pairs_of(v@))[j] == key@;
            assert(pairs_of(v@)[j].0 == key@);
        }
    }
    None
}


/// Removes entry `i`, returning its record.
fn remove_at(v: &mut Vec<(String, PeerRouteRecord)>, i: usize) -> (rec: PeerRouteRecord)
    requires
        keys_of(pairs_of(old(v)@)).no_duplicates(),
        i < old(v)@.len(),
    ensures
        keys_of(pairs_of(final(v)@)).no_duplicates(),
        final(v)@.len() == old(v)@.len() - 1,
        rec == pairs_of(old(v)@)[i as int].1,
        map_of(pairs_of(final(v)@)) == map_of(pairs_of(old(v)@)).remove(
            pairs_of(old(v)@)[i as int].0,
        ),
{
    let ghost old_p = pairs_of(v@);
    let (_, rec) = v.remove(i);
    proof {
        lemma_map_of_remove(old_p, i as int);
        assert(pairs_of(v@) =~= old_p.remove(i as int));
    }
    rec
}

/// The route history, keyed by the hashed peer id. The entries are kept in a
/// vector with distinct keys: vstd states `BTreeMap::insert` and `get` only
/// for key types whose ordering it specifies (`obeys_cmp`), and `String` is
/// not one of them, so a `String`-keyed map would give nothing to prove from.
pub struct RouteHistory {
    entries: Vec<(String, PeerRouteRecord)>,
}

impl RouteHistory {
    closed spec fn pairs(&self) -> Seq<KeyedRecord> {
        pairs_of(self.entries@)
    }

    #[verifier::type_invariant]
    closed spec fn keys_distinct(&self) -> bool {
        keys_of(self.pairs()).no_duplicates()
    }
}

impl View for RouteHistory {
    type V = Map<Seq<char>, PeerRouteRecord>;

    closed spec fn view(&self) -> Map<Seq<char>, PeerRouteRecord> {
        map_of(self.pairs())
    }
}

impl RouteHistory {
    pub fn new() -> (r: RouteHistory)
        ensures
            r@ == Map::<Seq<char>, PeerRouteRecord>::empty(),
    {
        let r = RouteHistory { entries: Vec::new() };
        assert(r@ =~= Map::<Seq<char>, PeerRouteRecord>::empty());
        r
    }

    pub fn len(&self) -> (r: usize)
        ensures
            self@.dom().finite(),
            r == self@.len(),
    {
        proof {
            use_type_invariant(self);
            lemma_map_of_len(self.pairs());
        }
        self.entries.len()
    }

    pub fn contains_key(&self, key: &str) -> (r: bool)
        ensures
            r == self@.contains_key(key@),
    {
        let r = find_key(&self.entries, key);
        proof {
            if let Some(i) = r {
                assert(keys_of(self.pairs())[i as int] == key@);
            }
        }
        r.is_some()
    }

    pub fn get(&self, key: &str) -> (r: Option<&PeerRouteRecord>)
        ensures
            match r {
                Some(x) => self@.contains_key(key@) && *x == self@[key@],
                None => !self@.contains_key(key@),
            },
    {
        proof {
            use_type_invariant(self);
        }
        match find_key(&self.entries, key) {
            Some(i) => {
                proof {
                    lemma_map_of_at(self.pairs(), i as int);
                }
                Some(&self.entries[i].1)
            },
            None => None,
        }
    }

    /// Every entry, keyed by its string, in storage order.
    pub fn entries(&self) -> (r: Vec<(String, PeerRouteRecord)>)
        ensures
            keys_of(pairs_of(r@)).no_duplicates(),
            map_of(pairs_of(r@)) == self@,
    {
        proof {
            use_type_invariant(self);
        }
        let mut r: Vec<(String, PeerRouteRecord)> = Vec::new();
        let mut i: usize = 0;
        while i < self.entries.len()
            invariant
                i <= self.entries@.len(),
                pairs_of(r@) == pairs_of(self.entries@).subrange(0, i as int),
            decreases self.entries@.len() - i,
        {
            let key = self.entries[i].0.clone();
            assert(key@ == self.entries@[i as int].0@);
            let ghost before = pairs_of(r@);
            r.push((key, self.entries[i].1));
            assert(pairs_of(r@) =~= before.push((self.entries@[i as int].0@, self.entries@[i as int].1)));
            assert(pairs_of(r@) =~= pairs_of(self.entries@).subrange(0, i + 1));
            i = i + 1;
        }
        assert(pairs_of(r@) =~= pairs_of(self.entries@));
        r
    }

    pub fn insert(&mut self, key: String, record: PeerRouteRecord)
        ensures
            final(self)@ == old(self)@.insert(key@, record),
    {
        proof {
            use_type_invariant(&*self);
        }
        let mut v: Vec<(String, PeerRouteRecord)> = Vec::new();
        std::mem::swap(&mut v, &mut self.entries);
        upsert(&mut v, key, record);
        self.entries = v;
    }

    pub fn remove(&mut self, key: &str) -> (r: Option<PeerRouteRecord>)
        ensures
            final(self)@ == old(self)@.remove(key@),
            r == (if old(self)@.contains_key(key@) {
                Some(old(self)@[key@])
            } else {
                None
            }),
    {
        proof {
            use_type_invariant(&*self);
        }
        let mut v: Vec<(String, PeerRouteRecord)> = Vec::new();
        std::mem::swap(&mut v, &mut self.entries);
        let ghost old_p = pairs_of(v@);
        let r = match find_key(&v, key) {
            Some(i) => {
                proof {
                    lemma_map_of_at(old_p, i as int);
                }
                Some(remove_at(&mut v, i))
            },
            None => {
                assert(map_of(old_p) =~= map_of(old_p).remove(key@));
                None
            },
        };
        self.entries = v;
        r
    }
}


// ------------------------------------------------------------ record updates

pub open spec fn saturating_sub(a: u64, b: u64) -> u64 {
    if a >= b {
        (a - b) as u64
    } else {
        0
    }
}

/// The record under `key`, or an empty one.
pub open spec fn record_or_empty(m: Map<Seq<char>, PeerRouteRecord>, key: Seq<char>) -> PeerRouteRecord {
    if m.contains_key(key) {
        m[key]
    } else {
        empty_record()
    }
}

/// One more failed direct attempt, counted up to the cap.
pub open spec fn after_direct_failure(r: PeerRouteRecord, now: u64) -> PeerRouteRecord {
    PeerRouteRecord {
        route: r.route,
        transport: r.transport,
        direct_failures: if r.direct_failures >= PEER_ROUTE_HISTORY_MAX_FAILURES {
            PEER_ROUTE_HISTORY_MAX_FAILURES
        } else {
            (r.direct_failures + 1) as u8
        },
        direct_failure_ms: now,
        updated_ms: now,
    }
}

/// A connection over `route`; a direct route (1) clears the failures.
pub open spec fn after_route_success(r: PeerRouteRecord, route: i32, transport: i32, now: u64) -> PeerRouteRecord {
    PeerRouteRecord {
        route,
        transport,
        direct_failures: if route == 1 {
            0
        } else {
            r.direct_failures
        },
        direct_failure_ms: if route == 1 {
            0
        } else {
            r.direct_failure_ms
        },
        updated_ms: now,
    }
}

/// The failures of a record that still count at `now`.
pub open spec fn spec_recent_failures(record: Option<PeerRouteRecord>, now: u64) -> u8 {
    match record {
        Some(r) => if r.direct_failure_ms > 0 && saturating_sub(now, r.direct_failure_ms)
            <= PEER_ROUTE_HISTORY_TTL_MS {
            r.direct_failures
        } else {
            0
        },
        None => 0,
    }
}

/// Records a failed direct attempt for `peer_key` and returns the new count.
pub fn apply_peer_direct_failure(history: &mut RouteHistory, peer_key: String, now: u64) -> (r: u8)
    ensures
        final(history)@ == old(history)@.insert(
            peer_key@,
            after_direct_failure(record_or_empty(old(history)@, peer_key@), now),
        ),
        r == after_direct_failure(record_or_empty(old(history)@, peer_key@), now).direct_failures,
{
    let current = match history.get(peer_key.as_str()) {
        Some(x) => *x,
        None => PeerRouteRecord::default(),
    };
    let failures = if current.direct_failures >= PEER_ROUTE_HISTORY_MAX_FAILURES {
        PEER_ROUTE_HISTORY_MAX_FAILURES
    } else {
        current.direct_failures + 1
    };
    let record = PeerRouteRecord {
        route: current.route,
        transport: current.transport,
        direct_failures: failures,
        direct_failure_ms: now,
        updated_ms: now,
    };
    history.insert(peer_key, record);
    failures
}

/// Records a connection over `route` and `transport` and returns the record.
pub fn apply_peer_route_success(
    history: &mut RouteHistory,
    peer_key: String,
    route: i32,
    transport: i32,
    now: u64,
) -> (r: PeerRouteRecord)
    ensures
        r == after_route_success(record_or_empty(old(history)@, peer_key@), route, transport, now),
        final(history)@ == old(history)@.insert(peer_key@, r),
{
    let current = match history.get(peer_key.as_str()) {
        Some(x) => *x,
        None => PeerRouteRecord::default(),
    };
    let record = PeerRouteRecord {
        route,
        transport,
        direct_failures: if route == 1 {
            0
        } else {
            current.direct_failures
        },
        direct_failure_ms: if route == 1 {
            0
        } else {
            current.direct_failure_ms
        },
        updated_ms: now,
    };
    history.insert(peer_key, record);
    record
}

/// The failures recorded for a peer that still count at `now`: none once
/// the last failure is older than the TTL.
pub fn recent_direct_failures(record: Option<&PeerRouteRecord>, now: u64) -> (r: u8)
    ensures
        r == spec_recent_failures(
            match record {
                Some(x) => Some(*x),
                None => None,
            },
            now,
        ),
{
    match record {
        Some(x) => {
            let age = if now >= x.direct_failure_ms {
                now - x.direct_failure_ms
            } else {
                0
            };
            if x.direct_failure_ms > 0 && age <= PEER_ROUTE_HISTORY_TTL_MS {
                x.direct_failures
            } else {
                0
            }
        },
        None => 0,
    }
}

/// The failure count stored for a peer never exceeds the cap.
pub proof fn direct_failures_stay_capped(r: PeerRouteRecord, now: u64)
    requires
        r.direct_failures <= PEER_ROUTE_HISTORY_MAX_FAILURES,
    ensures
        after_direct_failure(r, now).direct_failures <= PEER_ROUTE_HISTORY_MAX_FAILURES,
        after_direct_failure(r, now).direct_failures >= 1,
        forall|route: i32, transport: i32, t: u64|
            after_route_success(r, route, transport, t).direct_failures
                <= PEER_ROUTE_HISTORY_MAX_FAILURES,
{
}


// ------------------------------------------------------------ pruning

/// An entry is kept while it was updated within the TTL.
pub open spec fn is_fresh(r: PeerRouteRecord, now: u64) -> bool {
    r.updated_ms > 0 && saturating_sub(now, r.updated_ms) <= PEER_ROUTE_HISTORY_TTL_MS
}

/// The entries of `m` that are fresh at `now`.
pub open spec fn fresh_part(m: Map<Seq<char>, PeerRouteRecord>, now: u64) -> Map<
    Seq<char>,
    PeerRouteRecord,
> {
    Map::new(|k: Seq<char>| m.contains_key(k) && is_fresh(m[k], now), |k: Seq<char>| m[k])
}

proof fn lemma_older_transitive(
    k1: Seq<char>,
    r1: PeerRouteRecord,
    k2: Seq<char>,
    r2: PeerRouteRecord,
    k3: Seq<char>,
    r3: PeerRouteRecord,
)
    requires
        older(k1, r1, k2, r2),
        older(k2, r2, k3, r3),
    ensures
        older(k1, r1, k3, r3),
{
    if r1.updated_ms == r2.updated_ms && r2.updated_ms == r3.updated_ms {
        lemma_key_less_transitive(k1, k2, k3);
    }
}

proof fn lemma_older_total(k1: Seq<char>, r1: PeerRouteRecord, k2: Seq<char>, r2: PeerRouteRecord)
    requires
        k1 != k2,
    ensures
        older(k1, r1, k2, r2) || older(k2, r2, k1, r1),
{
    lemma_key_less_total(k1, k2);
}

fn older_exec(k1: &String, r1: &PeerRouteRecord, k2: &String, r2: &PeerRouteRecord) -> (r: bool)
    ensures
        r == older(k1@, *r1, k2@, *r2),
{
    r1.updated_ms < r2.updated_ms || (r1.updated_ms == r2.updated_ms && key_less_exec(k1, k2))
}

/// The entries of `v` that are fresh at `now`, in order.
fn fresh_entries(v: &Vec<(String, PeerRouteRecord)>, now: u64) -> (kept: Vec<
    (String, PeerRouteRecord),
>)
    requires
        keys_of(pairs_of(v@)).no_duplicates(),
    ensures
        keys_of(pairs_of(kept@)).no_duplicates(),
        map_of(pairs_of(kept@)) == fresh_part(map_of(pairs_of(v@)), now),
{
    let ghost old_p = pairs_of(v@);
    let mut kept: Vec<(String, PeerRouteRecord)> = Vec::new();
    let ghost mut idx: Seq<int> = Seq::empty();
    let mut i: usize = 0;
    while i < v.len()
        invariant
            i <= v@.len(),
            old_p == pairs_of(v@),
            keys_of(old_p).no_duplicates(),
            kept@.len() == idx.len(),
            forall|a: int|
                0 <= a < idx.len() ==> 0 <= #[trigger] idx[a] < i && pairs_of(kept@)[a]
                    == old_p[idx[a]] && is_fresh(old_p[idx[a]].1, now),
            forall|a: int, b: int| 0 <= a < b < idx.len() ==> idx[a] < idx[b],
            forall|m: int|
                0 <= m < i && is_fresh(#[trigger] old_p[m].1, now) ==> exists|a: int|
                    0 <= a < idx.len() && idx[a] == m,
        decreases v@.len() - i,
    {
        let r = v[i].1;
        let ghost idx0 = idx;
        assert(old_p[i as int].1 == r);
        if r.updated_ms > 0 && (if now >= r.updated_ms {
            now - r.updated_ms
        } else {
            0
        }) <= PEER_ROUTE_HISTORY_TTL_MS {
            let key = v[i].0.clone();
            kept.push((key, r));
            proof {
                let ghost a_new = idx.len() as int;
                idx = idx.push(i as int);
                assert(pairs_of(kept@)[a_new] == old_p[i as int]);
                assert(idx[a_new] == i);
            }
        }
        proof {
            assert forall|m: int|
                0 <= m < i + 1 && is_fresh(#[trigger] old_p[m].1, now) implies exists|a: int|
                0 <= a < idx.len() && idx[a] == m by {
                if m == i {
                    assert(idx[idx.len() - 1] == m);
                } else {
                    let a = choose|a: int| 0 <= a < idx0.len() && idx0[a] == m;
                    assert(idx[a] == m);
                }
            }
        }
        i = i + 1;
    }
    let ghost p = pairs_of(kept@);
    assert(keys_of(p).no_duplicates()) by {
        assert forall|a: int, b: int|
            0 <= a < keys_of(p).len() && 0 <= b < keys_of(p).len() && a != b implies keys_of(p)[a]
            != keys_of(p)[b] by {
            assert(keys_of(old_p)[idx[a]] == keys_of(p)[a]);
            assert(keys_of(old_p)[idx[b]] == keys_of(p)[b]);
            if a < b {
                assert(idx[a] < idx[b]);
            } else {
                assert(idx[b] < idx[a]);
            }
        }
    }
    assert(map_of(p) =~= fresh_part(map_of(old_p), now)) by {
        assert forall|k: Seq<char>| #[trigger] map_of(p).dom().contains(k) implies fresh_part(
            map_of(old_p),
            now,
        ).dom().contains(k) && map_of(p)[k] == map_of(old_p)[k] by {
            let a = lemma_map_of_index(p, k);
            lemma_map_of_at(p, a);
            lemma_map_of_at(old_p, idx[a]);
        }
        assert forall|k: Seq<char>| #[trigger]
            fresh_part(map_of(old_p), now).dom().contains(k) implies map_of(p).dom().contains(
            k,
        ) by {
            let m = lemma_map_of_index(old_p, k);
            lemma_map_of_at(old_p, m);
            assert(is_fresh(old_p[m].1, now));
            let a = choose|a: int| 0 <= a < idx.len() && idx[a] == m;
            assert(keys_of(p)[a] == k);
        }
    }
    kept
}


/// Index of the oldest entry.
fn oldest_index(v: &Vec<(String, PeerRouteRecord)>) -> (b: usize)
    requires
        v@.len() > 0,
        keys_of(pairs_of(v@)).no_duplicates(),
    ensures
        b < v@.len(),
        forall|c: int|
            0 <= c < v@.len() && c != b ==> older(
                pairs_of(v@)[b as int].0,
                pairs_of(v@)[b as int].1,
                #[trigger] pairs_of(v@)[c].0,
                pairs_of(v@)[c].1,
            ),
{
    let ghost p = pairs_of(v@);
    let mut b: usize = 0;
    let mut j: usize = 1;
    while j < v.len()
        invariant
            p == pairs_of(v@),
            keys_of(p).no_duplicates(),
            b < j <= v@.len(),
            forall|c: int|
                0 <= c < j && c != b ==> older(
                    p[b as int].0,
                    p[b as int].1,
                    #[trigger] p[c].0,
                    p[c].1,
                ),
        decreases v@.len() - j,
    {
        if older_exec(&v[j].0, &v[j].1, &v[b].0, &v[b].1) {
            proof {
                assert forall|c: int| 0 <= c < j + 1 && c != j implies older(
                    p[j as int].0,
                    p[j as int].1,
                    #[trigger] p[c].0,
                    p[c].1,
                ) by {
                    if c != b {
                        lemma_older_transitive(
                            p[j as int].0,
                            p[j as int].1,
                            p[b as int].0,
                            p[b as int].1,
                            p[c].0,
                            p[c].1,
                        );
                    }
                }
            }
            b = j;
        } else {
            proof {
                assert(keys_of(p)[j as int] != keys_of(p)[b as int]);
                lemma_older_total(p[j as int].0, p[j as int].1, p[b as int].0, p[b as int].1);
            }
        }
        j = j + 1;
    }
    b
}

/// `after` is what pruning `before` at `now` leaves: only fresh entries,
/// unchanged, at most `PEER_ROUTE_HISTORY_MAX_ENTRIES` of them and no fewer
/// than that bound allows, and every fresh entry that was dropped is older
/// than every entry that was kept.
pub open spec fn is_pruning(
    before: Map<Seq<char>, PeerRouteRecord>,
    now: u64,
    after: Map<Seq<char>, PeerRouteRecord>,
) -> bool {
    let fresh = fresh_part(before, now);
    &&& after.dom().finite()
    &&& after.len() <= PEER_ROUTE_HISTORY_MAX_ENTRIES
    &&& after.submap_of(fresh)
    &&& after.len() == (if fresh.len() <= PEER_ROUTE_HISTORY_MAX_ENTRIES {
        fresh.len()
    } else {
        PEER_ROUTE_HISTORY_MAX_ENTRIES as nat
    })
    &&& forall|k1: Seq<char>, k2: Seq<char>|
        #[trigger] fresh.contains_key(k1) && !after.contains_key(k1) && #[trigger] after.contains_key(
            k2,
        ) ==> older(k1, before[k1], k2, before[k2])
}

/// Drops the entries that are no longer fresh at `now`; then, while more
/// than `PEER_ROUTE_HISTORY_MAX_ENTRIES` remain, drops the least recently
/// updated ones (equal times by key order).
pub fn prune_peer_route_history(history: &mut RouteHistory, now: u64)
    ensures
        is_pruning(old(history)@, now, final(history)@),
{
    proof {
        use_type_invariant(&*history);
    }
    let mut v: Vec<(String, PeerRouteRecord)> = Vec::new();
    std::mem::swap(&mut v, &mut history.entries);
    let ghost old_m = map_of(pairs_of(v@));
    let ghost f = fresh_part(old_m, now);
    proof {
        lemma_map_of_len(pairs_of(v@));
        vstd::set_lib::lemma_len_subset(f.dom(), old_m.dom());
    }
    let mut kept = fresh_entries(&v, now);
    while kept.len() > PEER_ROUTE_HISTORY_MAX_ENTRIES
        invariant
            keys_of(pairs_of(kept@)).no_duplicates(),
            f == fresh_part(old_m, now),
            f.dom().finite(),
            map_of(pairs_of(kept@)).submap_of(f),
            map_of(pairs_of(kept@)) == f || kept@.len() >= PEER_ROUTE_HISTORY_MAX_ENTRIES,
            forall|k1: Seq<char>, k2: Seq<char>|
                #[trigger] f.contains_key(k1) && !map_of(pairs_of(kept@)).contains_key(k1)
                    && #[trigger] map_of(pairs_of(kept@)).contains_key(k2) ==> older(
                    k1,
                    f[k1],
                    k2,
                    f[k2],
                ),
        decreases kept@.len(),
    {
        let b = oldest_index(&kept);
        let ghost p = pairs_of(kept@);
        let ghost before = map_of(p);
        let ghost kb = p[b as int].0;
        proof {
            lemma_map_of_at(p, b as int);
        }
        remove_at(&mut kept, b);
        proof {
            let after = map_of(pairs_of(kept@));
            assert forall|k1: Seq<char>, k2: Seq<char>|
                #[trigger] f.contains_key(k1) && !after.contains_key(k1) && #[trigger] after.contains_key(
                    k2,
                ) implies older(k1, f[k1], k2, f[k2]) by {
                if k1 == kb {
                    let c = lemma_map_of_index(p, k2);
                    lemma_map_of_at(p, c);
                    assert(c != b);
                    assert(before.contains_key(kb) && before.contains_key(k2));
                    assert(f.contains_key(kb) && f.contains_key(k2));
                    assert(f[kb] == before[kb] && f[k2] == before[k2]);
                    assert(older(p[b as int].0, p[b as int].1, p[c].0, p[c].1));
                } else {
                    assert(!before.contains_key(k1));
                    assert(before.contains_key(k2));
                }
            }
        }
    }
    proof {
        let m = map_of(pairs_of(kept@));
        lemma_map_of_len(pairs_of(kept@));
        vstd::set_lib::lemma_len_subset(m.dom(), f.dom());
    }
    history.entries = kept;
}


// ------------------------------------------------------------ per peer

/// The history key of a peer: the first twelve bytes of the SHA-256 digest
/// of its trimmed id, in hex. The id itself is never stored.
pub open spec fn spec_history_key(peer: Seq<char>) -> Seq<char> {
    hex_lower(sha256(vstd::utf8::encode_utf8(trim(peer))).subrange(0, 12))
}

pub fn peer_route_history_key(peer: &str) -> (r: String)
    ensures
        r@ == spec_history_key(peer@),
        r@.len() == 24,
{
    let t = trim_string(peer);
    let digest = sha256_digest(t.as_str().as_bytes());
    hex_prefix(&digest, 12)
}

/// The failures of `peer` that still count at `now`.
pub fn recent_peer_direct_failures(history: &RouteHistory, peer: &str, now: u64) -> (r: u8)
    ensures
        r == spec_recent_failures(
            if history@.contains_key(spec_history_key(peer@)) {
                Some(history@[spec_history_key(peer@)])
            } else {
                None
            },
            now,
        ),
{
    let key = peer_route_history_key(peer);
    recent_direct_failures(history.get(key.as_str()), now)
}

/// Records a failed direct attempt to `peer`, prunes the history and returns
/// the new failure count.
pub fn record_peer_direct_failure(history: &mut RouteHistory, peer: &str, now: u64) -> (r: u8)
    ensures
        r == after_direct_failure(record_or_empty(old(history)@, spec_history_key(peer@)), now).direct_failures,
        is_pruning(
            old(history)@.insert(
                spec_history_key(peer@),
                after_direct_failure(record_or_empty(old(history)@, spec_history_key(peer@)), now),
            ),
            now,
            final(history)@,
        ),
{
    let key = peer_route_history_key(peer);
    let failures = apply_peer_direct_failure(history, key, now);
    prune_peer_route_history(history, now);
    failures
}

/// Records a connection to `peer` over `route` and `transport`, prunes the
/// history and returns the record as it was stored.
pub fn record_peer_route_success(
    history: &mut RouteHistory,
    peer: &str,
    route: i32,
    transport: i32,
    now: u64,
) -> (r: PeerRouteRecord)
    ensures
        r == after_route_success(
            record_or_empty(old(history)@, spec_history_key(peer@)),
            route,
            transport,
            now,
        ),
        is_pruning(old(history)@.insert(spec_history_key(peer@), r), now, final(history)@),
{
    let key = peer_route_history_key(peer);
    let record = apply_peer_route_success(history, key, route, transport, now);
    prune_peer_route_history(history, now);
    record
}


/// A failure recorded at `now` counts until the TTL has passed and not after;
/// a success over the direct route forgets every failure; a relayed success
/// keeps what was counted.
pub proof fn failures_expire_and_direct_success_clears(
    r: PeerRouteRecord,
    now: u64,
    later: u64,
    transport: i32,
    route: i32,
)
    requires
        now > 0,
        now <= later,
    ensures
        later - now <= PEER_ROUTE_HISTORY_TTL_MS ==> spec_recent_failures(
            Some(after_direct_failure(r, now)),
            later,
        ) == after_direct_failure(r, now).direct_failures,
        later - now > PEER_ROUTE_HISTORY_TTL_MS ==> spec_recent_failures(
            Some(after_direct_failure(r, now)),
            later,
        ) == 0,
        spec_recent_failures(Some(after_route_success(r, 1, transport, now)), later) == 0,
        route != 1 ==> spec_recent_failures(Some(after_route_success(r, route, transport, now)), later)
            == spec_recent_failures(Some(r), later),
{
}

} // verus!
