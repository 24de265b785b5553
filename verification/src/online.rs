//! Online-state queries for a list of peers, and the device id shown to the
//! user.
use crate::endpoint::{classify_direct_peer, spec_classify_direct_peer, views, ParsedHost, PeerAddress};
use crate::number::{decimal, decimal_chars};
use crate::route::{key_less, key_less_exec, lemma_key_less_total, lemma_key_less_transitive, lemma_key_less_irreflexive};
use crate::text::{push_char, push_chars, trim, trim_string, trimmed_chars};
use vstd::prelude::*;

verus! {

/// At most this many peers are asked about at once.
pub const MAX_ONLINE_QUERY_PEERS: usize = 512;

/// Strictly increasing in `String` order: sorted, without duplicates.
pub open spec fn strictly_sorted(s: Seq<Seq<char>>) -> bool {
    forall|a: int, b: int| 0 <= a < b < s.len() ==> key_less(#[trigger] s[a], #[trigger] s[b])
}

/// The non-blank ids among `peers`.
pub open spec fn nonblank_ids(peers: Seq<Seq<char>>) -> Set<Seq<char>> {
    Set::new(|p: Seq<char>| peers.contains(p) && trim(p).len() > 0)
}

proof fn lemma_sorted_no_duplicates(s: Seq<Seq<char>>)
    requires
        strictly_sorted(s),
    ensures
        s.no_duplicates(),
{
    assert forall|a: int, b: int| 0 <= a < s.len() && 0 <= b < s.len() && a != b implies s[a] != s[b] by {
        if a < b {
            assert(key_less(s[a], s[b]));
            if s[a] == s[b] {
                lemma_key_less_irreflexive(s[a]);
            }
        } else {
            assert(key_less(s[b], s[a]));
            if s[a] == s[b] {
                lemma_key_less_irreflexive(s[a]);
            }
        }
    }
}

/// Where `p` goes in the sorted list `v`: the first entry not before it.
fn insertion_point(v: &Vec<String>, p: &String) -> (j: usize)
    requires
        strictly_sorted(views(v@)),
    ensures
        j <= v@.len(),
        forall|k: int| 0 <= k < j ==> key_less(#[trigger] views(v@)[k], p@),
        j < v@.len() ==> !key_less(views(v@)[j as int], p@),
{
    let mut j: usize = 0;
    while j < v.len()
        invariant
            j <= v@.len(),
            forall|k: int| 0 <= k < j ==> key_less(#[trigger] views(v@)[k], p@),
        ensures
            j <= v@.len(),
            forall|k: int| 0 <= k < j ==> key_less(#[trigger] views(v@)[k], p@),
            j < v@.len() ==> !key_less(views(v@)[j as int], p@),
        decreases v@.len() - j,
    {
        if !key_less_exec(&v[j], p) {
            break;
        }
        j = j + 1;
    }
    j
}

/// What `serde_json` reads a text as when it asks for a list of strings:
/// the strings, or `None` where it reports an error.
pub uninterp spec fn json_string_list(text: Seq<char>) -> Option<Seq<Seq<char>>>;

/// `serde_json::from_str::<Vec<String>>`: the list of strings the JSON text
/// holds, or `None` where the crate reports an error. Which texts parse, and
/// to what, is left to the name `json_string_list`.
#[verifier::external_body]
fn json_string_array(text: &str) -> (r: Option<Vec<String>>)
    ensures
        match r {
            Some(v) => json_string_list(text@) == Some(views(v@)),
            None => json_string_list(text@) is None,
        },
{
    serde_json::from_str::<Vec<String>>(text).ok()
}

/// The ids of an online query from the JSON list the app passes: `Err(-1)`
/// for a blank text, `Err(-2)` when it is not a JSON list of strings, then
/// as `normalize_peer_list`.
pub fn peer_list_from_json(peers_json: &str) -> (r: Result<Vec<String>, i32>)
    ensures
        trim(peers_json@).len() == 0 ==> r == Err::<Vec<String>, i32>(-1i32),
        trim(peers_json@).len() > 0 && json_string_list(peers_json@) is None ==> r == Err::<
            Vec<String>,
            i32,
        >(-2i32),
        trim(peers_json@).len() > 0 ==> (json_string_list(peers_json@) matches Some(ps) ==> match r {
            Ok(v) => strictly_sorted(views(v@)) && views(v@).to_set() == nonblank_ids(ps) && 1
                <= v@.len() <= MAX_ONLINE_QUERY_PEERS,
            Err(c) => c == -3 && (nonblank_ids(ps).len() == 0 || nonblank_ids(ps).len()
                > MAX_ONLINE_QUERY_PEERS),
        }),
{
    let t = trimmed_chars(peers_json);
    if t.len() == 0 {
        return Err(-1);
    }
    match json_string_array(peers_json) {
        None => Err(-2),
        Some(peers) => normalize_peer_list(peers),
    }
}

/// The ids of an online query: blanks dropped, sorted, duplicates dropped.
/// `Err(-3)` when none is left or more than `MAX_ONLINE_QUERY_PEERS`.
pub fn normalize_peer_list(peers: Vec<String>) -> (r: Result<Vec<String>, i32>)
    ensures
        nonblank_ids(views(peers@)).finite(),
        match r {
            Ok(v) => strictly_sorted(views(v@)) && views(v@).to_set() == nonblank_ids(views(peers@))
                && 1 <= v@.len() <= MAX_ONLINE_QUERY_PEERS,
            Err(c) => c == -3 && (nonblank_ids(views(peers@)).len() == 0 || nonblank_ids(
                views(peers@),
            ).len() > MAX_ONLINE_QUERY_PEERS),
        },
{
    let ghost all = views(peers@);
    let mut v: Vec<String> = Vec::new();
    let mut i: usize = 0;
    while i < peers.len()
        invariant
            i <= peers@.len(),
            all == views(peers@),
            strictly_sorted(views(v@)),
            views(v@).to_set() == nonblank_ids(all.subrange(0, i as int)),
        decreases peers@.len() - i,
    {
        let p = &peers[i];
        let ghost pv = p@;
        let t = trimmed_chars(p.as_str());
        proof {
            assert(all.subrange(0, i + 1) =~= all.subrange(0, i as int).push(pv));
        }
        if t.len() > 0 {
            let j = insertion_point(&v, p);
            let present = j < v.len() && crate::connect::str_equal(v[j].as_str(), p.as_str());
            if !present {
                let ghost before = views(v@);
                v.insert(j, p.clone());
                proof {
                    let after = views(v@);
                    assert(after =~= before.insert(j as int, pv));
                    assert forall|a: int, b: int| 0 <= a < b < after.len() implies key_less(
                        #[trigger] after[a],
                        #[trigger] after[b],
                    ) by {
                        if b < j {
                            assert(key_less(before[a], before[b]));
                        } else if b == j {
                            assert(key_less(before[a], pv));
                        } else if a == j {
                            // pv comes before before[b - 1]
                            assert(before[j as int] != pv);
                            lemma_key_less_total(before[j as int], pv);
                            if b - 1 > j {
                                assert(key_less(before[j as int], before[b - 1]));
                                lemma_key_less_transitive(pv, before[j as int], before[b - 1]);
                            }
                        } else if a < j {
                            assert(key_less(before[a], before[b - 1]));
                        } else {
                            assert(key_less(before[a - 1], before[b - 1]));
                        }
                    }
                    assert(after.to_set() =~= before.to_set().insert(pv)) by {
                        assert forall|x: Seq<char>| after.to_set().contains(x) == before.to_set().insert(pv).contains(x) by {
                            if after.contains(x) {
                                let k = choose|k: int| 0 <= k < after.len() && after[k] == x;
                                if k < j {
                                    assert(before[k] == x);
                                } else if k > j {
                                    assert(before[k - 1] == x);
                                }
                            }
                            if before.contains(x) {
                                let k = choose|k: int| 0 <= k < before.len() && before[k] == x;
                                if k < j {
                                    assert(after[k] == x);
                                } else {
                                    assert(after[k + 1] == x);
                                }
                            }
                            if x == pv {
                                assert(after[j as int] == x);
                            }
                        }
                    }
                }
            } else {
                proof {
                    assert(views(v@)[j as int] == pv);
                    assert(views(v@).to_set().contains(pv));
                }
            }
        }
        proof {
            let prev = all.subrange(0, i as int);
            let next = all.subrange(0, i + 1);
            assert forall|x: Seq<char>| nonblank_ids(next).contains(x) == (nonblank_ids(prev).contains(x)
                || (x == pv && trim(pv).len() > 0)) by {
                if next.contains(x) {
                    let k = choose|k: int| 0 <= k < next.len() && next[k] == x;
                    if k < i {
                        assert(prev[k] == x);
                    }
                }
                if prev.contains(x) {
                    let k = choose|k: int| 0 <= k < prev.len() && prev[k] == x;
                    assert(next[k] == x);
                }
                if x == pv {
                    assert(next[i as int] == x);
                }
            }
            assert(views(v@).to_set() =~= nonblank_ids(next));
        }
        i = i + 1;
    }
    proof {
        assert(all.subrange(0, peers@.len() as int) =~= all);
        lemma_sorted_no_duplicates(views(v@));
        views(v@).unique_seq_to_set();
    }
    if v.len() == 0 || v.len() > MAX_ONLINE_QUERY_PEERS {
        return Err(-3);
    }
    Ok(v)
}

/// The ids that are sent to the server: IP literals are kept back (the
/// server knows ids, not addresses), and so is anything that is no valid
/// id. `parsed[i]` is what `std::net` makes of the trimmed `peers[i]` and of
/// it without brackets.
pub open spec fn is_queryable(p: Seq<char>, parsed: (ParsedHost, ParsedHost)) -> bool {
    spec_classify_direct_peer(trim(p), parsed.0, parsed.1) == Ok::<
        Option<PeerAddress>,
        crate::endpoint::DirectAddrError,
    >(None)
}

pub fn ids_for_online_query(peers: &Vec<String>, parsed: &Vec<(ParsedHost, ParsedHost)>) -> (r: Vec<
    String,
>)
    requires
        parsed@.len() == peers@.len(),
    ensures
        views(r@) == spec_queryable(views(peers@), parsed@),
{
    let mut r: Vec<String> = Vec::new();
    let mut i: usize = 0;
    while i < peers.len()
        invariant
            i <= peers@.len(),
            parsed@.len() == peers@.len(),
            views(r@) == spec_queryable(
                views(peers@).subrange(0, i as int),
                parsed@.subrange(0, i as int),
            ),
        decreases peers@.len() - i,
    {
        proof {
            assert(views(peers@).subrange(0, i + 1).drop_last() =~= views(peers@).subrange(0, i as int));
            assert(parsed@.subrange(0, i + 1).drop_last() =~= parsed@.subrange(0, i as int));
        }
        let t = trim_string(peers[i].as_str());
        let (whole, inner) = parsed[i];
        let keep = match classify_direct_peer(t.as_str(), &whole, &inner) {
            Ok(None) => true,
            _ => false,
        };
        if keep {
            r.push(peers[i].clone());
            proof {
                assert(views(r@) =~= spec_queryable(
                    views(peers@).subrange(0, i as int),
                    parsed@.subrange(0, i as int),
                ).push(peers@[i as int]@));
            }
        }
        i = i + 1;
    }
    proof {
        assert(views(peers@).subrange(0, peers@.len() as int) =~= views(peers@));
        assert(parsed@.subrange(0, peers@.len() as int) =~= parsed@);
    }
    r
}

/// The queryable ids of `peers`, in order.
pub open spec fn spec_queryable(peers: Seq<Seq<char>>, parsed: Seq<(ParsedHost, ParsedHost)>) -> Seq<
    Seq<char>,
>
    decreases peers.len(),
{
    if peers.len() == 0 || parsed.len() == 0 {
        Seq::empty()
    } else {
        let rest = spec_queryable(peers.drop_last(), parsed.drop_last());
        if is_queryable(peers.last(), parsed.last()) {
            rest.push(peers.last())
        } else {
            rest
        }
    }
}

// ------------------------------------------------------------ the answer

/// Whether the `i`-th asked peer is online: bit `7 - i % 8` of byte `i / 8`.
pub open spec fn online_bit(states: Seq<u8>, i: int) -> bool {
    (states[i / 8] & (0x80u8 >> ((i % 8) as u8))) != 0
}

/// The bytes an answer about `n` peers needs.
pub open spec fn bitmap_len(n: nat) -> nat {
    (n + 7) / 8
}

/// One peer's online state.
pub struct PeerOnlineState {
    pub id: String,
    pub online: bool,
}

/// Reads the server's bitmap for the asked `peers`; a bitmap too short for
/// them is refused.
pub fn decode_online_states(peers: Vec<String>, states: &[u8]) -> (r: Option<Vec<PeerOnlineState>>)
    ensures
        match r {
            None => states@.len() < bitmap_len(peers@.len()),
            Some(v) => states@.len() >= bitmap_len(peers@.len()) && v@.len() == peers@.len()
                && forall|i: int|
                0 <= i < v@.len() ==> (#[trigger] v@[i]).id@ == peers@[i]@ && v@[i].online
                    == online_bit(states@, i),
        },
{
    let n = peers.len();
    let needed = n / 8 + if n % 8 == 0 {
        0
    } else {
        1
    };
    assert(needed == bitmap_len(n as nat));
    if states.len() < needed {
        return None;
    }
    let mut v: Vec<PeerOnlineState> = Vec::new();
    let mut i: usize = 0;
    while i < n
        invariant
            n == peers@.len(),
            states@.len() >= bitmap_len(n as nat),
            i <= n,
            v@.len() == i,
            forall|k: int|
                0 <= k < i ==> (#[trigger] v@[k]).id@ == peers@[k]@ && v@[k].online == online_bit(
                    states@,
                    k,
                ),
        decreases n - i,
    {
        let byte = states[i / 8];
        let mask: u8 = 0x80u8 >> ((i % 8) as u8);
        v.push(PeerOnlineState { id: peers[i].clone(), online: byte & mask != 0 });
        i = i + 1;
    }
    Some(v)
}

/// Starts an online query unless one is running. Returns whether this call
/// started it.
pub fn begin_online_query(active: &mut bool) -> (r: bool)
    ensures
        r == !*old(active),
        *final(active),
{
    if *active {
        return false;
    }
    *active = true;
    true
}

// ------------------------------------------------------------ clock and ids

#[verifier::external_type_specification]
#[verifier::external_body]
pub struct ExSystemTime(std::time::SystemTime);

/// `SystemTime::now`: the current reading of the system clock. Nothing is
/// claimed of it.
#[verifier::external_body]
fn system_now() -> (r: std::time::SystemTime) {
    std::time::SystemTime::now()
}

/// `SystemTime::duration_since` from `UNIX_EPOCH`: the time elapsed since
/// the epoch, or `None` where the clock reads before it. Nothing is claimed
/// of the duration.
#[verifier::external_body]
fn since_epoch(t: &std::time::SystemTime) -> (r: Option<std::time::Duration>) {
    t.duration_since(std::time::UNIX_EPOCH).ok()
}

/// `Duration::as_millis`: the whole milliseconds of `d`. Nothing is claimed
/// of the value.
#[verifier::external_body]
fn duration_millis(d: &std::time::Duration) -> (r: u128) {
    d.as_millis()
}

/// `Duration::subsec_nanos`: the fractional part of `d` in nanoseconds,
/// which the documentation bounds below one billion.
#[verifier::external_body]
fn duration_subsec_nanos(d: &std::time::Duration) -> (r: u32)
    ensures
        r < 1_000_000_000,
{
    d.subsec_nanos()
}

/// The millisecond clock the client keeps, from the milliseconds since the
/// epoch: 0 for a clock before the epoch, and the low 64 bits otherwise.
pub fn clock_millis(since_epoch_ms: Option<u128>) -> (r: u64)
    ensures
        r == match since_epoch_ms {
            Some(m) => m as u64,
            None => 0u64,
        },
{
    match since_epoch_ms {
        Some(m) => m as u64,
        None => 0,
    }
}

/// The wall clock in milliseconds since the epoch, 0 before it. What the
/// clock reads is not stated; `clock_millis` states what is made of it.
pub fn now_ms() -> u64 {
    let ms = match since_epoch(&system_now()) {
        Some(d) => Some(duration_millis(&d)),
        None => None,
    };
    clock_millis(ms)
}

/// A number from 100 to 999 taken from the clock's nanoseconds.
pub open spec fn spec_rand_from_nanos(nanos: u32) -> u32 {
    (nanos % 900 + 100) as u32
}

pub fn rand_from_nanos(nanos: u32) -> (r: u32)
    ensures
        r == spec_rand_from_nanos(nanos),
        100 <= r < 1000,
{
    nanos % 900 + 100
}

/// A number from 100 to 999; not random in any strong sense.
pub fn rand_simple() -> (r: u32)
    ensures
        100 <= r < 1000,
{
    // A clock before the epoch has no fraction of a second to offer: it reads as 0.
    let nanos = match since_epoch(&system_now()) {
        Some(d) => duration_subsec_nanos(&d),
        None => 0,
    };
    rand_from_nanos(nanos)
}

/// The device id shown to the user: three three-digit groups, `123-456-789`.
pub open spec fn spec_device_id(a: u32, b: u32, c: u32) -> Seq<char> {
    decimal(a as nat) + seq!['-'] + decimal(b as nat) + seq!['-'] + decimal(c as nat)
}

pub fn device_id(a: u32, b: u32, c: u32) -> (r: String)
    requires
        100 <= a < 1000,
        100 <= b < 1000,
        100 <= c < 1000,
    ensures
        r@ == spec_device_id(a, b, c),
        r@.len() == 11,
{
    let mut r = String::new();
    push_chars(&mut r, &decimal_chars(a as u64));
    push_char(&mut r, '-');
    push_chars(&mut r, &decimal_chars(b as u64));
    push_char(&mut r, '-');
    push_chars(&mut r, &decimal_chars(c as u64));
    proof {
        lemma_three_digits(a as nat);
        lemma_three_digits(b as nat);
        lemma_three_digits(c as nat);
    }
    r
}

proof fn lemma_three_digits(n: nat)
    requires
        100 <= n < 1000,
    ensures
        decimal(n).len() == 3,
{
    assert(decimal(n / 100).len() == 1);
    assert(decimal(n / 10) == decimal(n / 100).push(crate::number::digit_char(((n / 10) % 10) as nat)));
}

/// A fresh device id from the clock: three groups, each from 100 to 999.
pub fn new_device_id() -> (r: String)
    ensures
        exists|a: u32, b: u32, c: u32|
            100 <= a < 1000 && 100 <= b < 1000 && 100 <= c < 1000 && r@ == #[trigger] spec_device_id(
                a,
                b,
                c,
            ),
        r@.len() == 11,
{
    let a = rand_simple();
    let b = rand_simple();
    let c = rand_simple();
    let r = device_id(a, b, c);
    assert(100 <= a < 1000 && 100 <= b < 1000 && 100 <= c < 1000 && r@ == spec_device_id(a, b, c));
    r
}

} // verus!
