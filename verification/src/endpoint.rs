//! Server and peer endpoints: IP-literal peers, default ports, the public
//! rendezvous bootstrap, online-query and WebSocket fallback addresses.
use crate::number::{push_decimal, signed_decimal, spec_parse_u16, parse_u16};
use crate::text::{
    char_is_digit, chars_of, ends_with, ends_with_str, find_from, has_char, has_char_exec, index_of,
    is_digit, lemma_index_of_bounds, push_chars, push_text, starts_with, starts_with_str,
    string_from_chars, string_from_range, trim, trimmed_chars,
};
use vstd::prelude::*;

verus! {

/// Public key of the public RustDesk rendezvous service.
pub const RS_PUB_KEY: &'static str = "OeVuKk5nlHiXp+APNn0Y3pC1Iwpwn44JGqrQCsWqmBw=";

/// Bootstrap host of the public rendezvous service.
pub const RENDEZVOUS_SERVER: &'static str = "rs-ny.rustdesk.com";

/// Default rendezvous (ID server) port.
pub const RENDEZVOUS_PORT: i32 = 21116;

/// Default relay server port.
pub const RELAY_PORT: i32 = 21117;

/// Port of a peer's direct IP listener: one above the relay port.
pub const DIRECT_PEER_PORT: u16 = 21118;

/// Port of the rendezvous server's auxiliary (online-query) listener.
pub const ONLINE_QUERY_PORT: i32 = 21115;

/// An IP address: four octets or eight 16-bit segments.
#[derive(Clone, Copy, Debug, PartialEq, Eq)]
pub enum IpAddress {
    V4([u8; 4]),
    V6([u16; 8]),
}

/// A socket address. `flowinfo` and `scope_id` are 0 for IPv4.
#[derive(Clone, Copy, Debug, PartialEq, Eq)]
pub struct PeerAddress {
    pub ip: IpAddress,
    pub port: u16,
    pub flowinfo: u32,
    pub scope_id: u32,
}

/// What `std::net` reads in a text: the socket address it parses as, and
/// the IP address it parses as. The library does not parse addresses
/// itself; callers hand in what `str::parse` gave for the text named in each
/// function's documentation.
#[derive(Clone, Copy, Debug, PartialEq, Eq)]
pub struct ParsedHost {
    pub socket: Option<PeerAddress>,
    pub ip: Option<IpAddress>,
}

// ------------------------------------------------------------ IP literals

/// Why a peer string that looks like an IP literal was refused.
#[derive(Clone, Copy, Debug, PartialEq, Eq, Structural)]
pub enum DirectAddrError {
    /// An address with port 0.
    InvalidPort,
    /// Text that looks like an address but is not one.
    InvalidAddress,
}

impl DirectAddrError {
    pub fn message(&self) -> (r: &'static str)
        ensures
            *self == DirectAddrError::InvalidPort ==> r@ == "invalid direct IP port"@,
            *self == DirectAddrError::InvalidAddress ==> r@ == "invalid direct IP address or port"@,
    {
        match self {
            DirectAddrError::InvalidPort => "invalid direct IP port",
            DirectAddrError::InvalidAddress => "invalid direct IP address or port",
        }
    }
}

/// `[inner]` becomes `inner`; anything else is kept.
pub open spec fn strip_brackets(p: Seq<char>) -> Seq<char> {
    if p.len() >= 2 && p[0] == '[' && p.last() == ']' {
        p.subrange(1, p.len() - 1)
    } else {
        p
    }
}

/// The address a trimmed peer string denotes, given what `std::net` makes
/// of it (`whole`) and of its bracket-stripped form (`inner`): a socket
/// address, or a bare (or bracketed) IP with the direct-listener port.
pub open spec fn literal_address(whole: ParsedHost, inner: ParsedHost) -> Option<PeerAddress> {
    match whole.socket {
        Some(a) => Some(a),
        None => match inner.ip {
            Some(ip) => Some(PeerAddress { ip, port: DIRECT_PEER_PORT, flowinfo: 0, scope_id: 0 }),
            None => None,
        },
    }
}

/// Text that must not be sent to a rendezvous server as an ID: empty, or
/// with `:`, `[` or `]`, or dots and digits only.
pub open spec fn looks_like_literal(p: Seq<char>) -> bool {
    p.len() == 0 || has_char(p, ':') || has_char(p, '[') || has_char(p, ']') || (has_char(p, '.')
        && forall|i: int| 0 <= i < p.len() ==> (is_digit(p[i]) || p[i] == '.'))
}

pub open spec fn spec_classify_direct_peer(
    p: Seq<char>,
    whole: ParsedHost,
    inner: ParsedHost,
) -> Result<Option<PeerAddress>, DirectAddrError> {
    match literal_address(whole, inner) {
        Some(a) => if a.port == 0 {
            Err(DirectAddrError::InvalidPort)
        } else {
            Ok(Some(a))
        },
        None => if looks_like_literal(p) {
            Err(DirectAddrError::InvalidAddress)
        } else {
            Ok(None)
        },
    }
}

fn all_digits_or_dots(v: &Vec<char>) -> (b: bool)
    ensures
        b == forall|i: int| 0 <= i < v@.len() ==> (is_digit(v@[i]) || v@[i] == '.'),
{
    let mut i: usize = 0;
    while i < v.len()
        invariant
            i <= v@.len(),
            forall|k: int| 0 <= k < i ==> (is_digit(v@[k]) || v@[k] == '.'),
        decreases v@.len() - i,
    {
        if !(char_is_digit(v[i]) || v[i] == '.') {
            return false;
        }
        i = i + 1;
    }
    true
}

/// The text inside `[...]`, or the whole text when it is not bracketed.
pub fn bracket_inner(p: &str) -> (r: String)
    ensures
        r@ == strip_brackets(p@),
{
    let v = chars_of(p);
    let n = v.len();
    if n >= 2 && v[0] == '[' && v[n - 1] == ']' {
        string_from_range(&v, 1, n - 1)
    } else {
        string_from_chars(&v)
    }
}

/// Classifies a trimmed peer string `p`, given what `std::net` makes of `p`
/// (`whole`) and of `bracket_inner(p)` (`inner`). An IP literal, with or
/// without a port, is `Ok(Some(address))` (the direct-listener port 21118
/// when none is given); a plain ID is `Ok(None)`; text that looks like an
/// address but is not a valid one, or has port 0, is an error, so that it
/// never reaches a rendezvous server as an ID.
pub fn classify_direct_peer(p: &str, whole: &ParsedHost, inner: &ParsedHost) -> (r: Result<
    Option<PeerAddress>,
    DirectAddrError,
>)
    ensures
        r == spec_classify_direct_peer(p@, *whole, *inner),
{
    let v = chars_of(p);
    let address = match whole.socket {
        Some(a) => Some(a),
        None => match inner.ip {
            Some(ip) => Some(PeerAddress { ip, port: DIRECT_PEER_PORT, flowinfo: 0, scope_id: 0 }),
            None => None,
        },
    };
    match address {
        Some(a) => {
            if a.port == 0 {
                Err(DirectAddrError::InvalidPort)
            } else {
                Ok(Some(a))
            }
        },
        None => {
            if v.len() == 0 || has_char_exec(&v, ':') || has_char_exec(&v, '[') || has_char_exec(
                &v,
                ']',
            ) || (has_char_exec(&v, '.') && all_digits_or_dots(&v)) {
                Err(DirectAddrError::InvalidAddress)
            } else {
                Ok(None)
            }
        },
    }
}

// ------------------------------------------------------------ default ports

/// Number of occurrences of `c` in `s`.
pub open spec fn count_char(s: Seq<char>, c: char) -> nat
    decreases s.len(),
{
    if s.len() == 0 {
        0
    } else {
        count_char(s.drop_last(), c) + if s.last() == c {
            1nat
        } else {
            0nat
        }
    }
}

fn count_char_exec(v: &Vec<char>, c: char) -> (n: usize)
    ensures
        n == count_char(v@, c),
{
    let mut n: usize = 0;
    let mut i: usize = 0;
    while i < v.len()
        invariant
            i <= v@.len(),
            n == count_char(v@.take(i as int), c),
            n <= i,
        decreases v@.len() - i,
    {
        assert(v@.take(i + 1).drop_last() =~= v@.take(i as int));
        if v[i] == c {
            n = n + 1;
        }
        i = i + 1;
    }
    assert(v@.take(v@.len() as int) =~= v@);
    n
}

/// `host` with `:port` appended unless it already names one (in a form
/// that parses, or as a single `host:port`). IPv6 literals get brackets,
/// `ws://`/`wss://` URLs are kept, and an empty host becomes the loopback.
/// `parsed` is what `std::net` makes of the trimmed host.
pub open spec fn spec_with_port(host: Seq<char>, port: int, parsed: ParsedHost) -> Seq<char> {
    let h = trim(host);
    let suffix = ":"@ + signed_decimal(port);
    if starts_with(h, "ws://"@) || starts_with(h, "wss://"@) {
        h
    } else if h.len() == 0 {
        "127.0.0.1"@ + suffix
    } else if parsed.socket.is_some() {
        h
    } else {
        match parsed.ip {
            Some(IpAddress::V4(_)) => h + suffix,
            Some(IpAddress::V6(_)) => "["@ + h + "]"@ + suffix,
            None => if starts_with(h, "["@) && ends_with(h, "]"@) {
                h + suffix
            } else if count_char(h, ':') == 1 && spec_parse_u16(h.skip(index_of(h, ':') + 1))
                is Some {
                h
            } else {
                h + suffix
            },
        }
    }
}

fn port_suffix(s: &mut String, port: i32)
    ensures
        final(s)@ == old(s)@ + ":"@ + signed_decimal(port as int),
{
    let ghost s0 = s@;
    push_text(s, ":");
    push_decimal(s, port as i64);
    assert(s@ =~= s0 + ":"@ + signed_decimal(port as int));
}

proof fn lemma_count_one_index(s: Seq<char>, c: char)
    requires
        count_char(s, c) == 1,
    ensures
        0 <= index_of(s, c) < s.len(),
    decreases s.len(),
{
    lemma_index_of_bounds(s, c);
    if index_of(s, c) < 0 {
        lemma_count_none(s, c);
    }
}

proof fn lemma_count_none(s: Seq<char>, c: char)
    requires
        forall|i: int| 0 <= i < s.len() ==> s[i] != c,
    ensures
        count_char(s, c) == 0,
    decreases s.len(),
{
    if s.len() > 0 {
        lemma_count_none(s.drop_last(), c);
    }
}

/// Adds the default port to a host that names none; see `spec_with_port`.
/// `parsed` is what `std::net` makes of `host.trim()`.
pub fn with_port(host: &str, port: i32, parsed: &ParsedHost) -> (r: String)
    ensures
        r@ == spec_with_port(host@, port as int, *parsed),
{
    let h = trimmed_chars(host);
    let hs = string_from_chars(&h);
    if starts_with_str(&h, "ws://") || starts_with_str(&h, "wss://") {
        return hs;
    }
    if h.len() == 0 {
        let mut r = String::new();
        push_text(&mut r, "127.0.0.1");
        port_suffix(&mut r, port);
        return r;
    }
    if parsed.socket.is_some() {
        return hs;
    }
    match parsed.ip {
        Some(IpAddress::V4(_)) => {
            let mut r = string_from_chars(&h);
            port_suffix(&mut r, port);
            r
        },
        Some(IpAddress::V6(_)) => {
            let mut r = String::new();
            push_text(&mut r, "[");
            push_chars(&mut r, &h);
            push_text(&mut r, "]");
            port_suffix(&mut r, port);
            r
        },
        None => {
            if starts_with_str(&h, "[") && ends_with_str(&h, "]") {
                let mut r = string_from_chars(&h);
                port_suffix(&mut r, port);
                return r;
            }
            if count_char_exec(&h, ':') == 1 {
                proof {
                    lemma_count_one_index(h@, ':');
                }
                match find_from(&h, 0, ':') {
                    Some(k) => {
                        assert(h@.subrange(0, h@.len() as int) =~= h@);
                        assert(h@.skip(k + 1) =~= h@.subrange(k + 1, h@.len() as int));
                        if parse_u16(&h, k + 1, h.len()).is_some() {
                            return hs;
                        }
                    },
                    None => {
                        assert(h@.subrange(0, h@.len() as int) =~= h@);
                    },
                }
            }
            let mut r = string_from_chars(&h);
            port_suffix(&mut r, port);
            r
        },
    }
}

/// The public rendezvous server's key for a blank server with no key;
/// an explicit key, or any key for a self-hosted server, is kept as given.
pub open spec fn spec_default_server_key(server: Seq<char>, key: Seq<char>) -> Seq<char> {
    if trim(server).len() == 0 && key.len() == 0 {
        RS_PUB_KEY@
    } else {
        key
    }
}

pub fn default_server_key(server: &str, key: &str) -> (r: String)
    ensures
        r@ == spec_default_server_key(server@, key@),
{
    let t = trimmed_chars(server);
    let k = chars_of(key);
    if t.len() == 0 && k.len() == 0 {
        let mut r = String::new();
        push_text(&mut r, RS_PUB_KEY);
        r
    } else {
        string_from_chars(&k)
    }
}

/// The host that a configured rendezvous server stands for: the public
/// bootstrap for a blank one, never the public server in place of a
/// configured one.
pub open spec fn rendezvous_host(server: Seq<char>) -> Seq<char> {
    if trim(server).len() == 0 {
        RENDEZVOUS_SERVER@
    } else {
        server
    }
}

/// Rendezvous address for a configured server; `parsed` is what `std::net`
/// makes of the trimmed `rendezvous_host(server)`.
pub open spec fn spec_default_rendezvous_addr(server: Seq<char>, parsed: ParsedHost) -> Seq<char> {
    spec_with_port(
        if trim(server).len() == 0 {
            RENDEZVOUS_SERVER@
        } else {
            server
        },
        RENDEZVOUS_PORT as int,
        parsed,
    )
}

pub fn default_rendezvous_addr(server: &str, parsed: &ParsedHost) -> (r: String)
    ensures
        r@ == spec_default_rendezvous_addr(server@, *parsed),
{
    let t = trimmed_chars(server);
    if t.len() == 0 {
        with_port(RENDEZVOUS_SERVER, RENDEZVOUS_PORT, parsed)
    } else {
        with_port(server, RENDEZVOUS_PORT, parsed)
    }
}

/// The trimmed host whose `std::net` reading `default_rendezvous_addr`
/// takes.
pub fn rendezvous_host_text(server: &str) -> (r: String)
    ensures
        r@ == trim(rendezvous_host(server@)),
{
    let t = trimmed_chars(server);
    if t.len() == 0 {
        crate::text::trim_string(RENDEZVOUS_SERVER)
    } else {
        string_from_chars(&t)
    }
}

/// Index of the last `c` in `s`, or -1.
pub open spec fn last_index_of(s: Seq<char>, c: char) -> int
    decreases s.len(),
{
    if s.len() == 0 {
        -1
    } else if s.last() == c {
        s.len() - 1
    } else {
        last_index_of(s.drop_last(), c)
    }
}

fn find_last(v: &Vec<char>, c: char) -> (r: Option<usize>)
    ensures
        match r {
            Some(k) => k < v@.len() && last_index_of(v@, c) == k,
            None => last_index_of(v@, c) == -1,
        },
{
    let mut j = v.len();
    assert(v@.take(j as int) =~= v@);
    while j > 0
        invariant
            j <= v@.len(),
            last_index_of(v@, c) == last_index_of(v@.take(j as int), c),
        decreases j,
    {
        assert(v@.take(j as int).drop_last() =~= v@.take(j - 1));
        if v[j - 1] == c {
            return Some(j - 1);
        }
        j = j - 1;
    }
    None
}

/// The port with one subtracted when it is above 1.
pub open spec fn lower_port(port: u16) -> u16 {
    if port > 1 {
        (port - 1) as u16
    } else {
        port
    }
}

/// The online-query port for a rendezvous port: one lower when above 1.
pub fn online_query_port(port: u16) -> (r: u16)
    ensures
        r == lower_port(port),
{
    if port > 1 {
        port - 1
    } else {
        port
    }
}

/// The online-query endpoint when the rendezvous address `ra` does not
/// parse as a socket address: `host:port-1` when it ends in a port above 1,
/// else the server with the auxiliary port 21115. `parsed` is what
/// `std::net` makes of the trimmed `server`.
pub open spec fn spec_online_query_fallback(ra: Seq<char>, server: Seq<char>, parsed: ParsedHost) -> Seq<char> {
    let li = last_index_of(ra, ':');
    if li >= 0 && spec_parse_u16(ra.skip(li + 1)) is Some && spec_parse_u16(ra.skip(li + 1))->0
        > 1 {
        ra.take(li) + ":"@ + signed_decimal(spec_parse_u16(ra.skip(li + 1))->0 - 1)
    } else {
        spec_with_port(server, ONLINE_QUERY_PORT as int, parsed)
    }
}

pub fn online_query_fallback(ra: &str, server: &str, parsed: &ParsedHost) -> (r: String)
    ensures
        r@ == spec_online_query_fallback(ra@, server@, *parsed),
{
    let rv = chars_of(ra);
    match find_last(&rv, ':') {
        Some(li) => {
            assert(li < rv.len());
            assert(rv@.skip(li + 1) =~= rv@.subrange(li + 1, rv@.len() as int));
            match parse_u16(&rv, li + 1, rv.len()) {
                Some(port) => {
                    if port > 1 {
                        let mut r = string_from_range(&rv, 0, li);
                        assert(rv@.take(li as int) =~= rv@.subrange(0, li as int));
                        port_suffix(&mut r, (port - 1) as i32);
                        return r;
                    }
                },
                None => {},
            }
        },
        None => {},
    }
    with_port(server, ONLINE_QUERY_PORT, parsed)
}


// ------------------------------------------------------ rendezvous servers

/// Fields of `s` separated by `sep` (as `str::split`), scanned left to right.
pub open spec fn split_fields(s: Seq<char>, sep: char) -> Seq<Seq<char>>
    decreases s.len(),
{
    if s.len() == 0 {
        seq![Seq::empty()]
    } else {
        let r = split_fields(s.drop_last(), sep);
        if s.last() == sep {
            r.push(Seq::empty())
        } else {
            r.drop_last().push(r.last().push(s.last()))
        }
    }
}

/// The trimmed fields that are not blank, in order.
pub open spec fn nonblank_trimmed(fields: Seq<Seq<char>>) -> Seq<Seq<char>>
    decreases fields.len(),
{
    if fields.len() == 0 {
        Seq::empty()
    } else {
        let prev = nonblank_trimmed(fields.drop_last());
        let t = trim(fields.last());
        if t.len() == 0 {
            prev
        } else {
            prev.push(t)
        }
    }
}

pub proof fn lemma_split_nonempty(s: Seq<char>, sep: char)
    ensures
        split_fields(s, sep).len() >= 1,
    decreases s.len(),
{
    if s.len() > 0 {
        lemma_split_nonempty(s.drop_last(), sep);
    }
}

/// The views of a list of strings.
pub open spec fn views(v: Seq<String>) -> Seq<Seq<char>> {
    v.map_values(|s: String| s@)
}

/// The entries of a comma-separated server list, trimmed, blanks dropped.
pub fn server_list_entries(list: &str) -> (r: Vec<String>)
    ensures
        views(r@) == nonblank_trimmed(split_fields(list@, ',')),
{
    let v = chars_of(list);
    let n = v.len();
    let mut out: Vec<String> = Vec::new();
    let mut cur: Vec<char> = Vec::new();
    let ghost mut done: Seq<Seq<char>> = Seq::empty();
    let mut i: usize = 0;
    assert(v@.take(0) =~= Seq::<char>::empty());
    assert(split_fields(v@.take(0), ',') =~= done + seq![cur@]);
    while i < n
        invariant
            n == v@.len(),
            i <= n,
            split_fields(v@.take(i as int), ',') == done + seq![cur@],
            views(out@) == nonblank_trimmed(done),
        decreases n - i,
    {
        let c = v[i];
        assert(v@.take(i + 1).drop_last() =~= v@.take(i as int));
        assert(v@.take(i + 1).last() == c);
        if c == ',' {
            let t = crate::text::trim_bounds(&cur);
            let ghost old_out = views(out@);
            if t.0 < t.1 {
                let entry = string_from_range(&cur, t.0, t.1);
                out.push(entry);
                assert(views(out@) =~= old_out.push(trim(cur@)));
            }
            proof {
                assert((done.push(cur@)).drop_last() =~= done);
                assert(nonblank_trimmed(done.push(cur@)) == views(out@));
                assert(split_fields(v@.take(i + 1), ',') =~= done.push(cur@) + seq![Seq::<char>::empty()]);
                done = done.push(cur@);
            }
            cur = Vec::new();
            assert(split_fields(v@.take(i + 1), ',') =~= done + seq![cur@]);
        } else {
            let ghost old_cur = cur@;
            cur.push(c);
            proof {
                let r = done + seq![old_cur];
                assert(r.drop_last() =~= done);
                assert(split_fields(v@.take(i + 1), ',') =~= done + seq![cur@]);
            }
        }
        i = i + 1;
    }
    let t = crate::text::trim_bounds(&cur);
    let ghost old_out = views(out@);
    if t.0 < t.1 {
        let entry = string_from_range(&cur, t.0, t.1);
        out.push(entry);
        assert(views(out@) =~= old_out.push(trim(cur@)));
    }
    proof {
        assert(v@.take(n as int) =~= v@);
        assert((done.push(cur@)).drop_last() =~= done);
        assert(done + seq![cur@] =~= done.push(cur@));
    }
    out
}

/// `list` with `c` added unless an equal string is already there.
pub open spec fn add_unique(list: Seq<Seq<char>>, c: Seq<char>) -> Seq<Seq<char>> {
    if list.contains(c) {
        list
    } else {
        list.push(c)
    }
}

/// Adds a candidate address unless it is already listed; the list never
/// holds the same address twice.
pub fn add_candidate(list: &mut Vec<String>, candidate: String)
    ensures
        views(final(list)@) == add_unique(views(old(list)@), candidate@),
        views(old(list)@).no_duplicates() ==> views(final(list)@).no_duplicates(),
{
    let mut i: usize = 0;
    while i < list.len()
        invariant
            i <= list@.len(),
            forall|k: int| 0 <= k < i ==> list@[k]@ != candidate@,
        decreases list@.len() - i,
    {
        if list[i] == candidate {
            assert(views(list@)[i as int] == candidate@);
            return;
        }
        i = i + 1;
    }
    let ghost before = views(list@);
    assert(!before.contains(candidate@)) by {
        if before.contains(candidate@) {
            let k = choose|k: int| 0 <= k < before.len() && before[k] == candidate@;
            assert(list@[k]@ == candidate@);
        }
    }
    list.push(candidate);
    assert(views(list@) =~= before.push(candidate@));
}

/// Which service an endpoint belongs to.
#[derive(Clone, Copy, Debug, PartialEq, Eq, Structural)]
pub enum EndpointRole {
    Rendezvous,
    Relay,
}

/// `s` without its leading `c` characters, as `trim_start_matches(c)`.
pub open spec fn strip_leading(s: Seq<char>, c: char) -> Seq<char>
    decreases s.len(),
{
    if s.len() > 0 && s[0] == c {
        strip_leading(s.drop_first(), c)
    } else {
        s
    }
}

/// `s` without its trailing `c` characters, as `trim_end_matches(c)`.
pub open spec fn strip_trailing(s: Seq<char>, c: char) -> Seq<char>
    decreases s.len(),
{
    if s.len() > 0 && s.last() == c {
        strip_trailing(s.drop_last(), c)
    } else {
        s
    }
}

pub open spec fn unbracketed(host: Seq<char>) -> Seq<char> {
    strip_trailing(strip_leading(host, '['), ']')
}

/// The host with all leading `[` and trailing `]` removed.
pub fn host_without_brackets(host: &str) -> (r: String)
    ensures
        r@ == unbracketed(host@),
{
    let v = chars_of(host);
    let n = v.len();
    let mut i: usize = 0;
    assert(v@.subrange(0, n as int) =~= v@);
    while i < n && v[i] == '['
        invariant
            n == v@.len(),
            i <= n,
            strip_leading(v@, '[') == strip_leading(v@.subrange(i as int, n as int), '['),
        decreases n - i,
    {
        assert(v@.subrange(i as int, n as int).drop_first() =~= v@.subrange(i + 1, n as int));
        i = i + 1;
    }
    let ghost rest = v@.subrange(i as int, n as int);
    let mut j = n;
    assert(rest.subrange(0, (j - i) as int) =~= rest);
    while j > i && v[j - 1] == ']'
        invariant
            n == v@.len(),
            i <= j <= n,
            rest == v@.subrange(i as int, n as int),
            strip_trailing(rest, ']') == strip_trailing(rest.subrange(0, (j - i) as int), ']'),
        decreases j,
    {
        assert(rest.subrange(0, (j - i) as int).drop_last() =~= rest.subrange(0, (j - i - 1) as int));
        assert(rest.subrange(0, (j - i) as int).last() == v@[j - 1]);
        j = j - 1;
    }
    assert(rest.subrange(0, (j - i) as int) =~= v@.subrange(i as int, j as int));
    string_from_range(&v, i, j)
}

pub open spec fn role_path(role: EndpointRole) -> Seq<char> {
    match role {
        EndpointRole::Rendezvous => "/ws/id"@,
        EndpointRole::Relay => "/ws/relay"@,
    }
}

/// WebSocket addresses to try after the plain endpoint: for an IP host its
/// `port + 2` listener; for a named host the HTTPS path, the `port + 2`
/// listener with the path, and plain HTTP with the path. None for an
/// endpoint that is already a URL or has no `host:port` form (`host_port`
/// is the endpoint split into host and port, `host_is_ip` whether the
/// unbracketed host parses as an IP address).
pub open spec fn spec_websocket_candidates(
    endpoint: Seq<char>,
    host_port: Option<(Seq<char>, int)>,
    host_is_ip: bool,
    role: EndpointRole,
) -> Seq<Seq<char>> {
    if starts_with(endpoint, "ws://"@) || starts_with(endpoint, "wss://"@) {
        Seq::empty()
    } else {
        match host_port {
            None => Seq::empty(),
            Some((host, port)) => {
                let bare = unbracketed(host);
                let ws_port = signed_decimal(port + 2);
                if host_is_ip {
                    seq!["ws://"@ + host + ":"@ + ws_port]
                } else {
                    seq![
                        "wss://"@ + bare + role_path(role),
                        "ws://"@ + bare + ":"@ + ws_port + role_path(role),
                        "ws://"@ + bare + role_path(role),
                    ]
                }
            },
        }
    }
}

fn push_role_path(s: &mut String, role: EndpointRole)
    ensures
        final(s)@ == old(s)@ + role_path(role),
{
    match role {
        EndpointRole::Rendezvous => push_text(s, "/ws/id"),
        EndpointRole::Relay => push_text(s, "/ws/relay"),
    }
}

pub fn websocket_fallback_candidates(
    endpoint: &str,
    host_port: Option<(String, i32)>,
    host_is_ip: bool,
    role: EndpointRole,
) -> (r: Vec<String>)
    requires
        host_port matches Some((_, port)) ==> port <= i32::MAX - 2,
    ensures
        views(r@) == spec_websocket_candidates(
            endpoint@,
            match host_port {
                Some((h, p)) => Some((h@, p as int)),
                None => None,
            },
            host_is_ip,
            role,
        ),
{
    let e = chars_of(endpoint);
    if starts_with_str(&e, "ws://") || starts_with_str(&e, "wss://") {
        let r: Vec<String> = Vec::new();
        assert(views(r@) =~= Seq::<Seq<char>>::empty());
        return r;
    }
    match host_port {
        None => {
            let r: Vec<String> = Vec::new();
            assert(views(r@) =~= Seq::<Seq<char>>::empty());
            r
        },
        Some((host, port)) => {
            let bare = host_without_brackets(host.as_str());
            let ws_port = port + 2;
            let mut r: Vec<String> = Vec::new();
            if host_is_ip {
                let mut a = String::new();
                push_text(&mut a, "ws://");
                push_text(&mut a, host.as_str());
                port_suffix(&mut a, ws_port);
                r.push(a);
            } else {
                let mut a = String::new();
                push_text(&mut a, "wss://");
                push_text(&mut a, bare.as_str());
                push_role_path(&mut a, role);
                let mut b = String::new();
                push_text(&mut b, "ws://");
                push_text(&mut b, bare.as_str());
                port_suffix(&mut b, ws_port);
                push_role_path(&mut b, role);
                let mut c = String::new();
                push_text(&mut c, "ws://");
                push_text(&mut c, bare.as_str());
                push_role_path(&mut c, role);
                r.push(a);
                r.push(b);
                r.push(c);
            }
            let ghost expected = spec_websocket_candidates(endpoint@, Some((host@, port as int)), host_is_ip, role);
            assert(views(r@) =~= expected);
            r
        },
    }
}


/// The candidates of a blank server setting: each listed server (the ones
/// the public service announced, then the bootstrap) with the default port,
/// in order, each once.
pub open spec fn spec_candidate_list(entries: Seq<(Seq<char>, ParsedHost)>) -> Seq<Seq<char>>
    decreases entries.len(),
{
    if entries.len() == 0 {
        Seq::empty()
    } else {
        add_unique(
            spec_candidate_list(entries.drop_last()),
            spec_with_port(entries.last().0, RENDEZVOUS_PORT as int, entries.last().1),
        )
    }
}

pub open spec fn entry_views(entries: Seq<(String, ParsedHost)>) -> Seq<(Seq<char>, ParsedHost)> {
    entries.map_values(|e: (String, ParsedHost)| (e.0@, e.1))
}

/// The rendezvous servers to try. A configured server is the only
/// candidate; for a blank setting the `entries` are tried (each with what
/// `std::net` makes of it, trimmed), or the bootstrap when there are none.
/// `server_parsed` and `bootstrap_parsed` are what `std::net` makes of the
/// trimmed server and of the bootstrap host.
pub open spec fn spec_rendezvous_candidates(
    server: Seq<char>,
    server_parsed: ParsedHost,
    entries: Seq<(Seq<char>, ParsedHost)>,
    bootstrap_parsed: ParsedHost,
) -> Seq<Seq<char>> {
    if trim(server).len() > 0 {
        seq![spec_default_rendezvous_addr(server, server_parsed)]
    } else if spec_candidate_list(entries).len() == 0 {
        seq![spec_default_rendezvous_addr(server, bootstrap_parsed)]
    } else {
        spec_candidate_list(entries)
    }
}

pub fn rendezvous_candidates(
    server: &str,
    server_parsed: &ParsedHost,
    entries: &Vec<(String, ParsedHost)>,
    bootstrap_parsed: &ParsedHost,
) -> (r: Vec<String>)
    ensures
        views(r@) == spec_rendezvous_candidates(
            server@,
            *server_parsed,
            entry_views(entries@),
            *bootstrap_parsed,
        ),
        views(r@).no_duplicates(),
{
    let t = trimmed_chars(server);
    if t.len() > 0 {
        let mut r: Vec<String> = Vec::new();
        r.push(default_rendezvous_addr(server, server_parsed));
        assert(views(r@) =~= seq![spec_default_rendezvous_addr(server@, *server_parsed)]);
        return r;
    }
    let mut r: Vec<String> = Vec::new();
    let mut i: usize = 0;
    while i < entries.len()
        invariant
            i <= entries@.len(),
            views(r@) == spec_candidate_list(entry_views(entries@).subrange(0, i as int)),
            views(r@).no_duplicates(),
        decreases entries@.len() - i,
    {
        proof {
            assert(entry_views(entries@).subrange(0, i + 1).drop_last() =~= entry_views(
                entries@,
            ).subrange(0, i as int));
        }
        let c = with_port(entries[i].0.as_str(), RENDEZVOUS_PORT, &entries[i].1);
        add_candidate(&mut r, c);
        i = i + 1;
    }
    assert(entry_views(entries@).subrange(0, entries@.len() as int) =~= entry_views(entries@));
    if r.len() == 0 {
        r.push(default_rendezvous_addr(server, bootstrap_parsed));
        assert(views(r@) =~= seq![spec_default_rendezvous_addr(server@, *bootstrap_parsed)]);
    }
    r
}


// ------------------------------------------------------------ laws

/// A peer string that is dialled as an ID through the rendezvous server
/// neither parses as an address nor looks like one: no IP literal, valid
/// or malformed, ever reaches the server as an ID; and an address with
/// port 0 is never dialled.
pub proof fn literals_never_reach_rendezvous(p: Seq<char>, whole: ParsedHost, inner: ParsedHost)
    ensures
        spec_classify_direct_peer(p, whole, inner) == Ok::<Option<PeerAddress>, DirectAddrError>(
            None,
        ) ==> literal_address(whole, inner) is None && !looks_like_literal(p),
        spec_classify_direct_peer(p, whole, inner) matches Ok(Some(a)) ==> a.port != 0,
{
}

/// A configured (non-blank) server is the only rendezvous candidate: the
/// public service never replaces it.
pub proof fn configured_server_is_kept(
    server: Seq<char>,
    server_parsed: ParsedHost,
    entries: Seq<(Seq<char>, ParsedHost)>,
    bootstrap_parsed: ParsedHost,
)
    requires
        trim(server).len() > 0,
    ensures
        spec_rendezvous_candidates(server, server_parsed, entries, bootstrap_parsed) == seq![
            spec_with_port(server, RENDEZVOUS_PORT as int, server_parsed),
        ],
{
}

} // verus!
