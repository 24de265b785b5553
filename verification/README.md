# starrustdesk

The core of the StarRustDesk remote-desktop client for HarmonyOS: the logic
that turns a peer ID into a secured session with a RustDesk peer, keeps the
session's state and translates input, video, audio, clipboard and file
transfers between the app and the peer.

The crate is written in Verus. The library's functions carry contracts that
Verus proves, stated over mathematical models (`Seq`, `Map`, integers) of the
data they work on. The few that read the clock or random numbers state only
what holds of every reading, and the results of the outside crates it calls
(SHA-256, base64, JSON, UUID text) are stated through the trusted wrappers in
`crypto`, `online` and `session`.

## Layout

- `src/` is the verified library.
  - `text`, `number`, `version`: character-level text, decimal numbers and
    version comparison.
  - `keyboard`: key codes, USB HID translation per peer platform, modifier
    masks, mouse and mobile actions.
  - `endpoint`: classification of peer strings (ID or IP literal), server
    addresses, default ports, WebSocket fallbacks and rendezvous candidates.
  - `punch`, `rendezvous`, `connect`: the punch-hole protocol, rendezvous
    replies and the decisions of a connection attempt (direct race, relay,
    status codes).
  - `crypto`, `handshake`: key decoding, the secure-handshake decisions and
    the login proof.
  - `route`, `assoc`: the per-peer route history with its expiry and bound.
  - `session`, `cursor`, `media`, `receive`: connection status, displays,
    remote cursor cache, codecs, audio, clipboard and the receive loop's
    decisions.
  - `files`, `online`: file-transfer requests and progress, online-state
    queries and device IDs.
- `tests/` runs the library on concrete values.
- `app/` is the C interface for the HarmonyOS app: process state, callbacks,
  sockets, the async runtime and the protocol types. It calls the library for
  the decisions that can be made on plain values; what it keeps is I/O,
  conversion to and from the protocol types, and the async loops.
