//! The state of one remote session as the client tracks it: connection
//! status, the peer's displays and the remote cursor, and the slots that
//! hold the current session's message sender and task.
use crate::crypto::hex_lower;
use crate::files::{sanitized_text_is_clean, set_file_transfer_status, FileTransferStatus};
use crate::cursor::{CursorImageModel, CursorState};
use crate::keyboard::chars_equal;
use crate::text::{chars_of, is_control, lower, lower_chars, trim, trimmed_chars};
use crate::version::{spec_version_at_least, version_at_least};
use vstd::prelude::*;

verus! {

/// `s + 1`, wrapping to 0 after `u64::MAX`, as the session counters count.
pub open spec fn next_sequence(s: u64) -> u64 {
    if s == u64::MAX {
        0
    } else {
        (s + 1) as u64
    }
}

pub fn bump_sequence(s: u64) -> (r: u64)
    ensures
        r == next_sequence(s),
{
    if s == u64::MAX {
        0
    } else {
        s + 1
    }
}

// ------------------------------------------------------------ connection status

/// What the client reports about the current connection.
#[derive(Clone, Copy, Debug, PartialEq, Eq, Structural)]
pub struct ConnectionStatus {
    /// Identifies the current attempt; a newer attempt invalidates older ones.
    pub session_id: u64,
    pub active: bool,
    /// 1 direct, 2 relayed, 0 none.
    pub route: i32,
    pub transport: i32,
    pub delay_ms: i32,
    pub target_bitrate_kb: i32,
}

/// The status code of a status: 2 while connected, else 0.
pub open spec fn spec_status_code(s: ConnectionStatus) -> i32 {
    if s.active {
        2
    } else {
        0
    }
}

/// A status once its connection is verified over `route` and `transport`.
pub open spec fn spec_mark_connected(s: ConnectionStatus, route: i32, transport: i32) -> ConnectionStatus {
    ConnectionStatus { active: true, route, transport, ..s }
}

impl ConnectionStatus {
    pub fn new() -> (r: ConnectionStatus)
        ensures
            r == (ConnectionStatus {
                session_id: 0,
                active: false,
                route: 0,
                transport: 0,
                delay_ms: 0,
                target_bitrate_kb: 0,
            }),
    {
        ConnectionStatus {
            session_id: 0,
            active: false,
            route: 0,
            transport: 0,
            delay_ms: 0,
            target_bitrate_kb: 0,
        }
    }

    /// The status code shown to the user: 2 while connected, else 0.
    pub fn status_code(&self) -> (r: i32)
        ensures
            r == spec_status_code(*self),
            r == (if self.active {
                2i32
            } else {
                0i32
            }),
    {
        if self.active {
            2
        } else {
            0
        }
    }

    /// Starts a new attempt (or a disconnect): the session id moves on and
    /// everything reported about the old connection is cleared. Returns the
    /// new session id.
    pub fn begin_session(&mut self) -> (r: u64)
        ensures
            r == next_sequence(old(self).session_id),
            *final(self) == (ConnectionStatus {
                session_id: r,
                active: false,
                route: 0,
                transport: 0,
                delay_ms: 0,
                target_bitrate_kb: 0,
            }),
    {
        let id = bump_sequence(self.session_id);
        self.session_id = id;
        self.active = false;
        self.route = 0;
        self.transport = 0;
        self.delay_ms = 0;
        self.target_bitrate_kb = 0;
        id
    }

    /// Records the route of a verified connection of `session_id`. Nothing
    /// changes when a newer attempt started meanwhile.
    pub fn mark_connected(&mut self, session_id: u64, route: i32, transport: i32) -> (r: bool)
        ensures
            r ==> *final(self) == spec_mark_connected(*old(self), route, transport),
            r == (old(self).session_id == session_id),
            r ==> *final(self) == (ConnectionStatus {
                active: true,
                route,
                transport,
                ..*old(self)
            }),
            !r ==> *final(self) == *old(self),
    {
        if self.session_id != session_id {
            return false;
        }
        self.active = true;
        self.route = route;
        self.transport = transport;
        true
    }

    /// Stores the peer's measured delay and target bitrate.
    pub fn record_quality(&mut self, values: Option<(i32, i32)>)
        ensures
            match values {
                Some((d, b)) => *final(self) == (ConnectionStatus {
                    delay_ms: d,
                    target_bitrate_kb: b,
                    ..*old(self)
                }),
                None => *final(self) == *old(self),
            },
    {
        if let Some((d, b)) = values {
            self.delay_ms = d;
            self.target_bitrate_kb = b;
        }
    }
}

/// What the receive loop of `session_id` does when its connection drops:
/// only the current session is marked lost. Marking it lost moves the
/// session id on (so that late work of the old session is ignored), clears
/// the reported connection and the displays, takes out the session's
/// message sender and, unless another holder has it, the stored connection.
/// Returns the file-transfer status to report ("failed", "connection lost"),
/// or `None` when the session was not current and nothing changed.
pub fn mark_connection_lost<S, C>(
    status: &mut ConnectionStatus,
    sender: &mut Option<(u64, S)>,
    connection: &mut Option<C>,
    connection_busy: bool,
    display: &mut DisplayState,
    session_id: u64,
) -> (r: Option<FileTransferStatus>)
    ensures
        (r is Some) == (old(status).session_id == session_id),
        r is None ==> {
            &&& *final(status) == *old(status)
            &&& *final(sender) == *old(sender)
            &&& *final(connection) == *old(connection)
            &&& *final(display) == *old(display)
        },
        r matches Some(f) ==> {
            &&& *final(status) == (ConnectionStatus {
                session_id: next_sequence(session_id),
                active: false,
                route: 0,
                transport: 0,
                delay_ms: 0,
                target_bitrate_kb: 0,
            })
            &&& f.session_id == next_sequence(session_id)
            &&& f.direction@ == "upload"@
            &&& f.state@ == "failed"@
            &&& f.error@ == "connection lost"@
            &&& f.transferred == 0 && f.total == 0
            &&& f.completed_items == 0 && f.total_items == 1
            &&& *final(sender) == without_session(*old(sender), session_id)
            &&& (!connection_busy ==> *final(connection) is None)
            &&& (connection_busy ==> *final(connection) == *old(connection))
            &&& display_state_is_reset(*final(display))
        },
{
    if status.session_id != session_id {
        return None;
    }
    let next = status.begin_session();
    let reason = "connection lost";
    let file_status = set_file_transfer_status(next, "failed", 0, 0, reason);
    proof {
        reveal_strlit("connection lost");
        assert forall|i: int| 0 <= i < reason@.len() implies !is_control(#[trigger] reason@[i]) by {
        }
        sanitized_text_is_clean(reason@, 512);
    }
    reset_display_state(display);
    clear_peer_message_sender_for_session(sender, session_id);
    if !connection_busy {
        *connection = None;
    }
    Some(file_status)
}

/// A peer's quality probe: its delay and target bitrate, unless the probe
/// is the client's own echoed back.
pub struct TestDelay {
    pub time: i64,
    pub from_client: bool,
    pub last_delay: u32,
    pub target_bitrate: u32,
}

pub open spec fn clamp_i32(v: u32) -> i32 {
    if v > i32::MAX {
        i32::MAX
    } else {
        v as i32
    }
}

pub fn test_delay_quality_values(delay: &TestDelay) -> (r: Option<(i32, i32)>)
    ensures
        r == (if delay.from_client {
            None
        } else {
            Some((clamp_i32(delay.last_delay), clamp_i32(delay.target_bitrate)))
        }),
{
    if delay.from_client {
        return None;
    }
    let d: i32 = if delay.last_delay > 2147483647u32 {
        i32::MAX
    } else {
        delay.last_delay as i32
    };
    let b: i32 = if delay.target_bitrate > 2147483647u32 {
        i32::MAX
    } else {
        delay.target_bitrate as i32
    };
    Some((d, b))
}

/// A probe from the peer is answered; one the client sent itself is not.
pub fn should_answer_test_delay(delay: &TestDelay) -> (r: bool)
    ensures
        r == !delay.from_client,
{
    !delay.from_client
}

// ------------------------------------------------------------ message slots

/// Empties a slot that holds the message sender of some session.
pub fn clear_peer_message_sender<S>(slot: &mut Option<(u64, S)>)
    ensures
        (*final(slot)) is None,
{
    *slot = None;
}

/// Empties the sender slot only when it holds the sender of `session_id`.
/// Registers the message sender or the task of a newly connected session:
/// the slot then holds `value` for `session_id`, whatever it held before.
pub fn register_for_session<T>(slot: &mut Option<(u64, T)>, session_id: u64, value: T)
    ensures
        *final(slot) == Some((session_id, value)),
{
    *slot = Some((session_id, value));
}

/// The slot with the entry of `session_id` taken out; another session's
/// entry stays.
pub open spec fn without_session<S>(slot: Option<(u64, S)>, session_id: u64) -> Option<(u64, S)> {
    match slot {
        Some((id, s)) => if id == session_id {
            None
        } else {
            Some((id, s))
        },
        None => None,
    }
}

pub fn clear_peer_message_sender_for_session<S>(slot: &mut Option<(u64, S)>, session_id: u64)
    ensures
        *final(slot) == without_session(*old(slot), session_id),
        ((*old(slot)) matches Some((id, _)) && id == session_id) ==> (*final(slot)) is None,
        !((*old(slot)) matches Some((id, _)) && id == session_id) ==> *final(slot) == *old(slot),
{
    let matches_session = match slot {
        Some((id, _)) => *id == session_id,
        None => false,
    };
    if matches_session {
        *slot = None;
    }
}

/// Drops the session's message sender, then the stored connection when it
/// still belongs to the current session. `connection_busy` says that the
/// connection could not be locked; then the connection stays and the result
/// is `false`.
pub fn clear_connection_for_session<S, C>(
    sender: &mut Option<(u64, S)>,
    connection: &mut Option<C>,
    connection_busy: bool,
    current_session: u64,
    session_id: u64,
) -> (r: bool)
    ensures
        (*final(sender)) is None,
        r == !connection_busy,
        (!connection_busy && current_session == session_id) ==> (*final(connection)) is None,
        (connection_busy || current_session != session_id) ==> *final(connection) == *old(
            connection,
        ),
{
    clear_peer_message_sender(sender);
    if connection_busy {
        return false;
    }
    if current_session == session_id {
        *connection = None;
    }
    true
}

/// The sender a graceful close of `session_id` goes through: the stored one
/// if it belongs to that session. Without it the close cannot be requested.
pub fn request_graceful_peer_close<S>(slot: &Option<(u64, S)>, session_id: u64) -> (r: Option<&S>)
    ensures
        match *slot {
            Some((id, s)) => if id == session_id {
                r == Some(&s)
            } else {
                r is None
            },
            None => r is None,
        },
{
    match slot {
        Some((id, s)) => if *id == session_id {
            Some(s)
        } else {
            None
        },
        None => None,
    }
}

/// Takes the task control of `session_id` out of its slot; the task is to be
/// aborted at once when the graceful close did not complete. Another
/// session's control stays where it is.
pub fn finish_peer_task<C>(slot: &mut Option<(u64, C)>, session_id: u64, graceful_close_completed: bool) -> (r:
    Option<(C, bool)>)
    ensures
        match *old(slot) {
            Some((id, c)) => if id == session_id {
                (*final(slot)) is None && r == Some((c, !graceful_close_completed))
            } else {
                *final(slot) == *old(slot) && r is None
            },
            None => (*final(slot)) is None && r is None,
        },
{
    let matches_session = match slot {
        Some((id, _)) => *id == session_id,
        None => false,
    };
    if !matches_session {
        return None;
    }
    match slot.take() {
        Some((_, c)) => Some((c, !graceful_close_completed)),
        None => None,
    }
}


// ------------------------------------------------------------ displays

/// One display of the peer: its rectangle and whether the cursor is drawn
/// into its video.
#[derive(Clone, Copy, Debug, PartialEq, Eq, Structural)]
pub struct DisplayInfo {
    pub x: i32,
    pub y: i32,
    pub width: i32,
    pub height: i32,
    pub cursor_embedded: bool,
}

/// The rectangle assumed for a display the peer has not described.
pub open spec fn default_display() -> DisplayInfo {
    DisplayInfo { x: 0, y: 0, width: 1920, height: 1080, cursor_embedded: false }
}

/// What the client knows of the peer's screen and platform.
pub struct DisplayState {
    pub display_count: i32,
    pub current_display: i32,
    pub displays: Vec<DisplayInfo>,
    /// The peer tags video frames with their display (version 1.2.4 on).
    pub multi_display_frames: bool,
    pub last_dropped_frame_log_ms: u64,
    pub peer_is_android: bool,
    pub peer_sas_enabled: bool,
    pub peer_platform: String,
    pub peer_version: String,
    pub cursor: CursorState,
}

/// The state before any peer was seen, and after a reset, apart from the
/// cursor's counters.
pub open spec fn display_state_is_reset(s: DisplayState) -> bool {
    &&& s.display_count == 1
    &&& s.current_display == 0
    &&& s.displays@.len() == 0
    &&& !s.multi_display_frames
    &&& s.last_dropped_frame_log_ms == 0
    &&& !s.peer_is_android
    &&& !s.peer_sas_enabled
    &&& s.peer_platform@.len() == 0
    &&& s.peer_version@.len() == 0
    &&& !s.cursor.valid
    &&& !s.cursor.image_valid
    &&& s.cursor.image_id == 0
    &&& s.cursor.images@ == Map::<u64, CursorImageModel>::empty()
}

impl DisplayState {
    pub fn new() -> (r: DisplayState)
        ensures
            display_state_is_reset(r),
    {
        DisplayState {
            display_count: 1,
            current_display: 0,
            displays: Vec::new(),
            multi_display_frames: false,
            last_dropped_frame_log_ms: 0,
            peer_is_android: false,
            peer_sas_enabled: false,
            peer_platform: String::new(),
            peer_version: String::new(),
            cursor: CursorState::new(),
        }
    }
}

/// Forgets everything about the previous peer's screen; the cursor counters
/// move on so that a stale cursor is never shown as current.
pub fn reset_display_state(state: &mut DisplayState)
    ensures
        display_state_is_reset(*final(state)),
        final(state).cursor.sequence == next_sequence(old(state).cursor.sequence),
        final(state).cursor.image_sequence == next_sequence(old(state).cursor.image_sequence),
{
    state.display_count = 1;
    state.current_display = 0;
    state.displays = Vec::new();
    state.multi_display_frames = false;
    state.last_dropped_frame_log_ms = 0;
    state.peer_is_android = false;
    state.peer_sas_enabled = false;
    state.peer_platform = String::new();
    state.peer_version = String::new();
    state.cursor.reset();
}

/// The display shown: the selected one when it was described, else the
/// default rectangle.
pub open spec fn spec_current_display(displays: Seq<DisplayInfo>, current: i32) -> DisplayInfo {
    let index = if current < 0 {
        0
    } else {
        current as int
    };
    if index < displays.len() {
        displays[index]
    } else {
        default_display()
    }
}

pub fn current_display_info(state: &DisplayState) -> (r: DisplayInfo)
    ensures
        r == spec_current_display(state.displays@, state.current_display),
{
    let index: usize = if state.current_display < 0 {
        0
    } else {
        state.current_display as usize
    };
    if index < state.displays.len() {
        state.displays[index]
    } else {
        DisplayInfo { x: 0, y: 0, width: 1920, height: 1080, cursor_embedded: false }
    }
}

/// `(x, y, width, height)` of the display shown.
pub fn current_display_rect(state: &DisplayState) -> (r: (i32, i32, i32, i32))
    ensures
        ({
            let d = spec_current_display(state.displays@, state.current_display);
            r == (d.x, d.y, d.width, d.height)
        }),
{
    let d = current_display_info(state);
    (d.x, d.y, d.width, d.height)
}

/// The top-left corner of the display shown.
pub fn current_display_origin(state: &DisplayState) -> (r: (i32, i32))
    ensures
        ({
            let d = spec_current_display(state.displays@, state.current_display);
            r == (d.x, d.y)
        }),
{
    let d = current_display_info(state);
    (d.x, d.y)
}

/// Whether the cursor is drawn into the video of the display shown; `false`
/// for a display the peer did not describe.
pub fn is_remote_cursor_embedded(state: &DisplayState) -> (r: bool)
    ensures
        r == spec_current_display(state.displays@, state.current_display).cursor_embedded,
{
    current_display_info(state).cursor_embedded
}

/// The number of displays reported: never below one.
pub fn reported_display_count(state: &DisplayState) -> (r: i32)
    ensures
        r == (if state.display_count < 1 {
            1
        } else {
            state.display_count
        }),
{
    if state.display_count < 1 {
        1
    } else {
        state.display_count
    }
}

/// Selects the display shown. Negative indices are refused (`-1`).
pub fn select_display(state: &mut DisplayState, display: i32) -> (r: i32)
    ensures
        display < 0 ==> r == -1 && final(state).current_display == old(state).current_display,
        display >= 0 ==> r == 0 && final(state).current_display == display,
        final(state).displays@ == old(state).displays@,
        final(state).display_count == old(state).display_count,
{
    if display < 0 {
        return -1;
    }
    state.current_display = display;
    0
}

/// Whether `platform` names Android, ignoring ASCII case.
pub open spec fn is_android_platform(platform: Seq<char>) -> bool {
    lower(platform) == "android"@
}

/// Whether a peer of `version` tags video frames with their display.
pub open spec fn tags_display_frames(version: Seq<char>) -> bool {
    trim(version).len() > 0 && spec_version_at_least(version, seq![1u32, 2u32, 4u32])
}

/// Takes in the peer description sent with a successful login.
pub fn apply_peer_info(
    state: &mut DisplayState,
    platform: String,
    version: String,
    sas_enabled: bool,
    displays: Vec<DisplayInfo>,
    current_display: i32,
)
    requires
        displays@.len() <= i32::MAX,
    ensures
        final(state).peer_is_android == is_android_platform(platform@),
        final(state).peer_sas_enabled == sas_enabled,
        final(state).peer_platform@ == platform@,
        final(state).peer_version@ == version@,
        final(state).multi_display_frames == tags_display_frames(version@),
        final(state).display_count == (if displays@.len() == 0 {
            1
        } else {
            displays@.len() as int
        }),
        final(state).current_display == current_display,
        final(state).displays@ == displays@,
        final(state).last_dropped_frame_log_ms == old(state).last_dropped_frame_log_ms,
{
    let p = chars_of(platform.as_str());
    let lowered = lower_chars(&p);
    let android = chars_of("android");
    state.peer_is_android = chars_equal(&lowered, &android);
    state.peer_sas_enabled = sas_enabled;
    let trimmed = trimmed_chars(version.as_str());
    state.multi_display_frames = trimmed.len() > 0 && version_at_least(version.as_str(), [1, 2, 4]);
    assert([1u32, 2u32, 4u32]@ =~= seq![1u32, 2u32, 4u32]);
    let n = displays.len();
    state.display_count = if n == 0 {
        1
    } else {
        n as i32
    };
    state.current_display = current_display;
    state.displays = displays;
    state.peer_platform = platform;
    state.peer_version = version;
}

/// What a display switch from the peer leaves in the display list: the
/// list grown with default rectangles up to the display, and the display
/// described anew, keeping its old size where the new one is not positive.
pub open spec fn spec_switched_displays(
    displays: Seq<DisplayInfo>,
    display: i32,
    x: i32,
    y: i32,
    width: i32,
    height: i32,
    cursor_embedded: bool,
) -> Seq<DisplayInfo> {
    let index = if display < 0 {
        0
    } else {
        display as int
    };
    let grown = if displays.len() <= index {
        displays + Seq::new((index + 1 - displays.len()) as nat, |i: int| default_display())
    } else {
        displays
    };
    let previous = grown[index];
    grown.update(
        index,
        DisplayInfo {
            x,
            y,
            width: if width > 0 {
                width
            } else {
                previous.width
            },
            height: if height > 0 {
                height
            } else {
                previous.height
            },
            cursor_embedded,
        },
    )
}

/// Takes in a display switch the peer confirmed. The selection made here
/// stays: an old confirmation must not switch the view back.
pub fn apply_switch_display(
    state: &mut DisplayState,
    display: i32,
    x: i32,
    y: i32,
    width: i32,
    height: i32,
    cursor_embedded: bool,
)
    ensures
        final(state).displays@ == spec_switched_displays(
            old(state).displays@,
            display,
            x,
            y,
            width,
            height,
            cursor_embedded,
        ),
        final(state).current_display == old(state).current_display,
        final(state).cursor.sequence == next_sequence(old(state).cursor.sequence),
{
    let index: usize = if display < 0 {
        0
    } else {
        display as usize
    };
    let ghost old_d = state.displays@;
    let ghost target: int = index as int;
    let mut list: Vec<DisplayInfo> = Vec::new();
    std::mem::swap(&mut list, &mut state.displays);
    while list.len() <= index
        invariant
            index as int == target,
            old_d.len() <= list@.len(),
            list@.len() <= (if old_d.len() <= target {
                target + 1
            } else {
                old_d.len() as int
            }),
            list@ == old_d + Seq::new(
                (list@.len() - old_d.len()) as nat,
                |i: int| default_display(),
            ),
        decreases index + 1 - list@.len(),
    {
        list.push(DisplayInfo { x: 0, y: 0, width: 1920, height: 1080, cursor_embedded: false });
        assert(list@ =~= old_d + Seq::new(
            (list@.len() - old_d.len()) as nat,
            |i: int| default_display(),
        ));
    }
    let previous = list[index];
    let updated = DisplayInfo {
        x,
        y,
        width: if width > 0 {
            width
        } else {
            previous.width
        },
        height: if height > 0 {
            height
        } else {
            previous.height
        },
        cursor_embedded,
    };
    list.set(index, updated);
    proof {
        if old_d.len() <= target {
            assert(old_d + Seq::new((list@.len() - old_d.len()) as nat, |i: int| default_display())
                =~= old_d + Seq::new((target + 1 - old_d.len()) as nat, |i: int| default_display()));
        } else {
            assert(old_d + Seq::new((list@.len() - old_d.len()) as nat, |i: int| default_display())
                =~= old_d);
        }
        assert(list@ =~= spec_switched_displays(old_d, display, x, y, width, height, cursor_embedded));
    }
    state.displays = list;
    state.cursor.sequence = bump_sequence(state.cursor.sequence);
}

// ------------------------------------------------------------ video

/// A frame tagged with a display only reaches the surface when it is the
/// selected display; peers that do not tag frames always reach it.
pub fn should_forward_video_display(frame_display: i32, current_display: i32, supports_display_tag: bool) -> (r:
    bool)
    ensures
        r == (!supports_display_tag || frame_display == current_display),
{
    !supports_display_tag || frame_display == current_display
}

/// Whether at least `interval` ms passed since `*last`; if so `*last`
/// becomes `now`.
pub fn due_since(last: &mut u64, now: u64, interval: u64) -> (r: bool)
    ensures
        r == (saturating_diff(now, *old(last)) >= interval),
        r ==> *final(last) == now,
        !r ==> *final(last) == *old(last),
{
    let elapsed = if now >= *last {
        now - *last
    } else {
        0
    };
    if elapsed < interval {
        return false;
    }
    *last = now;
    true
}

pub open spec fn saturating_diff(a: u64, b: u64) -> u64 {
    if a >= b {
        (a - b) as u64
    } else {
        0
    }
}

/// The peer hears that video arrives at most once a second.
pub fn queue_video_received_if_due(last: &mut u64, now: u64) -> (r: bool)
    ensures
        r == (saturating_diff(now, *old(last)) >= 1000),
        r ==> *final(last) == now,
        !r ==> *final(last) == *old(last),
{
    due_since(last, now, 1000)
}

/// A frame-rate hint goes out at most every three seconds.
pub fn fps_hint_due(last: &mut u64, now: u64) -> (r: bool)
    ensures
        r == (saturating_diff(now, *old(last)) >= 3000),
        r ==> *final(last) == now,
        !r ==> *final(last) == *old(last),
{
    due_since(last, now, 3000)
}

/// A dropped frame of another display is logged at most every two seconds.
pub fn dropped_frame_log_due(last: &mut u64, now: u64) -> (r: bool)
    ensures
        r == (saturating_diff(now, *old(last)) >= 2000),
        r ==> *final(last) == now,
        !r ==> *final(last) == *old(last),
{
    due_since(last, now, 2000)
}


// ------------------------------------------------------------ protocol ids

/// The bits of a random UUID: version 4 in the version nibble (bits 76 to
/// 79) and the RFC 4122 variant `10` in bits 62 and 63.
pub open spec fn is_random_uuid(bits: u128) -> bool {
    (bits >> 76u128) & 0xfu128 == 4 && (bits >> 62u128) & 0x3u128 == 2
}

/// The bits of a fresh random (version 4) UUID: `uuid::Uuid::new_v4` read
/// as a `u128`. `new_v4` masks in the version and variant bits; the others
/// are random and nothing is claimed of them.
#[verifier::external_body]
fn random_uuid_bits() -> (r: u128)
    ensures
        is_random_uuid(r),
{
    uuid::Uuid::new_v4().as_u128()
}

/// Byte `i` of `bits` in big-endian order, as `Uuid::from_u128` lays them out.
pub open spec fn be_byte(bits: u128, i: int) -> u8 {
    ((bits >> ((8 * (15 - i)) as u128)) & 0xffu128) as u8
}

pub open spec fn be_bytes(bits: u128) -> Seq<u8> {
    Seq::new(16, |i: int| be_byte(bits, i))
}

/// A UUID in its hyphenated lowercase form,
/// `xxxxxxxx-xxxx-xxxx-xxxx-xxxxxxxxxxxx`: the hex of its 16 bytes with a
/// hyphen after the 4th, 6th, 8th and 10th.
pub open spec fn spec_uuid_text(bits: u128) -> Seq<char> {
    let h = hex_lower(be_bytes(bits));
    h.subrange(0, 8) + seq!['-'] + h.subrange(8, 12) + seq!['-'] + h.subrange(12, 16) + seq!['-']
        + h.subrange(16, 20) + seq!['-'] + h.subrange(20, 32)
}

/// `Uuid::from_u128(bits).to_string()`: `uuid`'s `Display` writes the
/// hyphenated lowercase hex of the UUID's bytes, big-endian.
#[verifier::external_body]
fn uuid_text(bits: u128) -> (r: String)
    ensures
        r@ == spec_uuid_text(bits),
{
    uuid::Uuid::from_u128(bits).to_string()
}

/// A fresh random UUID in hyphenated form, as a relay request carries it.
/// Which UUID is left to chance; its form is stated.
pub fn new_relay_uuid() -> (r: String)
    ensures
        exists|bits: u128| is_random_uuid(bits) && r@ == #[trigger] spec_uuid_text(bits),
        r@.len() == 36,
{
    let bits = random_uuid_bits();
    let r = uuid_text(bits);
    assert(is_random_uuid(bits) && r@ == spec_uuid_text(bits));
    assert(hex_lower(be_bytes(bits)).len() == 32);
    r
}

/// The session id announced at login, folded from a UUID: its two halves
/// xor-ed; never 0.
pub open spec fn spec_fold_uuid(bits: u128) -> u64 {
    let folded = (bits as u64) ^ ((bits >> 64u128) as u64);
    if folded == 0 {
        1
    } else {
        folded
    }
}

pub fn protocol_session_id_from(bits: u128) -> (r: u64)
    ensures
        r == spec_fold_uuid(bits),
        r != 0,
{
    let folded = (bits as u64) ^ ((bits >> 64u128) as u64);
    if folded == 0 {
        1
    } else {
        folded
    }
}

/// A fresh login session id from a random UUID; never 0.
pub fn new_protocol_session_id() -> (r: u64)
    ensures
        exists|bits: u128| is_random_uuid(bits) && r == #[trigger] spec_fold_uuid(bits),
        r != 0,
{
    let bits = random_uuid_bits();
    let r = protocol_session_id_from(bits);
    assert(is_random_uuid(bits) && r == spec_fold_uuid(bits));
    r
}


/// Once a session is marked lost, the session id has moved on: a second
/// report of the same loss changes nothing.
pub proof fn connection_lost_only_once(s: u64)
    ensures
        next_sequence(s) != s,
{
}

} // verus!
