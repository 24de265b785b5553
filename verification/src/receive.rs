//! The receive loop of a session: what each incoming message is logged as,
//! what a queued command leads to, how a login answer is read, and what the
//! loop leaves behind when it ends.
use crate::files::{spec_sanitize, sanitize_remote_value};
use crate::session::{ConnectionStatus, next_sequence, without_session};
use crate::connect::str_equal;
use vstd::prelude::*;

verus! {

// ------------------------------------------------------------ incoming

/// The kinds of peer message the client tells apart.
#[derive(Clone, Copy, Debug, PartialEq, Eq, Structural)]
pub enum PeerMessageKind {
    Hash,
    LoginResponse,
    VideoFrame,
    TestDelay,
    Clipboard,
    MultiClipboards,
    AudioFrame,
    FileResponse,
    CursorData,
    CursorPosition,
    CursorId,
    /// A miscellaneous message, by its own kind.
    Misc(MiscKind),
    Unhandled,
    Empty,
    ParseError,
}

/// The kinds of miscellaneous message the client tells apart.
#[derive(Clone, Copy, Debug, PartialEq, Eq, Structural)]
pub enum MiscKind {
    AudioFormat,
    SwitchDisplay,
    CloseReason,
    Other,
    Empty,
}

pub open spec fn spec_message_label(kind: PeerMessageKind) -> Seq<char> {
    match kind {
        PeerMessageKind::Hash => "hash"@,
        PeerMessageKind::LoginResponse => "login_response"@,
        PeerMessageKind::VideoFrame => "video_frame"@,
        PeerMessageKind::TestDelay => "test_delay"@,
        PeerMessageKind::Clipboard => "clipboard"@,
        PeerMessageKind::MultiClipboards => "multi_clipboards"@,
        PeerMessageKind::AudioFrame => "audio_frame"@,
        PeerMessageKind::FileResponse => "file_response"@,
        PeerMessageKind::CursorData => "cursor_data"@,
        PeerMessageKind::CursorPosition => "cursor_position"@,
        PeerMessageKind::CursorId => "cursor_id"@,
        PeerMessageKind::Misc(MiscKind::AudioFormat) => "misc_audio_format"@,
        PeerMessageKind::Misc(MiscKind::SwitchDisplay) => "misc_switch_display"@,
        PeerMessageKind::Misc(MiscKind::CloseReason) => "misc_close_reason"@,
        PeerMessageKind::Misc(MiscKind::Other) => "misc_other"@,
        PeerMessageKind::Misc(MiscKind::Empty) => "misc_empty"@,
        PeerMessageKind::Unhandled => "unhandled"@,
        PeerMessageKind::Empty => "empty"@,
        PeerMessageKind::ParseError => "parse_error"@,
    }
}

/// The label a handled message is counted and logged under.
pub fn message_label(kind: PeerMessageKind) -> (r: &'static str)
    ensures
        r@ == spec_message_label(kind),
{
    match kind {
        PeerMessageKind::Hash => "hash",
        PeerMessageKind::LoginResponse => "login_response",
        PeerMessageKind::VideoFrame => "video_frame",
        PeerMessageKind::TestDelay => "test_delay",
        PeerMessageKind::Clipboard => "clipboard",
        PeerMessageKind::MultiClipboards => "multi_clipboards",
        PeerMessageKind::AudioFrame => "audio_frame",
        PeerMessageKind::FileResponse => "file_response",
        PeerMessageKind::CursorData => "cursor_data",
        PeerMessageKind::CursorPosition => "cursor_position",
        PeerMessageKind::CursorId => "cursor_id",
        PeerMessageKind::Misc(MiscKind::AudioFormat) => "misc_audio_format",
        PeerMessageKind::Misc(MiscKind::SwitchDisplay) => "misc_switch_display",
        PeerMessageKind::Misc(MiscKind::CloseReason) => "misc_close_reason",
        PeerMessageKind::Misc(MiscKind::Other) => "misc_other",
        PeerMessageKind::Misc(MiscKind::Empty) => "misc_empty",
        PeerMessageKind::Unhandled => "unhandled",
        PeerMessageKind::Empty => "empty",
        PeerMessageKind::ParseError => "parse_error",
    }
}

/// Counters of what a receive loop saw.
#[derive(Clone, Copy, Debug, PartialEq, Eq, Structural)]
pub struct ReceiveStats {
    pub received: u64,
    pub video: u64,
    pub test_delay: u64,
    pub misc: u64,
    pub last_kind: PeerMessageKind,
}

impl ReceiveStats {
    pub fn new() -> (r: ReceiveStats)
        ensures
            r == (ReceiveStats {
                received: 0,
                video: 0,
                test_delay: 0,
                misc: 0,
                last_kind: PeerMessageKind::Empty,
            }),
    {
        ReceiveStats { received: 0, video: 0, test_delay: 0, misc: 0, last_kind: PeerMessageKind::Empty }
    }

    /// Counts one handled message.
    pub fn count(&mut self, kind: PeerMessageKind)
        requires
            old(self).received < u64::MAX,
            old(self).video < u64::MAX,
            old(self).test_delay < u64::MAX,
            old(self).misc < u64::MAX,
        ensures
            final(self).received == old(self).received + 1,
            final(self).video == old(self).video + (if kind == PeerMessageKind::VideoFrame {
                1int
            } else {
                0int
            }),
            final(self).test_delay == old(self).test_delay + (if kind == PeerMessageKind::TestDelay {
                1int
            } else {
                0int
            }),
            final(self).misc == old(self).misc + (if kind is Misc {
                1int
            } else {
                0int
            }),
            final(self).last_kind == kind,
    {
        self.received = self.received + 1;
        match kind {
            PeerMessageKind::VideoFrame => {
                self.video = self.video + 1;
            },
            PeerMessageKind::TestDelay => {
                self.test_delay = self.test_delay + 1;
            },
            PeerMessageKind::Misc(_) => {
                self.misc = self.misc + 1;
            },
            _ => {},
        }
        self.last_kind = kind;
    }
}

/// What a login answer leads to.
#[derive(Clone, Copy, Debug, PartialEq, Eq, Structural)]
pub enum LoginOutcome {
    /// The peer wants a two-factor code.
    TwoFactorRequired,
    /// The two-factor code was wrong; the user may try again.
    WrongTwoFactor,
    /// Any other error: the session is closed.
    Refused,
}

pub fn login_error_outcome(error: &str) -> (r: LoginOutcome)
    ensures
        r == (if error@ == "2FA Required"@ {
            LoginOutcome::TwoFactorRequired
        } else if error@ == "Wrong 2FA Code"@ {
            LoginOutcome::WrongTwoFactor
        } else {
            LoginOutcome::Refused
        }),
{
    if str_equal(error, "2FA Required") {
        LoginOutcome::TwoFactorRequired
    } else if str_equal(error, "Wrong 2FA Code") {
        LoginOutcome::WrongTwoFactor
    } else {
        LoginOutcome::Refused
    }
}

/// The close reason the peer gave, cleaned for the log; `empty` for none.
pub fn close_reason_for_log(reason: &str) -> (r: String)
    ensures
        r@ == (if spec_sanitize(reason@, 256).len() == 0 {
            "empty"@
        } else {
            spec_sanitize(reason@, 256)
        }),
{
    let cleaned = sanitize_remote_value(reason, 256);
    if cleaned.as_str().is_empty() {
        let v = crate::text::chars_of("empty");
        crate::text::string_from_chars(&v)
    } else {
        cleaned
    }
}

// ------------------------------------------------------------ commands

/// The commands queued for a session's connection.
#[derive(Clone, Copy, Debug, PartialEq, Eq, Structural)]
pub enum CommandKind {
    Message,
    StartUpload,
    StartDownload,
    CancelTransfer,
    Close,
}

/// What the receive loop does with a queued command.
#[derive(Clone, Copy, Debug, PartialEq, Eq, Structural)]
pub enum CommandAction {
    /// The command belongs to an older session.
    SkipStale,
    /// Send the message; a send error loses the connection.
    Send,
    /// Replace any upload with this one and send its request.
    StartUpload,
    /// Downloads go through the file session; report a failure.
    RejectDownload,
    /// Report the transfer as cancelled.
    ReportCancelled,
    /// Send a close reason, wait for the peer to close, and stop.
    Close,
}

/// What the task does with a command: one queued for another session than
/// the current one is skipped; the others are carried out by kind.
pub open spec fn spec_command_action(current_session: u64, command_session: u64, kind: CommandKind) -> CommandAction {
    if current_session != command_session {
        CommandAction::SkipStale
    } else {
        match kind {
            CommandKind::Message => CommandAction::Send,
            CommandKind::StartUpload => CommandAction::StartUpload,
            CommandKind::StartDownload => CommandAction::RejectDownload,
            CommandKind::CancelTransfer => CommandAction::ReportCancelled,
            CommandKind::Close => CommandAction::Close,
        }
    }
}

/// Whether carrying out the action writes to the peer's stream.
pub open spec fn writes_to_peer(action: CommandAction) -> bool {
    action is Send || action is StartUpload || action is Close
}

pub fn peer_command_action(current_session: u64, command_session: u64, kind: CommandKind) -> (r:
    CommandAction)
    ensures
        r == spec_command_action(current_session, command_session, kind),
        current_session != command_session ==> r == CommandAction::SkipStale,
        current_session == command_session ==> r == match kind {
            CommandKind::Message => CommandAction::Send,
            CommandKind::StartUpload => CommandAction::StartUpload,
            CommandKind::StartDownload => CommandAction::RejectDownload,
            CommandKind::CancelTransfer => CommandAction::ReportCancelled,
            CommandKind::Close => CommandAction::Close,
        },
{
    if current_session != command_session {
        return CommandAction::SkipStale;
    }
    match kind {
        CommandKind::Message => CommandAction::Send,
        CommandKind::StartUpload => CommandAction::StartUpload,
        CommandKind::StartDownload => CommandAction::RejectDownload,
        CommandKind::CancelTransfer => CommandAction::ReportCancelled,
        CommandKind::Close => CommandAction::Close,
    }
}

/// How long the close handshake waits for the peer to close, in ms.
pub const CLOSE_WAIT_MS: u64 = 1200;

/// What one step of an upload reports: `Err(())` when the step failed,
/// `Ok(Some((finished, total)))` while a job runs, `Ok(None)` when all are done.
pub open spec fn spec_upload_report(step: Result<Option<(u64, u64)>, ()>, first_total: u64) -> (
    Seq<char>,
    u64,
    u64,
) {
    match step {
        Err(()) => ("failed"@, 0, first_total),
        Ok(Some((f, t))) => ("transferring"@, f, t),
        Ok(None) => ("completed"@, first_total, first_total),
    }
}

pub fn upload_report(step: Result<Option<(u64, u64)>, ()>, first_total: u64) -> (r: (&'static str, u64, u64))
    ensures
        (r.0@, r.1, r.2) == spec_upload_report(step, first_total),
{
    match step {
        Err(()) => ("failed", 0, first_total),
        Ok(Some((f, t))) => ("transferring", f, t),
        Ok(None) => ("completed", first_total, first_total),
    }
}

// ------------------------------------------------------------ the end

/// What the end of the receive loop of `session_id` leaves: when it is
/// still the current session the connection is reported gone (the session
/// id stays), and the audio, display and sender are to be reset. Returns
/// whether that cleanup is due.
/// The status the end of the receive loop of `session_id` leaves, when its
/// session is still current; `None` when another session has taken over.
pub open spec fn spec_loop_end(status: ConnectionStatus, session_id: u64) -> Option<ConnectionStatus> {
    if status.session_id == session_id {
        Some(
            ConnectionStatus {
                session_id,
                active: false,
                route: 0,
                transport: 0,
                delay_ms: 0,
                target_bitrate_kb: 0,
            },
        )
    } else {
        None
    }
}

pub fn receive_loop_ended(status: &mut ConnectionStatus, session_id: u64) -> (r: bool)
    ensures
        r == spec_loop_end(*old(status), session_id) is Some,
        r ==> spec_loop_end(*old(status), session_id) == Some(*final(status)),
        r == (old(status).session_id == session_id),
        r ==> *final(status) == (ConnectionStatus {
            session_id,
            active: false,
            route: 0,
            transport: 0,
            delay_ms: 0,
            target_bitrate_kb: 0,
        }),
        !r ==> *final(status) == *old(status),
{
    if status.session_id != session_id {
        return false;
    }
    status.active = false;
    status.route = 0;
    status.transport = 0;
    status.delay_ms = 0;
    status.target_bitrate_kb = 0;
    true
}

/// A command as the receive loop takes it from the queue: the session that
/// was current at that moment, the session it was queued for, and its kind.
pub struct TakenCommand {
    pub current: u64,
    pub command_session: u64,
    pub kind: CommandKind,
}

/// The commands of a run of the loop that reach the peer's stream, in order.
pub open spec fn written_commands(run: Seq<TakenCommand>) -> Seq<TakenCommand>
    decreases run.len(),
{
    if run.len() == 0 {
        Seq::empty()
    } else {
        let rest = written_commands(run.drop_last());
        let last = run.last();
        if writes_to_peer(spec_command_action(last.current, last.command_session, last.kind)) {
            rest.push(last)
        } else {
            rest
        }
    }
}

proof fn lemma_written_are_current(run: Seq<TakenCommand>)
    ensures
        forall|i: int|
            0 <= i < written_commands(run).len() ==> (#[trigger] written_commands(run)[i]).command_session
                == written_commands(run)[i].current,
    decreases run.len(),
{
    if run.len() > 0 {
        lemma_written_are_current(run.drop_last());
    }
}

/// The task of a session serves only that session: over any run of its
/// loop it writes to the peer only commands queued for the session that was
/// current when it took them, and when the loop ends while its session is
/// current it leaves the connection inactive, without route or transport,
/// and no sender of that session.
pub proof fn session_task_serves_only_its_session<S>(
    run: Seq<TakenCommand>,
    status: ConnectionStatus,
    session_id: u64,
    sender: Option<(u64, S)>,
)
    ensures
        forall|i: int|
            0 <= i < written_commands(run).len() ==> (#[trigger] written_commands(run)[i]).command_session
                == written_commands(run)[i].current,
        status.session_id == session_id ==> (spec_loop_end(status, session_id) matches Some(s)
            && !s.active && s.route == 0 && s.transport == 0 && s.session_id == session_id),
        !(without_session(sender, session_id) matches Some((id, _)) && id == session_id),
{
    lemma_written_are_current(run);
}

/// The outcome of queueing a message for the peer: `-1` while not connected.
pub fn queue_guard(connected: bool) -> (r: i32)
    ensures
        r == (if connected {
            0i32
        } else {
            -1i32
        }),
{
    if connected {
        0
    } else {
        -1
    }
}

} // verus!
