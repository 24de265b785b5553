//! File transfer: which requests are accepted, how remote paths are built,
//! how text from the peer is cleaned, and the progress reported to the app.
use crate::text::{char_is_control, char_is_digit, chars_of, has_char, has_char_exec, is_control, is_digit, push_char, string_from_chars};
use vstd::prelude::*;
use vstd::utf8::encode_utf8;

verus! {

// ------------------------------------------------------------ remote text

/// `s` without its control characters.
pub open spec fn strip_controls(s: Seq<char>) -> Seq<char>
    decreases s.len(),
{
    if s.len() == 0 {
        s
    } else {
        let rest = strip_controls(s.drop_last());
        if is_control(s.last()) {
            rest
        } else {
            rest.push(s.last())
        }
    }
}

/// `value` without control characters, cut to `max_len` characters.
pub open spec fn spec_sanitize(value: Seq<char>, max_len: nat) -> Seq<char> {
    let kept = strip_controls(value);
    if kept.len() <= max_len {
        kept
    } else {
        kept.subrange(0, max_len as int)
    }
}

/// Makes text from the peer safe to show and log.
pub fn sanitize_remote_value(value: &str, max_len: usize) -> (r: String)
    ensures
        r@ == spec_sanitize(value@, max_len as nat),
{
    let v = chars_of(value);
    let mut r = String::new();
    let mut i: usize = 0;
    let mut taken: usize = 0;
    while i < v.len() && taken < max_len
        invariant
            i <= v@.len(),
            taken <= max_len,
            v@ == value@,
            r@ == strip_controls(v@.subrange(0, i as int)),
            taken == r@.len(),
        decreases v@.len() - i,
    {
        let c = v[i];
        proof {
            assert(v@.subrange(0, i + 1).drop_last() =~= v@.subrange(0, i as int));
            assert(v@.subrange(0, i + 1).last() == c);
        }
        if !char_is_control(c) {
            push_char(&mut r, c);
            taken = taken + 1;
        }
        i = i + 1;
    }
    proof {
        lemma_strip_prefix(v@, i as int);
        if i == v@.len() {
            assert(v@.subrange(0, i as int) =~= v@);
        }
    }
    r
}

/// Stripping a prefix gives a prefix of the stripped whole.
proof fn lemma_strip_prefix(s: Seq<char>, i: int)
    requires
        0 <= i <= s.len(),
    ensures
        strip_controls(s.subrange(0, i)).len() <= strip_controls(s).len(),
        strip_controls(s.subrange(0, i)) =~= strip_controls(s).subrange(
            0,
            strip_controls(s.subrange(0, i)).len() as int,
        ),
    decreases s.len() - i,
{
    if i < s.len() {
        lemma_strip_prefix(s, i + 1);
        let a = s.subrange(0, i);
        let b = s.subrange(0, i + 1);
        assert(b.drop_last() =~= a);
        assert(b.last() == s[i]);
    } else {
        assert(s.subrange(0, i) =~= s);
    }
}

// ------------------------------------------------------------ requests

/// A two-factor code is six ASCII digits.
pub open spec fn valid_2fa_code(code: Seq<char>) -> bool {
    code.len() == 6 && forall|i: int| 0 <= i < 6 ==> is_digit(#[trigger] code[i])
}

/// `0` for a code that may be sent, `-2` for any other.
pub fn check_2fa_code(code: &str) -> (r: i32)
    ensures
        r == (if valid_2fa_code(code@) {
            0i32
        } else {
            -2i32
        }),
{
    let v = chars_of(code);
    if v.len() != 6 {
        return -2;
    }
    let mut i: usize = 0;
    while i < 6
        invariant
            v@ == code@,
            v@.len() == 6,
            i <= 6,
            forall|k: int| 0 <= k < i ==> is_digit(#[trigger] v@[k]),
        decreases 6 - i,
    {
        if !char_is_digit(v[i]) {
            return -2;
        }
        i = i + 1;
    }
    0
}

/// The byte length of a text, as `str::len` counts it.
pub open spec fn byte_len(s: Seq<char>) -> nat {
    encode_utf8(s).len()
}

/// The directory asked for: `/` when none is given.
pub open spec fn spec_directory_request(path: Seq<char>) -> Result<Seq<char>, i32> {
    let p = if path.len() == 0 {
        "/"@
    } else {
        path
    };
    if byte_len(p) > 4096 || has_char(p, '\0') {
        Err(-2i32)
    } else {
        Ok(p)
    }
}

pub fn directory_request(path: &str) -> (r: Result<String, i32>)
    ensures
        match r {
            Ok(p) => spec_directory_request(path@) == Ok::<Seq<char>, i32>(p@),
            Err(c) => spec_directory_request(path@) == Err::<Seq<char>, i32>(c),
        },
{
    let p: &str = if path.is_empty() {
        "/"
    } else {
        path
    };
    let v = chars_of(p);
    if p.as_bytes().len() > 4096 || has_char_exec(&v, '\0') {
        return Err(-2);
    }
    Ok(string_from_chars(&v))
}

/// A file name must be non-empty, at most 255 bytes, without a separator or
/// NUL.
pub open spec fn valid_file_name(name: Seq<char>) -> bool {
    name.len() > 0 && byte_len(name) <= 255 && !has_char(name, '/') && !has_char(name, '\\')
        && !has_char(name, '\0')
}

/// An upload needs a valid file name and a remote directory of 1 to 4096 bytes.
pub fn check_upload_request(file_name: &str, remote_directory: &str) -> (r: i32)
    ensures
        r == (if valid_file_name(file_name@) && remote_directory@.len() > 0 && byte_len(
            remote_directory@,
        ) <= 4096 {
            0i32
        } else {
            -2i32
        }),
{
    let n = chars_of(file_name);
    if n.len() == 0 || file_name.as_bytes().len() > 255 || has_char_exec(&n, '/') || has_char_exec(
        &n,
        '\\',
    ) || has_char_exec(&n, '\0') || remote_directory.is_empty() || remote_directory.as_bytes().len()
        > 4096 {
        return -2;
    }
    0
}

/// The remote path of an upload: the directory and the name, joined with
/// the directory's own separator (`\` for Windows-style directories).
pub open spec fn spec_upload_path(dir: Seq<char>, name: Seq<char>) -> Seq<char> {
    let sep = if has_char(dir, '\\') || (dir.len() > 0 && dir.last() == ':') {
        '\\'
    } else {
        '/'
    };
    if dir.len() > 0 && (dir.last() == '/' || dir.last() == '\\') {
        dir + name
    } else {
        dir + seq![sep] + name
    }
}

pub fn upload_remote_path(dir: &str, name: &str) -> (r: String)
    ensures
        r@ == spec_upload_path(dir@, name@),
{
    let d = chars_of(dir);
    let n = chars_of(name);
    let last_sep = d.len() > 0 && (d[d.len() - 1] == '/' || d[d.len() - 1] == '\\');
    let sep = if has_char_exec(&d, '\\') || (d.len() > 0 && d[d.len() - 1] == ':') {
        '\\'
    } else {
        '/'
    };
    let mut r = string_from_chars(&d);
    if !last_sep {
        push_char(&mut r, sep);
    }
    crate::text::push_chars(&mut r, &n);
    r
}

/// One file or directory to download.
pub struct DownloadRequest {
    pub remote_path: String,
    pub local_name: String,
    pub is_directory: bool,
}

/// A download names a remote path of 1 to 4096 bytes without NUL, and a
/// valid local name other than `.` and `..`.
pub open spec fn valid_download(remote_path: Seq<char>, local_name: Seq<char>) -> bool {
    remote_path.len() > 0 && byte_len(remote_path) <= 4096 && !has_char(remote_path, '\0')
        && valid_file_name(local_name) && local_name != "."@ && local_name != ".."@
}

/// A download root is 1 to 4096 bytes without NUL.
pub open spec fn valid_local_root(root: Seq<char>) -> bool {
    root.len() > 0 && byte_len(root) <= 4096 && !has_char(root, '\0')
}

/// Checks a download batch: `-2` for a bad root, `-4` for no requests or
/// more than 100, `-6` when any request is invalid, `0` otherwise.
pub fn check_download_batch(local_root: &str, requests: &Vec<DownloadRequest>) -> (r: i32)
    ensures
        r == (if !valid_local_root(local_root@) {
            -2i32
        } else if requests@.len() == 0 || requests@.len() > 100 {
            -4i32
        } else if exists|i: int|
            0 <= i < requests@.len() && !valid_download(
                #[trigger] requests@[i].remote_path@,
                requests@[i].local_name@,
            ) {
            -6i32
        } else {
            0i32
        }),
{
    let root = chars_of(local_root);
    if root.len() == 0 || local_root.as_bytes().len() > 4096 || has_char_exec(&root, '\0') {
        return -2;
    }
    if requests.len() == 0 || requests.len() > 100 {
        return -4;
    }
    let mut i: usize = 0;
    while i < requests.len()
        invariant
            i <= requests@.len(),
            valid_local_root(local_root@),
            0 < requests@.len() <= 100,
            forall|k: int|
                0 <= k < i ==> valid_download(
                    #[trigger] requests@[k].remote_path@,
                    requests@[k].local_name@,
                ),
        decreases requests@.len() - i,
    {
        if !check_download(&requests[i]) {
            assert(!valid_download(requests@[i as int].remote_path@, requests@[i as int].local_name@));
            return -6;
        }
        i = i + 1;
    }
    0
}

fn check_download(req: &DownloadRequest) -> (r: bool)
    ensures
        r == valid_download(req.remote_path@, req.local_name@),
{
    let p = chars_of(req.remote_path.as_str());
    let n = chars_of(req.local_name.as_str());
    let dot = crate::connect::str_equal(req.local_name.as_str(), ".");
    let dotdot = crate::connect::str_equal(req.local_name.as_str(), "..");
    p.len() > 0 && req.remote_path.as_str().as_bytes().len() <= 4096 && !has_char_exec(&p, '\0')
        && n.len() > 0 && req.local_name.as_str().as_bytes().len() <= 255 && !has_char_exec(&n, '/') && !has_char_exec(
        &n,
        '\\',
    ) && !has_char_exec(&n, '\0') && !dot && !dotdot
}

// ------------------------------------------------------------ job ids

/// The first download job id, and the one the counter restarts at.
pub const FIRST_FILE_JOB_ID: i32 = 10000;

/// Hands out the next download job id. Near the top of the `i32` range the
/// counter restarts at `FIRST_FILE_JOB_ID`; ids are always positive.
pub fn next_file_job_id(counter: &mut i32) -> (r: i32)
    ensures
        r == (if *old(counter) < 1 {
            1
        } else {
            *old(counter)
        }),
        *final(counter) == (if *old(counter) >= i32::MAX - 1000 {
            FIRST_FILE_JOB_ID
        } else {
            (*old(counter) + 1) as i32
        }),
{
    let id = *counter;
    if id >= i32::MAX - 1000 {
        *counter = FIRST_FILE_JOB_ID;
    } else {
        *counter = id + 1;
    }
    if id < 1 {
        1
    } else {
        id
    }
}

/// The id of an upload job: the clock in milliseconds, reduced below `i32::MAX`.
pub fn upload_job_id(now_ms: u64) -> (r: i32)
    ensures
        r == now_ms % 2147483647,
        0 <= r < i32::MAX,
{
    (now_ms % 2147483647u64) as i32
}

// ------------------------------------------------------------ progress

/// The progress report shown to the app.
pub struct FileTransferStatus {
    pub session_id: u64,
    pub state: String,
    pub transferred: u64,
    pub total: u64,
    pub error: String,
    pub direction: String,
    pub completed_items: usize,
    pub total_items: usize,
}

/// A progress report; the error text is sanitized to 512 characters.
pub fn file_transfer_status_detail(
    session_id: u64,
    direction: &str,
    state: &str,
    transferred: u64,
    total: u64,
    error: &str,
    completed_items: usize,
    total_items: usize,
) -> (r: FileTransferStatus)
    ensures
        r.session_id == session_id,
        r.direction@ == direction@,
        r.state@ == state@,
        r.transferred == transferred,
        r.total == total,
        r.error@ == spec_sanitize(error@, 512),
        r.completed_items == completed_items,
        r.total_items == total_items,
{
    let d = chars_of(direction);
    let s = chars_of(state);
    FileTransferStatus {
        session_id,
        state: string_from_chars(&s),
        transferred,
        total,
        error: sanitize_remote_value(error, 512),
        direction: string_from_chars(&d),
        completed_items,
        total_items,
    }
}

/// An upload's progress report: one item.
pub fn set_file_transfer_status(session_id: u64, state: &str, transferred: u64, total: u64, error: &str) -> (r:
    FileTransferStatus)
    ensures
        r.session_id == session_id,
        r.direction@ == "upload"@,
        r.state@ == state@,
        r.transferred == transferred,
        r.total == total,
        r.error@ == spec_sanitize(error@, 512),
        r.completed_items == 0,
        r.total_items == 1,
{
    file_transfer_status_detail(session_id, "upload", state, transferred, total, error, 0, 1)
}

/// Progress of a batch of downloads.
#[derive(Clone, Copy, Debug, PartialEq, Eq, Structural)]
pub struct DownloadBatchState {
    pub active: bool,
    pub total_jobs: usize,
    pub completed_jobs: usize,
    pub completed_bytes: u64,
    pub total_bytes: u64,
}

pub open spec fn sat_add(a: u64, b: u64) -> u64 {
    if a + b > u64::MAX {
        u64::MAX
    } else {
        (a + b) as u64
    }
}

pub open spec fn sum_of(s: Seq<u64>) -> int
    decreases s.len(),
{
    if s.len() == 0 {
        0
    } else {
        sum_of(s.drop_last()) + s.last()
    }
}

/// The sum of `values`; it must fit in a `u64`.
pub fn sum_u64(values: &Vec<u64>) -> (r: u64)
    requires
        sum_of(values@) <= u64::MAX,
    ensures
        r == sum_of(values@),
{
    let mut total: u64 = 0;
    let mut i: usize = 0;
    while i < values.len()
        invariant
            i <= values@.len(),
            total == sum_of(values@.subrange(0, i as int)),
            sum_of(values@) <= u64::MAX,
        decreases values@.len() - i,
    {
        proof {
            assert(values@.subrange(0, i + 1).drop_last() =~= values@.subrange(0, i as int));
            lemma_sum_prefix(values@, i + 1);
        }
        total = total + values[i];
        i = i + 1;
    }
    assert(values@.subrange(0, values@.len() as int) =~= values@);
    total
}

proof fn lemma_sum_prefix(s: Seq<u64>, i: int)
    requires
        0 <= i <= s.len(),
    ensures
        sum_of(s.subrange(0, i)) <= sum_of(s),
    decreases s.len() - i,
{
    if i < s.len() {
        lemma_sum_prefix(s, i + 1);
        assert(s.subrange(0, i + 1).drop_last() =~= s.subrange(0, i));
    } else {
        assert(s.subrange(0, i) =~= s);
    }
}

/// `(transferred, total)` of a download batch: the bytes of finished jobs
/// plus those of the running ones, never a total below the announced one.
pub fn download_progress(state: &DownloadBatchState, active_finished: u64, active_total: u64) -> (r: (
    u64,
    u64,
))
    ensures
        r.0 == sat_add(state.completed_bytes, active_finished),
        r.1 == (if state.total_bytes >= sat_add(state.completed_bytes, active_total) {
            state.total_bytes
        } else {
            sat_add(state.completed_bytes, active_total)
        }),
{
    let transferred = state.completed_bytes.saturating_add(active_finished);
    let with_active = state.completed_bytes.saturating_add(active_total);
    let total = if state.total_bytes >= with_active {
        state.total_bytes
    } else {
        with_active
    };
    (transferred, total)
}

/// A batch of `jobs` downloads starts.
pub fn start_download_batch(jobs: usize) -> (r: DownloadBatchState)
    ensures
        r == (DownloadBatchState {
            active: true,
            total_jobs: jobs,
            completed_jobs: 0,
            completed_bytes: 0,
            total_bytes: 0,
        }),
{
    DownloadBatchState {
        active: true,
        total_jobs: jobs,
        completed_jobs: 0,
        completed_bytes: 0,
        total_bytes: 0,
    }
}

/// A job of the batch finished after `finished` bytes (`None` when the job
/// was unknown). Returns whether the whole batch is now complete, in which
/// case it stops being active.
pub fn record_download_done(state: &mut DownloadBatchState, finished: Option<u64>, no_jobs_left: bool) -> (r:
    bool)
    ensures
        ({
            let counted = match finished {
                Some(f) => DownloadBatchState {
                    completed_bytes: sat_add(old(state).completed_bytes, f),
                    completed_jobs: if old(state).completed_jobs == usize::MAX {
                        usize::MAX
                    } else {
                        (old(state).completed_jobs + 1) as usize
                    },
                    ..*old(state)
                },
                None => *old(state),
            };
            &&& r == (counted.active && counted.completed_jobs >= counted.total_jobs
                && no_jobs_left)
            &&& *final(state) == (if r {
                DownloadBatchState { active: false, ..counted }
            } else {
                counted
            })
        }),
{
    if let Some(f) = finished {
        state.completed_bytes = state.completed_bytes.saturating_add(f);
        state.completed_jobs = state.completed_jobs.saturating_add(1);
    }
    if state.active && state.completed_jobs >= state.total_jobs && no_jobs_left {
        state.active = false;
        true
    } else {
        false
    }
}

/// A job's file list arrived: the batch total moves from the job's old size
/// to its new one.
pub fn record_download_listing(state: &mut DownloadBatchState, previous_total: u64, new_total: u64)
    ensures
        *final(state) == (DownloadBatchState {
            total_bytes: sat_add(
                (if old(state).total_bytes >= previous_total {
                    (old(state).total_bytes - previous_total) as u64
                } else {
                    0u64
                }),
                new_total,
            ),
            ..*old(state)
        }),
{
    state.total_bytes = state.total_bytes.saturating_sub(previous_total).saturating_add(new_total);
}

/// What a cancelled transfer reports.
#[derive(Clone, Copy, Debug, PartialEq, Eq, Structural)]
pub struct CancelSummary {
    pub is_download: bool,
    pub transferred: u64,
    pub total: u64,
    pub completed_items: usize,
    pub total_items: usize,
}

/// A cancel during a download batch (or with download jobs running) reports
/// the batch's bytes and items; otherwise the upload's bytes and one item.
pub fn cancel_summary(
    state: &DownloadBatchState,
    download_jobs_running: bool,
    download_finished: u64,
    download_total: u64,
    upload_finished: u64,
    upload_total: u64,
) -> (r: CancelSummary)
    ensures
        r.is_download == (state.active || download_jobs_running),
        r.completed_items == state.completed_jobs,
        r.is_download ==> r.transferred == sat_add(state.completed_bytes, download_finished)
            && r.total == sat_add(state.completed_bytes, download_total) && r.total_items
            == state.total_jobs,
        !r.is_download ==> r.transferred == upload_finished && r.total == upload_total
            && r.total_items == 1,
{
    let is_download = state.active || download_jobs_running;
    if is_download {
        CancelSummary {
            is_download,
            transferred: state.completed_bytes.saturating_add(download_finished),
            total: state.completed_bytes.saturating_add(download_total),
            completed_items: state.completed_jobs,
            total_items: state.total_jobs,
        }
    } else {
        CancelSummary {
            is_download,
            transferred: upload_finished,
            total: upload_total,
            completed_items: state.completed_jobs,
            total_items: 1,
        }
    }
}


// ------------------------------------------------------------ file session

/// The commands of a file session that wait for its login, in order,
/// without the root listings (the session lists the root by itself).
pub open spec fn without_root_listings<C>(pending: Seq<(C, bool)>) -> Seq<C>
    decreases pending.len(),
{
    if pending.len() == 0 {
        Seq::empty()
    } else {
        let rest = without_root_listings(pending.drop_last());
        if pending.last().1 {
            rest
        } else {
            rest.push(pending.last().0)
        }
    }
}

/// Commands for the file session, held back until it is logged in.
pub struct FileSessionQueue<C> {
    pub authenticated: bool,
    /// Each waiting command, and whether it asks for the root listing.
    pub pending: Vec<(C, bool)>,
}

impl<C> FileSessionQueue<C> {
    pub fn new() -> (r: FileSessionQueue<C>)
        ensures
            !r.authenticated,
            r.pending@.len() == 0,
    {
        FileSessionQueue { authenticated: false, pending: Vec::new() }
    }

    /// A command from the app: sent at once after the login (`Some`), held
    /// back before it (`None`).
    pub fn submit(&mut self, command: C, is_root_listing: bool) -> (r: Option<C>)
        ensures
            final(self).authenticated == old(self).authenticated,
            old(self).authenticated ==> r == Some(command) && final(self).pending@ == old(
                self,
            ).pending@,
            !old(self).authenticated ==> r is None && final(self).pending@ == old(
                self,
            ).pending@.push((command, is_root_listing)),
    {
        if self.authenticated {
            Some(command)
        } else {
            self.pending.push((command, is_root_listing));
            None
        }
    }

    /// The login was accepted: the held-back commands to send now.
    pub fn login_accepted(&mut self) -> (r: Vec<C>)
        ensures
            final(self).authenticated,
            final(self).pending@.len() == 0,
            r@ == without_root_listings(old(self).pending@),
    {
        let mut rest: Vec<(C, bool)> = Vec::new();
        std::mem::swap(&mut rest, &mut self.pending);
        self.authenticated = true;
        let ghost all = rest@;
        let ghost mut k: int = 0;
        let mut out: Vec<C> = Vec::new();
        while rest.len() > 0
            invariant
                0 <= k <= all.len(),
                all.len() == k + rest@.len(),
                rest@ == all.subrange(k, all.len() as int),
                out@ == without_root_listings(all.subrange(0, k)),
            decreases rest@.len(),
        {
            let (command, root) = rest.remove(0);
            proof {
                assert(all.subrange(0, k + 1).drop_last() =~= all.subrange(0, k));
                assert(all[k] == (command, root));
            }
            if !root {
                out.push(command);
            }
            proof {
                k = k + 1;
                assert(rest@ =~= all.subrange(k, all.len() as int));
            }
        }
        proof {
            assert(all.subrange(0, k) =~= all);
        }
        out
    }
}


/// The commands a file session receives.
#[derive(Clone, Copy, Debug, PartialEq, Eq, Structural)]
pub enum FileCommandKind {
    Message,
    StartUpload,
    StartDownload { jobs: usize },
    CancelTransfer,
    Close,
}

/// What the file session does with a command.
#[derive(Clone, Copy, Debug, PartialEq, Eq, Structural)]
pub enum FileCommandAction {
    /// End the file session.
    Stop,
    /// Leave the command be and go on.
    Ignore,
    SendMessage,
    StartUpload,
    StartDownload,
    Cancel,
    /// Confirm the close, then end the session.
    Close,
}

/// A command of another session ends the file session, except a cancel,
/// which is ignored; an empty download batch ends it too.
pub fn file_command_action(session_id: u64, command_session: u64, kind: FileCommandKind) -> (r:
    FileCommandAction)
    ensures
        r == match kind {
            FileCommandKind::Message => if command_session == session_id {
                FileCommandAction::SendMessage
            } else {
                FileCommandAction::Stop
            },
            FileCommandKind::StartUpload => if command_session == session_id {
                FileCommandAction::StartUpload
            } else {
                FileCommandAction::Stop
            },
            FileCommandKind::StartDownload { jobs } => if command_session == session_id && jobs > 0 {
                FileCommandAction::StartDownload
            } else {
                FileCommandAction::Stop
            },
            FileCommandKind::CancelTransfer => if command_session == session_id {
                FileCommandAction::Cancel
            } else {
                FileCommandAction::Ignore
            },
            FileCommandKind::Close => FileCommandAction::Close,
        },
{
    let same = command_session == session_id;
    match kind {
        FileCommandKind::Message => if same {
            FileCommandAction::SendMessage
        } else {
            FileCommandAction::Stop
        },
        FileCommandKind::StartUpload => if same {
            FileCommandAction::StartUpload
        } else {
            FileCommandAction::Stop
        },
        FileCommandKind::StartDownload { jobs } => if same && jobs > 0 {
            FileCommandAction::StartDownload
        } else {
            FileCommandAction::Stop
        },
        FileCommandKind::CancelTransfer => if same {
            FileCommandAction::Cancel
        } else {
            FileCommandAction::Ignore
        },
        FileCommandKind::Close => FileCommandAction::Close,
    }
}


// ------------------------------------------------------------ listings

/// One entry of a remote directory listing.
pub struct RemoteDirectoryEntry {
    pub name: String,
    pub entry_type: i32,
    pub size: u64,
    pub modified_time: u64,
}

/// A remote directory listing as shown to the app.
pub struct RemoteDirectoryResult {
    pub path: String,
    pub entries: Vec<RemoteDirectoryEntry>,
    pub error: String,
}

/// At most this many entries of a listing are shown.
pub const MAX_LISTING_ENTRIES: usize = 2048;

/// The names shown of the first `MAX_LISTING_ENTRIES` entries: each
/// sanitized to 512 characters, entries whose name is then empty left out.
pub open spec fn listing_names(names: Seq<Seq<char>>) -> Seq<Seq<char>>
    decreases names.len(),
{
    if names.len() == 0 {
        Seq::empty()
    } else {
        let rest = listing_names(names.drop_last());
        if spec_sanitize(names.last(), 512).len() == 0 {
            rest
        } else {
            rest.push(spec_sanitize(names.last(), 512))
        }
    }
}

pub open spec fn entry_names(entries: Seq<RemoteDirectoryEntry>) -> Seq<Seq<char>> {
    entries.map_values(|e: RemoteDirectoryEntry| e.name@)
}

pub open spec fn first_entries(entries: Seq<RemoteDirectoryEntry>) -> Seq<RemoteDirectoryEntry> {
    if entries.len() <= MAX_LISTING_ENTRIES {
        entries
    } else {
        entries.subrange(0, MAX_LISTING_ENTRIES as int)
    }
}

/// Builds the listing shown for a directory the peer sent.
pub fn directory_listing(path: &str, entries: Vec<RemoteDirectoryEntry>) -> (r: RemoteDirectoryResult)
    ensures
        r.path@ == spec_sanitize(path@, 4096),
        r.error@.len() == 0,
        entry_names(r.entries@) == listing_names(entry_names(first_entries(entries@))),
{
    let mut out: Vec<RemoteDirectoryEntry> = Vec::new();
    let n = if entries.len() <= MAX_LISTING_ENTRIES {
        entries.len()
    } else {
        MAX_LISTING_ENTRIES
    };
    let ghost all = entries@;
    let mut i: usize = 0;
    while i < n
        invariant
            n <= all.len(),
            n == first_entries(all).len(),
            entries@ == all,
            i <= n,
            entry_names(out@) == listing_names(entry_names(all.subrange(0, i as int))),
        decreases n - i,
    {
        let name = sanitize_remote_value(entries[i].name.as_str(), 512);
        proof {
            let next = all.subrange(0, i + 1);
            assert(entry_names(next).drop_last() =~= entry_names(all.subrange(0, i as int)));
            assert(entry_names(next).last() == all[i as int].name@);
        }
        if !name.as_str().is_empty() {
            let e = &entries[i];
            out.push(
                RemoteDirectoryEntry {
                    name,
                    entry_type: e.entry_type,
                    size: e.size,
                    modified_time: e.modified_time,
                },
            );
            proof {
                assert(entry_names(out@) =~= listing_names(
                    entry_names(all.subrange(0, i as int)),
                ).push(spec_sanitize(all[i as int].name@, 512)));
            }
        }
        i = i + 1;
    }
    proof {
        assert(all.subrange(0, n as int) =~= first_entries(all));
    }
    RemoteDirectoryResult { path: sanitize_remote_value(path, 4096), entries: out, error: String::new() }
}

/// A listing that only reports an error.
pub fn directory_error(error: String) -> (r: RemoteDirectoryResult)
    ensures
        r.path@.len() == 0,
        r.entries@.len() == 0,
        r.error@ == error@,
{
    RemoteDirectoryResult { path: String::new(), entries: Vec::new(), error }
}

/// How a file request gets to its file session.
#[derive(Clone, Copy, Debug, PartialEq, Eq, Structural)]
pub enum FileSessionPlan {
    /// Not connected, or no connection settings to open one with.
    Unavailable,
    /// The file session is running.
    Reuse,
    /// Start a file session with the current settings.
    Start,
}

pub fn file_session_plan(connected: bool, running: bool, has_config: bool) -> (r: FileSessionPlan)
    ensures
        !connected ==> r == FileSessionPlan::Unavailable,
        connected && running ==> r == FileSessionPlan::Reuse,
        connected && !running ==> r == (if has_config {
            FileSessionPlan::Start
        } else {
            FileSessionPlan::Unavailable
        }),
{
    if !connected {
        FileSessionPlan::Unavailable
    } else if running {
        FileSessionPlan::Reuse
    } else if has_config {
        FileSessionPlan::Start
    } else {
        FileSessionPlan::Unavailable
    }
}


proof fn lemma_strip_clean(s: Seq<char>)
    ensures
        strip_controls(s).len() <= s.len(),
        forall|i: int| 0 <= i < strip_controls(s).len() ==> !is_control(#[trigger] strip_controls(s)[i]),
    decreases s.len(),
{
    if s.len() > 0 {
        lemma_strip_clean(s.drop_last());
    }
}

/// Text from the peer, once sanitized, holds no control character and is at
/// most `max_len` characters long; text without control characters within
/// the limit is kept as it is.
pub proof fn sanitized_text_is_clean(value: Seq<char>, max_len: nat)
    ensures
        spec_sanitize(value, max_len).len() <= max_len,
        forall|i: int|
            0 <= i < spec_sanitize(value, max_len).len() ==> !is_control(
                #[trigger] spec_sanitize(value, max_len)[i],
            ),
        (value.len() <= max_len && forall|i: int| 0 <= i < value.len() ==> !is_control(
            #[trigger] value[i],
        )) ==> spec_sanitize(value, max_len) == value,
    decreases value.len(),
{
    lemma_strip_clean(value);
    if value.len() <= max_len && forall|i: int| 0 <= i < value.len() ==> !is_control(#[trigger] value[i]) {
        lemma_strip_identity(value);
    }
}

proof fn lemma_strip_identity(s: Seq<char>)
    requires
        forall|i: int| 0 <= i < s.len() ==> !is_control(#[trigger] s[i]),
    ensures
        strip_controls(s) == s,
    decreases s.len(),
{
    if s.len() > 0 {
        assert forall|i: int| 0 <= i < s.drop_last().len() implies !is_control(
            #[trigger] s.drop_last()[i],
        ) by {
            assert(s.drop_last()[i] == s[i]);
        }
        lemma_strip_identity(s.drop_last());
        assert(!is_control(s[s.len() - 1]));
        assert(s.drop_last().push(s.last()) =~= s);
    }
}

} // verus!
