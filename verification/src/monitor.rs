//! The decisions of the wrapper's watch loop: how far the log has been read,
//! the carried-over decoded text, and whether the engine asked for a hotfix
//! restart recently enough that the game's exit should be followed by a
//! relaunch. Time is a monotonic clock in nanoseconds supplied by the caller.

use vstd::prelude::*;
use crate::log_decoder::{decode_bytes, decode_spec, is_log_table, lemma_log_reads_detect_exactly, marker_in, retained_len, update_restart_marker_tail};
use crate::text::suffix_of_len;

verus! {

broadcast use vstd::string::group_string_axioms;

/// How long a restart request stays valid: 15 seconds.
pub const HOTFIX_RESTART_INTENT_TIMEOUT_NANOS: u64 = 15_000_000_000;

/// The state the watch loop keeps between reads of the log.
pub struct LogMonitor {
    /// How many bytes of the log have been read.
    pub offset: u64,
    /// The last decoded characters, carried over to the next read.
    pub tail: String,
    /// When the engine's restart request was last recorded.
    pub pending_hotfix_restart: Option<u64>,
}

/// The mathematical state of a `LogMonitor`.
pub struct MonitorModel {
    pub offset: u64,
    pub tail: Seq<char>,
    pub pending: Option<u64>,
}

impl View for LogMonitor {
    type V = MonitorModel;

    open spec fn view(&self) -> MonitorModel {
        MonitorModel { offset: self.offset, tail: self.tail@, pending: self.pending_hotfix_restart }
    }
}

/// The time from `since` to `now`; zero when the clock reads earlier.
pub open spec fn elapsed(since: u64, now: u64) -> int {
    if now >= since {
        now - since
    } else {
        0
    }
}

/// A restart request was recorded and is at most 15 seconds old at `now`.
pub open spec fn intent_active(pending: Option<u64>, now: u64) -> bool {
    match pending {
        Some(observed) => elapsed(observed, now) <= HOTFIX_RESTART_INTENT_TIMEOUT_NANOS,
        None => false,
    }
}

/// The state of a fresh monitor that starts reading at `offset`.
pub open spec fn initial_model(offset: u64) -> MonitorModel {
    MonitorModel { offset, tail: Seq::empty(), pending: None }
}

/// The state after seeing that the log is `file_len` bytes long: a shorter
/// log than already read means it was replaced, and reading starts over.
pub open spec fn after_log_len(m: MonitorModel, file_len: u64) -> MonitorModel {
    if file_len < m.offset {
        initial_model(0)
    } else {
        m
    }
}

/// How many new bytes there are to read once the length has been seen.
pub open spec fn unread_len(m: MonitorModel, file_len: u64) -> int {
    let offset = after_log_len(m, file_len).offset;
    if file_len > offset {
        file_len - offset
    } else {
        0
    }
}

/// The read brings a restart marker into view.
pub open spec fn read_finds_marker(m: MonitorModel, lut: Seq<Option<char>>, bytes: Seq<u8>) -> bool {
    bytes.len() > 0 && marker_in(m.tail + decode_spec(lut, bytes))
}

/// The state after reading `bytes` from the log at time `now`. A marker
/// records a restart request unless one is still active, whose time is kept.
pub open spec fn after_log_bytes(
    m: MonitorModel,
    lut: Seq<Option<char>>,
    bytes: Seq<u8>,
    now: u64,
) -> MonitorModel {
    if bytes.len() == 0 {
        m
    } else {
        let text = m.tail + decode_spec(lut, bytes);
        let found = marker_in(text);
        MonitorModel {
            offset: (m.offset + bytes.len()) as u64,
            tail: if found {
                Seq::empty()
            } else {
                suffix_of_len(text, retained_len())
            },
            pending: if found && !intent_active(m.pending, now) {
                Some(now)
            } else {
                m.pending
            },
        }
    }
}

/// The state once the game has been relaunched; `log_len` is the log's
/// length then, when it could be read.
pub open spec fn after_respawn(m: MonitorModel, log_len: Option<u64>) -> MonitorModel {
    MonitorModel {
        offset: match log_len {
            Some(len) => len,
            None => m.offset,
        },
        tail: Seq::empty(),
        pending: None,
    }
}

/// What the watch loop observed since its last decision.
pub enum WatchEvent {
    /// The user picked "Exit" in the tray.
    ExitRequested,
    /// Asking whether the game has exited failed.
    WaitFailed,
    /// The game is still running.
    ChildRunning,
    /// The game has exited (and the log has been read once more).
    ChildExited,
    /// The game was relaunched; `log_len` is the log's length, when readable.
    RespawnSucceeded { log_len: Option<u64> },
    /// Relaunching the game failed.
    RespawnFailed,
}

/// What the watch loop does next.
pub enum WatchAction {
    /// Stop watching; the game keeps running.
    Stop,
    /// Report the failed wait and stop watching.
    ReportWaitErrorAndStop,
    /// Wait a second and look again.
    KeepWatching,
    /// The engine asked for a restart: relaunch the game.
    Respawn,
    /// The game exited normally: shut the wrapper down.
    ShutDown,
    /// The game was relaunched: let it start up, then keep watching.
    ResumeAfterRespawn,
    /// Report the failed launch and stop watching.
    ReportSpawnErrorAndStop,
}

/// The watch loop's decision for `event` at time `now`, with the state after it.
pub open spec fn watch_step(m: MonitorModel, event: WatchEvent, now: u64) -> (MonitorModel, WatchAction) {
    match event {
        WatchEvent::ExitRequested => (m, WatchAction::Stop),
        WatchEvent::WaitFailed => (m, WatchAction::ReportWaitErrorAndStop),
        WatchEvent::ChildRunning => (m, WatchAction::KeepWatching),
        WatchEvent::ChildExited => if intent_active(m.pending, now) {
            (m, WatchAction::Respawn)
        } else {
            (m, WatchAction::ShutDown)
        },
        WatchEvent::RespawnSucceeded { log_len } => (
            after_respawn(m, log_len),
            WatchAction::ResumeAfterRespawn,
        ),
        WatchEvent::RespawnFailed => (m, WatchAction::ReportSpawnErrorAndStop),
    }
}

impl LogMonitor {
    /// A monitor that starts reading the log at `initial_offset` (the log's
    /// length when the wrapper starts, so that old lines are skipped).
    pub fn new(initial_offset: u64) -> (m: LogMonitor)
        ensures
            m@ == initial_model(initial_offset),
    {
        LogMonitor { offset: initial_offset, tail: String::new(), pending_hotfix_restart: None }
    }

    /// Takes note of the log's current length and returns how many new bytes
    /// there are to read.
    pub fn observe_log_len(&mut self, file_len: u64) -> (to_read: u64)
        ensures
            final(self)@ == after_log_len(old(self)@, file_len),
            to_read == unread_len(old(self)@, file_len),
    {
        if file_len < self.offset {
            self.offset = 0;
            self.tail = String::new();
            self.pending_hotfix_restart = None;
        }
        if file_len > self.offset {
            file_len - self.offset
        } else {
            0
        }
    }

    /// Whether a restart request is active at `now`.
    pub fn hotfix_restart_requested(&self, now: u64) -> (active: bool)
        ensures
            active == intent_active(self@.pending, now),
    {
        match self.pending_hotfix_restart {
            Some(observed) => {
                let elapsed = if now >= observed {
                    now - observed
                } else {
                    0
                };
                elapsed <= HOTFIX_RESTART_INTENT_TIMEOUT_NANOS
            },
            None => false,
        }
    }

    /// Decodes and scans bytes just read from the log at time `now`. Returns
    /// whether this read recorded a new restart request (the caller logs it).
    pub fn absorb_log_bytes(&mut self, bytes: &[u8], lut: &[Option<char>; 256], now: u64) -> (recorded: bool)
        requires
            old(self).offset + bytes@.len() <= u64::MAX,
        ensures
            final(self)@ == after_log_bytes(old(self)@, lut@, bytes@, now),
            recorded == (read_finds_marker(old(self)@, lut@, bytes@) && !intent_active(
                old(self)@.pending,
                now,
            )),
    {
        if bytes.len() == 0 {
            return false;
        }
        self.offset = self.offset + bytes.len() as u64;
        let decoded_text = decode_bytes(bytes, lut);
        if update_restart_marker_tail(&mut self.tail, decoded_text.as_str()) {
            if !self.hotfix_restart_requested(now) {
                self.pending_hotfix_restart = Some(now);
                return true;
            }
        }
        false
    }

    /// Drops a restart request that is more than 15 seconds old at `now`;
    /// returns whether one was dropped.
    pub fn expire_intent(&mut self, now: u64) -> (expired: bool)
        ensures
            expired == (old(self)@.pending is Some && !intent_active(old(self)@.pending, now)),
            final(self)@ == (if expired {
                MonitorModel { pending: None, ..old(self)@ }
            } else {
                old(self)@
            }),
    {
        if self.pending_hotfix_restart.is_some() && !self.hotfix_restart_requested(now) {
            self.pending_hotfix_restart = None;
            true
        } else {
            false
        }
    }

    /// Resets the monitor after the game was relaunched: the request is
    /// consumed, the carried text dropped, and reading resumes at `log_len`
    /// when the log's length could be read.
    pub fn reset_after_respawn(&mut self, log_len: Option<u64>)
        ensures
            final(self)@ == after_respawn(old(self)@, log_len),
    {
        self.pending_hotfix_restart = None;
        self.tail = String::new();
        if let Some(len) = log_len {
            self.offset = len;
        }
    }

    /// Decides what the watch loop does after `event` at time `now`.
    pub fn on_watch_event(&mut self, event: WatchEvent, now: u64) -> (action: WatchAction)
        ensures
            (final(self)@, action) == watch_step(old(self)@, event, now),
    {
        match event {
            WatchEvent::ExitRequested => WatchAction::Stop,
            WatchEvent::WaitFailed => WatchAction::ReportWaitErrorAndStop,
            WatchEvent::ChildRunning => WatchAction::KeepWatching,
            WatchEvent::ChildExited => {
                if self.hotfix_restart_requested(now) {
                    WatchAction::Respawn
                } else {
                    WatchAction::ShutDown
                }
            },
            WatchEvent::RespawnSucceeded { log_len } => {
                self.reset_after_respawn(log_len);
                WatchAction::ResumeAfterRespawn
            },
            WatchEvent::RespawnFailed => WatchAction::ReportSpawnErrorAndStop,
        }
    }
}

/// No false positives: a read that brings no restart marker into view leaves
/// the restart request exactly as it was, so a game that only logs ordinary
/// shutdown messages is never relaunched.
pub proof fn lemma_read_without_marker_keeps_request(
    m: MonitorModel,
    lut: Seq<Option<char>>,
    bytes: Seq<u8>,
    now: u64,
)
    requires
        !read_finds_marker(m, lut, bytes),
    ensures
        after_log_bytes(m, lut, bytes, now).pending == m.pending,
{
}

/// A monitor that never saw a marker never asks for a relaunch.
pub proof fn lemma_no_request_without_marker(
    m: MonitorModel,
    lut: Seq<Option<char>>,
    bytes: Seq<u8>,
    now: u64,
    later: u64,
)
    requires
        m.pending is None,
        !read_finds_marker(m, lut, bytes),
    ensures
        !intent_active(after_log_bytes(m, lut, bytes, now).pending, later),
{
}

/// A read that brings a marker into view makes a relaunch requested at once.
pub proof fn lemma_marker_requests_restart(
    m: MonitorModel,
    lut: Seq<Option<char>>,
    bytes: Seq<u8>,
    now: u64,
)
    requires
        read_finds_marker(m, lut, bytes),
    ensures
        intent_active(after_log_bytes(m, lut, bytes, now).pending, now),
{
}

/// A marker seen while a request is still active does not renew it: the
/// request keeps the time it was first recorded.
pub proof fn lemma_active_request_not_renewed(
    m: MonitorModel,
    lut: Seq<Option<char>>,
    bytes: Seq<u8>,
    now: u64,
)
    requires
        intent_active(m.pending, now),
    ensures
        after_log_bytes(m, lut, bytes, now).pending == m.pending,
{
}

/// A request recorded at `observed` stays active for 15 seconds and lapses
/// after that.
pub proof fn lemma_request_window(observed: u64, now: u64)
    ensures
        now >= observed && now - observed <= 15_000_000_000 ==> intent_active(Some(observed), now),
        now >= observed && now - observed > 15_000_000_000 ==> !intent_active(Some(observed), now),
        now < observed ==> intent_active(Some(observed), now),
        !intent_active(None, now),
{
}

/// A log shorter than what was read has been replaced: reading starts over
/// from its beginning with no carried text and no request.
pub proof fn lemma_replaced_log_starts_over(m: MonitorModel, file_len: u64)
    requires
        file_len < m.offset,
    ensures
        after_log_len(m, file_len) == initial_model(0),
        unread_len(m, file_len) == file_len,
{
}

/// Reading at most the unread bytes never moves the offset past the log's
/// end, and the carried text stays within `retained_len()` characters.
pub proof fn lemma_read_stays_within_log(
    m: MonitorModel,
    lut: Seq<Option<char>>,
    file_len: u64,
    bytes: Seq<u8>,
    now: u64,
)
    requires
        bytes.len() <= unread_len(m, file_len),
        m.tail.len() <= retained_len(),
    ensures
        after_log_bytes(after_log_len(m, file_len), lut, bytes, now).offset <= file_len,
        after_log_bytes(after_log_len(m, file_len), lut, bytes, now).tail.len() <= retained_len(),
{
}

/// A relaunch consumes the request and the carried text.
pub proof fn lemma_respawn_clears_request(m: MonitorModel, log_len: Option<u64>, now: u64)
    ensures
        !intent_active(after_respawn(m, log_len).pending, now),
        after_respawn(m, log_len).tail.len() == 0,
{
}

/// A game that exits with no active restart request is not relaunched: the
/// wrapper shuts down; with one, it is relaunched.
pub proof fn lemma_exit_decision(m: MonitorModel, now: u64)
    ensures
        !intent_active(m.pending, now) ==> watch_step(m, WatchEvent::ChildExited, now).1
            == WatchAction::ShutDown,
        intent_active(m.pending, now) ==> watch_step(m, WatchEvent::ChildExited, now).1
            == WatchAction::Respawn,
{
}

/// After a relaunch, the next exit of the game shuts the wrapper down unless
/// a new restart marker is read in between: one request yields one relaunch.
pub proof fn lemma_one_request_one_respawn(m: MonitorModel, log_len: Option<u64>, now: u64, later: u64)
    ensures
        watch_step(
            watch_step(m, WatchEvent::RespawnSucceeded { log_len }, now).0,
            WatchEvent::ChildExited,
            later,
        ).1 == WatchAction::ShutDown,
{
}

/// The user's "Exit" always stops the watch and leaves the state alone.
pub proof fn lemma_user_exit_stops(m: MonitorModel, now: u64)
    ensures
        watch_step(m, WatchEvent::ExitRequested, now) == (m, WatchAction::Stop),
{
}

/// A monitor with no carried text that reads the log in two pieces finds a
/// marker in the second read exactly when the log read so far holds one that
/// the first read did not: a marker split between reads is recorded.
pub proof fn lemma_split_marker_recorded(
    m: MonitorModel,
    lut: Seq<Option<char>>,
    earlier: Seq<u8>,
    next: Seq<u8>,
    now: u64,
)
    requires
        is_log_table(lut),
        m.tail.len() == 0,
        earlier.len() > 0,
        next.len() > 0,
        !marker_in(decode_spec(lut, earlier)),
    ensures
        read_finds_marker(after_log_bytes(m, lut, earlier, now), lut, next) == marker_in(
            decode_spec(lut, earlier + next),
        ),
{
    assert(m.tail + decode_spec(lut, earlier) =~= decode_spec(lut, earlier));
    lemma_log_reads_detect_exactly(lut, earlier, next);
}

/// The game is relaunched only after it has exited, and only while a restart
/// request is active: a running game is never relaunched, whatever the
/// request, and the watch goes on with the state unchanged.
pub proof fn lemma_respawn_only_after_exit(m: MonitorModel, event: WatchEvent, now: u64)
    ensures
        watch_step(m, event, now).1 is Respawn ==> (event is ChildExited && intent_active(
            m.pending,
            now,
        )),
        event is ChildRunning ==> watch_step(m, event, now).0 == m && watch_step(m, event, now).1 is KeepWatching,
        !(event is RespawnSucceeded) ==> watch_step(m, event, now).0 == m,
{
}

} // verus!
