//! The client that talks to a player: heartbeat, seek and volume requests, and
//! what happens when a connection ends. Times are nanoseconds on a clock that
//! never goes back.

use vstd::prelude::*;

use super::protocol::{read_client, read_server, ClientMessage, ServerMessage};
use super::types::{SmtcControlCommand, StatusView, WebsocketStatus};
use crate::text::push_dec;

verus! {

/// Milliseconds between the end of a connection and the next attempt.
pub const RECONNECT_DELAY_MS: u64 = 3000;

/// Seconds that an attempt to connect may take.
pub const CONNECT_TIMEOUT_SECS: u64 = 10;

/// The number of failures in a row after which no attempt is made any more.
pub const MAX_CONSECUTIVE_FAILURES: u32 = 3;

/// A seek to the same position within this time is the same request.
pub const SEEK_DEBOUNCE_NS: u64 = 500_000_000;

/// The least time between two volume requests that are followed.
pub const MIN_VOLUME_SET_INTERVAL_NS: u64 = 100_000_000;

/// Seconds between two heartbeats.
pub const APP_PING_INTERVAL_SECS: u64 = 5;

/// The time within which a heartbeat must be answered.
pub const APP_PONG_TIMEOUT_NS: u64 = 5_000_000_000;

// ---------------------------------------------------------------------------
// A connection
// ---------------------------------------------------------------------------

/// What is known of a connection.
#[derive(Debug, Clone, Copy, PartialEq, Eq)]
pub struct Connection {
    /// The position and the time of the seek request that was followed last.
    pub last_seek: Option<(u64, u64)>,
    /// The time of the volume request that was looked at last.
    pub last_volume: Option<u64>,
    /// The time of the heartbeat that has not been answered.
    pub ping_sent_at: Option<u64>,
    /// Whether an answer to a heartbeat is awaited.
    pub waiting_for_pong: bool,
}

/// What the client does about a message of the player.
#[derive(Debug, Clone, Copy, PartialEq, Eq, Structural)]
pub enum Reaction {
    /// Nothing.
    Nothing,
    /// Answer a heartbeat.
    AnswerPing,
    /// Ask the media session to pause, and say that it has.
    Pause,
    /// Ask the media session to play, and say that it does.
    Resume,
    /// Ask the media session for something else.
    Control(SmtcControlCommand),
}

/// What the client does when the time for a heartbeat has come.
#[derive(Debug, Clone, Copy, PartialEq, Eq, Structural)]
pub enum Heartbeat {
    /// Nothing.
    Nothing,
    /// Send a heartbeat.
    SendPing,
    /// End the connection: the player does not answer.
    TimedOut,
}

/// What bytes from the player are.
#[derive(Debug, Clone, Copy, PartialEq, Eq, Structural)]
pub enum Incoming {
    /// A message of the player.
    Server(ServerMessage),
    /// A message that only the connector has a use for.
    Ignored,
    /// No message.
    Malformed,
}

/// The time since `earlier`.
pub open spec fn since(now: u64, earlier: u64) -> nat {
    if now >= earlier {
        (now - earlier) as nat
    } else {
        0
    }
}

/// Whether a seek request repeats the one that was followed last.
pub open spec fn is_repeated_seek(c: Connection, progress: u64, now: u64) -> bool {
    match c.last_seek {
        Some((p, t)) => p == progress && since(now, t) < SEEK_DEBOUNCE_NS,
        None => false,
    }
}

/// Whether a volume request comes too soon.
pub open spec fn is_early_volume(c: Connection, now: u64) -> bool {
    match c.last_volume {
        Some(t) => since(now, t) < MIN_VOLUME_SET_INTERVAL_NS,
        None => false,
    }
}

/// Whether the bits of a 64-bit floating-point number are those of a number from
/// zero to one. The bits of non-negative numbers are ordered as the numbers are;
/// negative zero counts as zero.
pub open spec fn is_unit_volume(bits: u64) -> bool {
    bits <= 0x3ff0_0000_0000_0000 || bits == 0x8000_0000_0000_0000
}

/// What a message of the player does to the connection.
pub open spec fn after_message(c: Connection, m: ServerMessage, now: u64) -> Connection {
    match m {
        ServerMessage::Pong => if c.waiting_for_pong {
            Connection { waiting_for_pong: false, ping_sent_at: None, ..c }
        } else {
            c
        },
        ServerMessage::Pause => Connection { last_seek: None, ..c },
        ServerMessage::Resume => Connection { last_seek: None, ..c },
        ServerMessage::SeekPlayProgress { progress } => if is_repeated_seek(c, progress, now) {
            c
        } else {
            Connection { last_seek: Some((progress, now)), ..c }
        },
        ServerMessage::SetVolume { volume } => if is_early_volume(c, now) {
            c
        } else {
            Connection { last_volume: Some(now), ..c }
        },
        _ => c,
    }
}

/// What the client does about a message of the player.
pub open spec fn reaction(c: Connection, m: ServerMessage, now: u64) -> Reaction {
    match m {
        ServerMessage::Ping => Reaction::AnswerPing,
        ServerMessage::Pong => Reaction::Nothing,
        ServerMessage::Pause => Reaction::Pause,
        ServerMessage::Resume => Reaction::Resume,
        ServerMessage::ForwardSong => Reaction::Control(SmtcControlCommand::SkipNext),
        ServerMessage::BackwardSong => Reaction::Control(SmtcControlCommand::SkipPrevious),
        ServerMessage::SeekPlayProgress { progress } => if is_repeated_seek(c, progress, now) {
            Reaction::Nothing
        } else {
            Reaction::Control(SmtcControlCommand::SeekTo(progress))
        },
        ServerMessage::SetVolume { volume } => if is_early_volume(c, now) || !is_unit_volume(
            volume,
        ) {
            Reaction::Nothing
        } else {
            Reaction::Control(SmtcControlCommand::SetVolume(volume))
        },
    }
}

/// Tells what bytes from the player are.
pub fn classify(bytes: &[u8]) -> (r: Incoming)
    ensures
        match r {
            Incoming::Server(m) => read_server(bytes@) == Some(m),
            Incoming::Ignored => read_server(bytes@) is None && read_client(bytes@) is Some,
            Incoming::Malformed => read_server(bytes@) is None && read_client(bytes@) is None,
        },
{
    match ServerMessage::decode(bytes) {
        Ok(m) => Incoming::Server(m),
        Err(_) => match ClientMessage::_decode(bytes) {
            Ok(_) => Incoming::Ignored,
            Err(_) => Incoming::Malformed,
        },
    }
}

impl Connection {
    /// A connection on which nothing has happened.
    pub fn new() -> (r: Connection)
        ensures
            r == (Connection {
                last_seek: None,
                last_volume: None,
                ping_sent_at: None,
                waiting_for_pong: false,
            }),
    {
        Connection { last_seek: None, last_volume: None, ping_sent_at: None, waiting_for_pong: false }
    }

    /// Decides what to do about a message of the player.
    pub fn on_message(&mut self, m: ServerMessage, now: u64) -> (r: Reaction)
        ensures
            *final(self) == after_message(*old(self), m, now),
            r == reaction(*old(self), m, now),
    {
        match m {
            ServerMessage::Ping => Reaction::AnswerPing,
            ServerMessage::Pong => {
                if self.waiting_for_pong {
                    self.waiting_for_pong = false;
                    self.ping_sent_at = None;
                }
                Reaction::Nothing
            },
            ServerMessage::Pause => {
                self.last_seek = None;
                Reaction::Pause
            },
            ServerMessage::Resume => {
                self.last_seek = None;
                Reaction::Resume
            },
            ServerMessage::ForwardSong => Reaction::Control(SmtcControlCommand::SkipNext),
            ServerMessage::BackwardSong => Reaction::Control(SmtcControlCommand::SkipPrevious),
            ServerMessage::SeekPlayProgress { progress } => {
                let repeated = match self.last_seek {
                    Some((p, t)) => p == progress && now.saturating_sub(t) < SEEK_DEBOUNCE_NS,
                    None => false,
                };
                if repeated {
                    Reaction::Nothing
                } else {
                    self.last_seek = Some((progress, now));
                    Reaction::Control(SmtcControlCommand::SeekTo(progress))
                }
            },
            ServerMessage::SetVolume { volume } => {
                let early = match self.last_volume {
                    Some(t) => now.saturating_sub(t) < MIN_VOLUME_SET_INTERVAL_NS,
                    None => false,
                };
                if early {
                    return Reaction::Nothing;
                }
                self.last_volume = Some(now);
                if volume <= 0x3ff0_0000_0000_0000 || volume == 0x8000_0000_0000_0000 {
                    Reaction::Control(SmtcControlCommand::SetVolume(volume))
                } else {
                    Reaction::Nothing
                }
            },
        }
    }

    /// Decides what to do when the time for a heartbeat has come. A heartbeat
    /// that is sent is reported with `ping_sent`.
    pub fn on_tick(&mut self, now: u64) -> (r: Heartbeat)
        ensures
            match old(self).ping_sent_at {
                _ if !old(self).waiting_for_pong => {
                    r == Heartbeat::SendPing && *final(self) == *old(self)
                },
                Some(sent) => {
                    &&& *final(self) == *old(self)
                    &&& r == if since(now, sent) > APP_PONG_TIMEOUT_NS {
                        Heartbeat::TimedOut
                    } else {
                        Heartbeat::Nothing
                    }
                },
                None => {
                    &&& r == Heartbeat::Nothing
                    &&& *final(self) == (Connection { waiting_for_pong: false, ..*old(self) })
                },
            },
    {
        if !self.waiting_for_pong {
            return Heartbeat::SendPing;
        }
        match self.ping_sent_at {
            Some(sent) => if now.saturating_sub(sent) > APP_PONG_TIMEOUT_NS {
                Heartbeat::TimedOut
            } else {
                Heartbeat::Nothing
            },
            None => {
                self.waiting_for_pong = false;
                Heartbeat::Nothing
            },
        }
    }

    /// Notes that a heartbeat has been sent.
    pub fn ping_sent(&mut self, now: u64)
        ensures
            *final(self) == (Connection {
                ping_sent_at: Some(now),
                waiting_for_pong: true,
                ..*old(self)
            }),
    {
        self.ping_sent_at = Some(now);
        self.waiting_for_pong = true;
    }
}

// ---------------------------------------------------------------------------
// The end of a connection
// ---------------------------------------------------------------------------

/// Why a connection, or the attempt to make one, ended.
#[derive(Debug, Clone, PartialEq)]
pub enum LifecycleEndReason {
    PongTimeout,
    InitialConnectFailed(String),
    StreamFailure(String),
    ServerClosed,
    ShutdownSignalReceived,
    CriticalChannelFailure(String),
}

/// What the client does after a connection.
#[derive(Debug, Clone, Copy, PartialEq, Eq, Structural)]
pub enum NextStep {
    /// End.
    Stop,
    /// Wait until it is told to stop, then end.
    WaitForShutdown,
    /// Try again after the delay.
    Retry,
}

/// The views of a list of states.
pub open spec fn status_views(v: Seq<WebsocketStatus>) -> Seq<StatusView> {
    Seq::new(v.len(), |i: int| v[i]@)
}

/// Whether this end counts as a failure.
pub open spec fn is_failure(reason: LifecycleEndReason) -> bool {
    !(reason is ShutdownSignalReceived) && !(reason is CriticalChannelFailure)
}

/// The state that is reported for an end.
pub open spec fn end_status(reason: LifecycleEndReason) -> StatusView {
    match reason {
        LifecycleEndReason::ShutdownSignalReceived => StatusView::Disconnected,
        LifecycleEndReason::CriticalChannelFailure(s) => StatusView::Error(s@),
        LifecycleEndReason::InitialConnectFailed(s) => StatusView::Error(s@),
        LifecycleEndReason::StreamFailure(s) => StatusView::Error("连接流错误: "@ + s@),
        LifecycleEndReason::PongTimeout => StatusView::Error("心跳响应超时"@),
        LifecycleEndReason::ServerClosed => StatusView::Error("服务器关闭了连接"@),
    }
}

/// The states that are reported after a connection that followed `failures`
/// failures in a row.
pub open spec fn end_statuses(failures: u32, reason: LifecycleEndReason) -> Seq<StatusView> {
    if is_failure(reason) && failures + 1 >= MAX_CONSECUTIVE_FAILURES {
        seq![end_status(reason), StatusView::Error("已达最大重连次数 (3)"@)]
    } else {
        seq![end_status(reason)]
    }
}

/// What the client does next.
pub open spec fn next_step(failures: u32, reason: LifecycleEndReason) -> NextStep {
    if !is_failure(reason) {
        NextStep::Stop
    } else if failures + 1 >= MAX_CONSECUTIVE_FAILURES {
        NextStep::WaitForShutdown
    } else {
        NextStep::Retry
    }
}

/// The message for an attempt to connect that took too long.
pub fn connect_timeout_message() -> (r: String)
    ensures
        r@ == "连接超时 (超过 "@ + crate::text::dec(CONNECT_TIMEOUT_SECS as nat) + " 秒)"@,
{
    let mut s = "连接超时 (超过 ".to_owned();
    push_dec(&mut s, CONNECT_TIMEOUT_SECS);
    s.append(" 秒)");
    s
}

/// The state that is reported for an end.
fn status_of_end(reason: &LifecycleEndReason) -> (r: WebsocketStatus)
    ensures
        r@ == end_status(*reason),
{
    match reason {
        LifecycleEndReason::ShutdownSignalReceived => WebsocketStatus::Disconnected,
        LifecycleEndReason::CriticalChannelFailure(s) => WebsocketStatus::Error(s.clone()),
        LifecycleEndReason::InitialConnectFailed(s) => WebsocketStatus::Error(s.clone()),
        LifecycleEndReason::StreamFailure(s) => {
            let mut m = "连接流错误: ".to_owned();
            m.append(s.as_str());
            WebsocketStatus::Error(m)
        },
        LifecycleEndReason::PongTimeout => WebsocketStatus::Error("心跳响应超时".to_owned()),
        LifecycleEndReason::ServerClosed => WebsocketStatus::Error("服务器关闭了连接".to_owned()),
    }
}

/// The attempts of a client.
#[derive(Debug, Clone, Copy, PartialEq, Eq, Structural)]
pub struct Attempts {
    /// The failures since the last connection.
    pub consecutive_failures: u32,
}

impl Attempts {
    /// No attempt has been made.
    pub fn new() -> (r: Attempts)
        ensures
            r.consecutive_failures == 0,
    {
        Attempts { consecutive_failures: 0 }
    }

    /// Notes that a connection has been made.
    pub fn connected(&mut self)
        ensures
            final(self).consecutive_failures == 0,
    {
        self.consecutive_failures = 0;
    }

    /// Decides what follows the end of a connection: the states to report, in
    /// order, and what to do next.
    pub fn ended(&mut self, reason: &LifecycleEndReason) -> (r: (Vec<WebsocketStatus>, NextStep))
        requires
            old(self).consecutive_failures < MAX_CONSECUTIVE_FAILURES,
        ensures
            status_views(r.0@) == end_statuses(old(self).consecutive_failures, *reason),
            r.1 == next_step(old(self).consecutive_failures, *reason),
            final(self).consecutive_failures == old(self).consecutive_failures + if is_failure(
                *reason,
            ) {
                1int
            } else {
                0
            },
            r.1 == NextStep::Retry ==> final(self).consecutive_failures < MAX_CONSECUTIVE_FAILURES,
    {
        let mut statuses: Vec<WebsocketStatus> = Vec::new();
        statuses.push(status_of_end(reason));
        let failed = match reason {
            LifecycleEndReason::ShutdownSignalReceived => false,
            LifecycleEndReason::CriticalChannelFailure(_) => false,
            _ => true,
        };
        let ghost expected = end_statuses(self.consecutive_failures, *reason);
        if !failed {
            proof {
                assert(status_views(statuses@) =~= expected);
            }
            return (statuses, NextStep::Stop);
        }
        self.consecutive_failures = self.consecutive_failures + 1;
        if self.consecutive_failures >= MAX_CONSECUTIVE_FAILURES {
            statuses.push(WebsocketStatus::Error("已达最大重连次数 (3)".to_owned()));
            proof {
                assert(status_views(statuses@) =~= expected);
            }
            (statuses, NextStep::WaitForShutdown)
        } else {
            proof {
                assert(status_views(statuses@) =~= expected);
            }
            (statuses, NextStep::Retry)
        }
    }
}

// ---------------------------------------------------------------------------
// Laws
// ---------------------------------------------------------------------------

/// A seek request that is repeated at once is followed only once.
pub proof fn law_seek_followed_once(c: Connection, progress: u64, now: u64, later: u64)
    requires
        now <= later,
        later - now < SEEK_DEBOUNCE_NS,
        reaction(c, ServerMessage::SeekPlayProgress { progress }, now) == Reaction::Control(
            SmtcControlCommand::SeekTo(progress),
        ),
    ensures
        ({
            let d = after_message(c, ServerMessage::SeekPlayProgress { progress }, now);
            reaction(d, ServerMessage::SeekPlayProgress { progress }, later) == Reaction::Nothing
        }),
{
}

/// After a pause or a resume, a seek request is followed whatever came before.
pub proof fn law_pause_forgets_seek(
    c: Connection,
    m: ServerMessage,
    progress: u64,
    now: u64,
    later: u64,
)
    requires
        m == ServerMessage::Pause || m == ServerMessage::Resume,
    ensures
        reaction(after_message(c, m, now), ServerMessage::SeekPlayProgress { progress }, later)
            == Reaction::Control(SmtcControlCommand::SeekTo(progress)),
{
}

/// No two volume requests within the least interval are both followed.
pub proof fn law_volume_is_throttled(c: Connection, v: u64, w: u64, now: u64, later: u64)
    requires
        now <= later,
        later - now < MIN_VOLUME_SET_INTERVAL_NS,
    ensures
        ({
            let first = reaction(c, ServerMessage::SetVolume { volume: v }, now);
            let d = after_message(c, ServerMessage::SetVolume { volume: v }, now);
            let second = reaction(d, ServerMessage::SetVolume { volume: w }, later);
            first == Reaction::Nothing || second == Reaction::Nothing
        }),
{
}

/// Whatever the volume request, the media session is only asked for volumes from
/// zero to one.
pub proof fn law_volume_in_range(c: Connection, m: ServerMessage, now: u64, bits: u64)
    requires
        reaction(c, m, now) == Reaction::Control(SmtcControlCommand::SetVolume(bits)),
    ensures
        is_unit_volume(bits),
{
}

/// The failures in a row after ends for these reasons, none of them followed by
/// a connection.
pub open spec fn failures_after(failures: nat, reasons: Seq<LifecycleEndReason>) -> nat
    decreases reasons.len(),
{
    if reasons.len() == 0 {
        failures
    } else {
        let before = failures_after(failures, reasons.drop_last());
        if is_failure(reasons.last()) {
            before + 1
        } else {
            before
        }
    }
}

/// A client that fails to connect makes no more than the largest number of
/// attempts in a row: three failures end the attempts.
pub proof fn law_attempts_end(reasons: Seq<LifecycleEndReason>)
    requires
        reasons.len() == MAX_CONSECUTIVE_FAILURES,
        forall|i: int| 0 <= i < reasons.len() ==> is_failure(#[trigger] reasons[i]),
    ensures
        next_step(failures_after(0, reasons.drop_last()) as u32, reasons.last())
            == NextStep::WaitForShutdown,
{
    let r = reasons.drop_last();
    assert(is_failure(reasons[0]) && is_failure(reasons[1]) && is_failure(reasons[2]));
    assert(r.last() == reasons[1]);
    assert(r.drop_last().last() == reasons[0]);
    assert(r.drop_last().drop_last().len() == 0);
    reveal_with_fuel(failures_after, 4);
}

} // verus!
