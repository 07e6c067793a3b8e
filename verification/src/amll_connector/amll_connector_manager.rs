//! Starts and stops the connector's worker, and reckons the position of the song
//! between two reports.

use vstd::prelude::*;

use super::protocol::{ClientMessage, ClientView};
use super::types::{NowPlayingInfo, PlayingView, WebsocketStatus};
use super::worker::message_views;
use crate::types::opt_view;

verus! {

/// What is done about the worker.
#[derive(Debug, Clone, Copy, PartialEq, Eq, Structural)]
pub enum WorkerAction {
    /// Stop it.
    Stop,
    /// Leave it as it is.
    Keep,
    /// Stop it and start a new one.
    Restart,
}

/// Whether the connection is there or being made.
pub open spec fn is_healthy(status: WebsocketStatus) -> bool {
    status is Connected || status is Connecting
}

/// Decides what is done about the worker: none without the feature, and a new
/// one unless the worker runs and its connection is there or being made.
pub fn ensure_running(enabled: bool, status: &WebsocketStatus, worker_is_running: bool) -> (r:
    WorkerAction)
    ensures
        r == if !enabled {
            WorkerAction::Stop
        } else if worker_is_running && is_healthy(*status) {
            WorkerAction::Keep
        } else {
            WorkerAction::Restart
        },
{
    if !enabled {
        return WorkerAction::Stop;
    }
    let healthy = match status {
        WebsocketStatus::Connected => true,
        WebsocketStatus::Connecting => true,
        _ => false,
    };
    if worker_is_running && healthy {
        WorkerAction::Keep
    } else {
        WorkerAction::Restart
    }
}

/// What a worker is told first.
#[derive(Debug, Clone, PartialEq)]
pub enum StartCommand {
    StartAudioVisualization,
    SelectSmtcSession(String),
}

/// A `StartCommand` over mathematical values.
pub enum StartView {
    StartAudioVisualization,
    SelectSmtcSession(Seq<char>),
}

impl View for StartCommand {
    type V = StartView;

    open spec fn view(&self) -> StartView {
        match self {
            StartCommand::StartAudioVisualization => StartView::StartAudioVisualization,
            StartCommand::SelectSmtcSession(id) => StartView::SelectSmtcSession(id@),
        }
    }
}

/// What a worker is told first.
pub open spec fn first_commands(audio: bool, session: Option<Seq<char>>) -> Seq<StartView> {
    (if audio {
        seq![StartView::StartAudioVisualization]
    } else {
        Seq::empty()
    }) + match session {
        Some(id) => seq![StartView::SelectSmtcSession(id)],
        None => Seq::empty(),
    }
}

/// What a new worker is told first: to forward audio where that is on, and which
/// session to follow where one was selected.
pub fn start_commands(audio_is_active: bool, selected_session: &Option<String>) -> (r: Vec<
    StartCommand,
>)
    ensures
        Seq::new(r@.len(), |i: int| r@[i]@) == first_commands(
            audio_is_active,
            opt_view(*selected_session),
        ),
{
    let mut out: Vec<StartCommand> = Vec::new();
    if audio_is_active {
        out.push(StartCommand::StartAudioVisualization);
    }
    match selected_session {
        Some(id) => {
            out.push(StartCommand::SelectSmtcSession(id.clone()));
        },
        None => {},
    }
    proof {
        assert(Seq::new(out@.len(), |i: int| out@[i]@) =~= first_commands(
            audio_is_active,
            opt_view(*selected_session),
        ));
    }
    out
}

// ---------------------------------------------------------------------------
// The position between two reports
// ---------------------------------------------------------------------------

/// The milliseconds since the position was reported.
pub open spec fn elapsed_ms(info: PlayingView, now: u64) -> nat {
    match info.position_report_time {
        Some(t) => if now >= t {
            ((now - t) / 1_000_000) as nat
        } else {
            0
        },
        None => 0,
    }
}

/// The position that the song has reached, if it has not ended.
pub open spec fn running_position(info: PlayingView, now: u64) -> nat {
    (match info.position_ms {
        Some(p) => p as nat,
        None => 0,
    }) + elapsed_ms(info, now)
}

/// Whether the song has reached its end.
pub open spec fn has_ended(info: PlayingView, now: u64) -> bool {
    match info.duration_ms {
        Some(d) => d > 0 && running_position(info, now) >= d,
        None => false,
    }
}

/// The position that is reported: never behind the end of the song.
pub open spec fn simulated_position(info: PlayingView, now: u64) -> nat {
    if has_ended(info, now) {
        info.duration_ms->0 as nat
    } else {
        running_position(info, now)
    }
}

/// The messages of one tick: the position, and before it that the song has
/// stopped where it has reached its end.
pub open spec fn tick_messages(info: PlayingView, now: u64) -> Seq<ClientView> {
    let progress = seq![
        ClientView::OnPlayProgress { progress: simulated_position(info, now) as u64 },
    ];
    if has_ended(info, now) {
        seq![ClientView::OnPaused] + progress
    } else {
        progress
    }
}

/// Reckons the position of a song that is playing, and gives the messages about
/// it; nothing where no song is playing. `now` is in nanoseconds.
pub fn progress_tick(info: &Option<NowPlayingInfo>, now: u64) -> (r: Option<
    (u64, Vec<ClientMessage>),
>)
    requires
        match *info {
            Some(i) => i.is_playing == Some(true) ==> running_position(i@, now) <= u64::MAX,
            None => true,
        },
    ensures
        match *info {
            Some(i) if i.is_playing == Some(true) => {
                &&& r is Some
                &&& (r->0).0 == simulated_position(i@, now)
                &&& message_views((r->0).1@) == tick_messages(i@, now)
            },
            _ => r is None,
        },
{
    match info {
        Some(i) => {
            match i.is_playing {
                Some(true) => {},
                _ => {
                    return None;
                },
            }
            let elapsed: u64 = match i.position_report_time {
                Some(t) => now.saturating_sub(t) / 1_000_000,
                None => 0,
            };
            let reported: u64 = match i.position_ms {
                Some(p) => p,
                None => 0,
            };
            let mut position: u64 = reported + elapsed;
            let mut out: Vec<ClientMessage> = Vec::new();
            match i.duration_ms {
                Some(d) => {
                    if d > 0 && position >= d {
                        position = d;
                        out.push(ClientMessage::OnPaused);
                    }
                },
                None => {},
            }
            out.push(ClientMessage::OnPlayProgress { progress: position });
            proof {
                assert(message_views(out@) =~= tick_messages(i@, now));
            }
            Some((position, out))
        },
        None => None,
    }
}

/// The position that is reported never passes the end of the song, and never
/// goes back while the song plays.
pub proof fn law_position_is_steady(info: PlayingView, now: u64, later: u64)
    requires
        now <= later,
    ensures
        simulated_position(info, now) <= simulated_position(info, later),
        info.duration_ms is Some && info.duration_ms->0 > 0 ==> simulated_position(info, now)
            <= info.duration_ms->0,
{
}

} // verus!
