//! Follows the media sessions of the system.

use std::collections::hash_map::DefaultHasher;
use std::hash::Hasher;

use vstd::prelude::*;
use vstd::std_specs::hash::DefaultHasherAdditionalSpecFns;

use super::types::{
    clone_bytes, opt_bytes, NowPlayingInfo, PlayingView, SmtcControlCommand, SmtcSessionInfo,
};
use super::wire::{le_bytes, push_le};
use crate::chinese_conversion_processor::{convert, converted};
use crate::text::{split_any, split_at_any, string_of, to_chars, views};
use crate::types::{opt_view, to_signed, wrapped};

verus! {

/// The largest cover that is kept, in bytes.
pub const MAX_COVER_SIZE_BYTES: usize = 20_971_520;

// ---------------------------------------------------------------------------
// Covers
// ---------------------------------------------------------------------------

/// The hash by which covers are told apart: that of the length, as eight bytes
/// with the lowest first, and of the bytes.
pub open spec fn cover_hash(data: Seq<u8>) -> u64 {
    DefaultHasher::spec_finish(seq![le_bytes(data.len(), 8), data])
}

/// The hash of a cover.
pub fn calculate_cover_hash(data: &[u8]) -> (r: u64)
    ensures
        r == cover_hash(data@),
{
    let mut hasher = DefaultHasher::new();
    let mut length: Vec<u8> = Vec::new();
    push_le(&mut length, data.len() as u64, 8);
    proof {
        assert(length@ =~= le_bytes(data@.len(), 8));
    }
    hasher.write(length.as_slice());
    hasher.write(data);
    proof {
        assert(hasher@ =~= seq![le_bytes(data@.len(), 8), data@]);
    }
    hasher.finish()
}

// ---------------------------------------------------------------------------
// Sessions
// ---------------------------------------------------------------------------

/// A `SmtcSessionInfo` over mathematical values.
pub struct SessionView {
    pub session_id: Seq<char>,
    pub source_app: Seq<char>,
    pub display_name: Seq<char>,
}

impl View for SmtcSessionInfo {
    type V = SessionView;

    open spec fn view(&self) -> SessionView {
        SessionView {
            session_id: self.session_id@,
            source_app: self.source_app_user_model_id@,
            display_name: self.display_name@,
        }
    }
}

/// The views of a list of sessions.
pub open spec fn session_views(v: Seq<SmtcSessionInfo>) -> Seq<SessionView> {
    Seq::new(v.len(), |i: int| v[i]@)
}

/// The name that is shown for a session: what stands behind the last `!` of its
/// id.
pub open spec fn display_name(id: Seq<char>) -> Seq<char> {
    split_any(id, seq!['!']).last()
}

/// A session by its id.
pub open spec fn session_of(id: Seq<char>) -> SessionView {
    SessionView { session_id: id, source_app: id, display_name: display_name(id) }
}

/// The sessions that are listed: those with an id, in order.
pub open spec fn listed_sessions(ids: Seq<Seq<char>>) -> Seq<SessionView>
    decreases ids.len(),
{
    if ids.len() == 0 {
        Seq::empty()
    } else if ids.last().len() == 0 {
        listed_sessions(ids.drop_last())
    } else {
        listed_sessions(ids.drop_last()).push(session_of(ids.last()))
    }
}

/// A split text has at least one part.
proof fn lemma_split_not_empty(s: Seq<char>, ds: Seq<char>)
    ensures
        split_any(s, ds).len() > 0,
{
}

/// The name that is shown for a session.
pub fn session_display_name(id: &str) -> (r: String)
    ensures
        r@ == display_name(id@),
{
    let v = to_chars(id);
    let mark: [char; 1] = ['!'];
    proof {
        assert(mark@ =~= seq!['!']);
        lemma_split_not_empty(id@, seq!['!']);
    }
    let parts = split_at_any(v.as_slice(), &mark);
    let n: usize = parts.len() - 1;
    let name = string_of(parts[n].as_slice());
    proof {
        assert(parts@[n as int]@ == split_any(id@, seq!['!'])[n as int]);
    }
    name
}

/// Lists the sessions with these ids.
pub fn list_sessions(ids: &Vec<String>) -> (r: Vec<SmtcSessionInfo>)
    ensures
        session_views(r@) == listed_sessions(views(ids@)),
{
    let mut out: Vec<SmtcSessionInfo> = Vec::new();
    let ghost all = views(ids@);
    let mut i: usize = 0;
    proof {
        assert(session_views(out@) =~= listed_sessions(all.subrange(0, 0)));
    }
    while i < ids.len()
        invariant
            i <= ids.len(),
            all == views(ids@),
            session_views(out@) == listed_sessions(all.subrange(0, i as int)),
        decreases ids.len() - i,
    {
        let ghost before = out@;
        proof {
            let now = all.subrange(0, i + 1);
            assert(now.drop_last() =~= all.subrange(0, i as int));
            assert(now.last() == ids@[i as int]@);
        }
        if !ids[i].as_str().is_empty() {
            out.push(
                SmtcSessionInfo {
                    session_id: ids[i].clone(),
                    source_app_user_model_id: ids[i].clone(),
                    display_name: session_display_name(ids[i].as_str()),
                },
            );
            proof {
                assert(session_views(out@) =~= session_views(before).push(
                    session_of(ids@[i as int]@),
                ));
            }
        }
        i += 1;
    }
    proof {
        assert(all.subrange(0, i as int) =~= all);
    }
    out
}

/// The session that is followed, or that the system names: there may be one
/// whose id cannot be read.
#[derive(Debug, Clone, PartialEq)]
pub enum Session {
    Absent,
    Unnamed,
    Named(String),
}

/// The id of a session.
pub open spec fn session_id(s: Session) -> Option<Seq<char>> {
    match s {
        Session::Named(id) => Some(id@),
        _ => None,
    }
}

/// A copy of a session.
fn copy_session(s: &Session) -> (r: Session)
    ensures
        r == *s,
{
    match s {
        Session::Absent => Session::Absent,
        Session::Unnamed => Session::Unnamed,
        Session::Named(id) => Session::Named(id.clone()),
    }
}

/// What is followed, and what the user wants to be followed.
#[derive(Debug, Clone, PartialEq)]
pub struct SmtcState {
    pub target_session_id: Option<String>,
    pub monitored: Session,
}

/// What follows a change of the sessions.
#[derive(Debug, Clone, PartialEq)]
pub enum SessionSwitch {
    /// The session stays.
    Keep,
    /// Follow this session from now on, and read all of its state.
    SwitchTo(Session),
    /// Follow no session, and forget what was playing.
    Reset,
}

/// Whether the session that the user wants is there.
pub open spec fn target_is_there(target: Option<Seq<char>>, ids: Seq<Seq<char>>) -> bool {
    target is Some && target->0.len() > 0 && ids.contains(target->0)
}

/// Whether the session that the user wants has gone.
pub open spec fn target_is_gone(target: Option<Seq<char>>, ids: Seq<Seq<char>>) -> bool {
    target is Some && !target_is_there(target, ids)
}

/// What follows a change to the session `next`.
pub open spec fn switch_to(monitored: Session, next: Session) -> SessionSwitch {
    if session_id(next) == session_id(monitored) {
        SessionSwitch::Keep
    } else if next is Absent {
        SessionSwitch::Reset
    } else {
        SessionSwitch::SwitchTo(next)
    }
}

/// Whether a list holds an id.
fn has_id(ids: &Vec<String>, id: &String) -> (r: bool)
    ensures
        r == views(ids@).contains(id@),
{
    let ghost all = views(ids@);
    let mut i: usize = 0;
    while i < ids.len()
        invariant
            i <= ids.len(),
            all == views(ids@),
            forall|k: int| 0 <= k < i ==> #[trigger] all[k] != id@,
        decreases ids.len() - i,
    {
        if ids[i] == *id {
            proof {
                assert(all[i as int] == id@);
            }
            return true;
        }
        i += 1;
    }
    false
}

impl SmtcState {
    /// No session is followed.
    pub fn new() -> (r: SmtcState)
        ensures
            r == (SmtcState { target_session_id: None, monitored: Session::Absent }),
    {
        SmtcState { target_session_id: None, monitored: Session::Absent }
    }

    /// Takes the user's wish which session to follow: the empty id leaves it to
    /// the system.
    pub fn select_session(&mut self, id: String)
        ensures
            final(self).monitored == old(self).monitored,
            opt_view(final(self).target_session_id) == if id@.len() == 0 {
                None
            } else {
                Some(id@)
            },
    {
        self.target_session_id = if id.as_str().is_empty() {
            None
        } else {
            Some(id)
        };
    }

    /// Decides which session to follow, given the ids of the sessions there are
    /// and the session that the system names. Gives the id of a wanted session
    /// that has gone, and what to do.
    pub fn sessions_changed(&mut self, ids: &Vec<String>, system: &Session) -> (r: (
        Option<String>,
        SessionSwitch,
    ))
        ensures
            ({
                let target = opt_view(old(self).target_session_id);
                let there = target_is_there(target, views(ids@));
                let gone = target_is_gone(target, views(ids@));
                &&& opt_view(r.0) == if gone {
                    target
                } else {
                    None
                }
                &&& opt_view(final(self).target_session_id) == if gone {
                    None
                } else {
                    target
                }
                &&& there ==> {
                    if session_id(old(self).monitored) == target {
                        r.1 == SessionSwitch::Keep
                    } else {
                        r.1 is SwitchTo && session_id(r.1->SwitchTo_0) == target
                    }
                }
                &&& !there ==> r.1 == switch_to(old(self).monitored, *system)
                &&& match r.1 {
                    SessionSwitch::Keep => final(self).monitored == old(self).monitored,
                    SessionSwitch::SwitchTo(s) => final(self).monitored == s,
                    SessionSwitch::Reset => final(self).monitored is Absent,
                }
            }),
    {
        let mut vanished: Option<String> = None;
        let mut next = copy_session(system);
        match &self.target_session_id {
            Some(target) => {
                if !target.as_str().is_empty() && has_id(ids, target) {
                    next = Session::Named(target.clone());
                } else {
                    vanished = Some(target.clone());
                }
            },
            None => {},
        }
        if vanished.is_some() {
            self.target_session_id = None;
        }
        let same = match &next {
            Session::Named(a) => match &self.monitored {
                Session::Named(b) => *a == *b,
                _ => false,
            },
            _ => match &self.monitored {
                Session::Named(_) => false,
                _ => true,
            },
        };
        if same {
            return (vanished, SessionSwitch::Keep);
        }
        match next {
            Session::Absent => {
                self.monitored = Session::Absent;
                (vanished, SessionSwitch::Reset)
            },
            s => {
                self.monitored = copy_session(&s);
                (vanished, SessionSwitch::SwitchTo(s))
            },
        }
    }
}

// ---------------------------------------------------------------------------
// Requests to a session
// ---------------------------------------------------------------------------

/// What is asked of a session.
#[derive(Debug, Clone, Copy, PartialEq, Eq, Structural)]
pub enum SessionRequest {
    Play,
    Pause,
    SkipNext,
    SkipPrevious,
    /// Go to a position, in units of 100 nanoseconds.
    ChangePosition(i64),
    /// Move the volume towards this one.
    EaseVolume(u64),
    /// Nothing: the session cannot be told apart.
    Nothing,
}

/// The positions in milliseconds that can be written in units of 100
/// nanoseconds.
pub open spec fn can_seek_to(position_ms: u64) -> bool {
    i64::MIN <= wrapped(position_ms) * 10_000 <= i64::MAX
}

/// What a command asks of a session.
pub open spec fn request_for(command: SmtcControlCommand, session_has_id: bool) -> SessionRequest {
    match command {
        SmtcControlCommand::Play => SessionRequest::Play,
        SmtcControlCommand::Pause => SessionRequest::Pause,
        SmtcControlCommand::SkipNext => SessionRequest::SkipNext,
        SmtcControlCommand::SkipPrevious => SessionRequest::SkipPrevious,
        SmtcControlCommand::SeekTo(p) => SessionRequest::ChangePosition(
            (wrapped(p) * 10_000) as i64,
        ),
        SmtcControlCommand::SetVolume(v) => if session_has_id {
            SessionRequest::EaseVolume(v)
        } else {
            SessionRequest::Nothing
        },
    }
}

/// What a command asks of a session. The volume of a session without an id
/// cannot be set.
pub fn session_request(command: SmtcControlCommand, session_has_id: bool) -> (r: SessionRequest)
    requires
        match command {
            SmtcControlCommand::SeekTo(p) => can_seek_to(p),
            _ => true,
        },
    ensures
        r == request_for(command, session_has_id),
{
    match command {
        SmtcControlCommand::Play => SessionRequest::Play,
        SmtcControlCommand::Pause => SessionRequest::Pause,
        SmtcControlCommand::SkipNext => SessionRequest::SkipNext,
        SmtcControlCommand::SkipPrevious => SessionRequest::SkipPrevious,
        SmtcControlCommand::SeekTo(p) => SessionRequest::ChangePosition(to_signed(p) * 10_000),
        SmtcControlCommand::SetVolume(v) => if session_has_id {
            SessionRequest::EaseVolume(v)
        } else {
            SessionRequest::Nothing
        },
    }
}

impl SmtcState {
    /// What a command asks of the session that is followed: nothing where there is
    /// none.
    pub fn control(&self, command: SmtcControlCommand) -> (r: SessionRequest)
        requires
            match command {
                SmtcControlCommand::SeekTo(p) => can_seek_to(p),
                _ => true,
            },
        ensures
            r == if self.monitored is Absent {
                SessionRequest::Nothing
            } else {
                request_for(command, session_id(self.monitored) is Some && session_id(
                    self.monitored,
                )->0.len() > 0)
            },
    {
        match &self.monitored {
            Session::Absent => SessionRequest::Nothing,
            Session::Unnamed => session_request(command, false),
            Session::Named(id) => session_request(command, !id.as_str().is_empty()),
        }
    }
}

/// A duration in units of 100 nanoseconds as milliseconds. A negative one wraps
/// round, after its part below a millisecond has been dropped.
pub open spec fn ticks_ms(ticks: i64) -> nat {
    if ticks >= 0 {
        (ticks / 10_000) as nat
    } else {
        let m = (-ticks) / 10_000;
        if m == 0 {
            0
        } else {
            (0x1_0000_0000_0000_0000 - m) as nat
        }
    }
}

/// Turns units of 100 nanoseconds into milliseconds.
pub fn ticks_to_ms(ticks: i64) -> (r: u64)
    ensures
        r == ticks_ms(ticks),
{
    if ticks >= 0 {
        ticks as u64 / 10_000
    } else {
        let size: u64 = (-(ticks + 1)) as u64 + 1;
        let m: u64 = size / 10_000;
        if m == 0 {
            0
        } else {
            u64::MAX - m + 1
        }
    }
}

// ---------------------------------------------------------------------------
// What a session plays
// ---------------------------------------------------------------------------

/// Which controls a session offers.
#[derive(Debug, Clone, Copy, PartialEq, Eq, Structural)]
pub struct SessionControls {
    pub can_pause: bool,
    pub can_play: bool,
    pub can_skip_next: bool,
    pub can_skip_previous: bool,
    pub can_seek: bool,
}

/// What the session that is followed plays.
#[derive(Debug, Clone, PartialEq)]
pub struct SharedPlayerState {
    pub title: String,
    pub artist: String,
    pub album: String,
    pub song_duration_ms: u64,
    pub last_known_position_ms: u64,
    /// When the position was reported, on a clock that never goes back.
    pub last_known_position_report_time: Option<u64>,
    pub is_playing: bool,
    pub controls: SessionControls,
    pub cover_data: Option<Vec<u8>>,
    pub cover_data_hash: Option<u64>,
}

/// Whether the two states say the same of the song's texts.
pub open spec fn same_texts(a: SharedPlayerState, b: SharedPlayerState) -> bool {
    a.title == b.title && a.artist == b.artist && a.album == b.album
}

/// Whether the two states say the same of the time line.
pub open spec fn same_timeline(a: SharedPlayerState, b: SharedPlayerState) -> bool {
    a.song_duration_ms == b.song_duration_ms && a.last_known_position_ms
        == b.last_known_position_ms && a.last_known_position_report_time
        == b.last_known_position_report_time
}

/// Whether the two states say the same of the cover.
pub open spec fn same_cover(a: SharedPlayerState, b: SharedPlayerState) -> bool {
    a.cover_data == b.cover_data && a.cover_data_hash == b.cover_data_hash
}

impl SharedPlayerState {
    /// The session has started or stopped playing. `estimated_position_ms` is
    /// the position that the song is taken to have reached; it is kept where
    /// playing has changed. Controls that could not be read stay as they were.
    pub fn playback_changed(
        &mut self,
        is_playing: bool,
        estimated_position_ms: u64,
        now: u64,
        controls: Option<SessionControls>,
    )
        ensures
            same_texts(*final(self), *old(self)),
            same_cover(*final(self), *old(self)),
            final(self).song_duration_ms == old(self).song_duration_ms,
            final(self).is_playing == is_playing,
            final(self).last_known_position_ms == if old(self).is_playing != is_playing {
                estimated_position_ms
            } else {
                old(self).last_known_position_ms
            },
            final(self).last_known_position_report_time == if old(self).is_playing != is_playing {
                Some(now)
            } else {
                old(self).last_known_position_report_time
            },
            final(self).controls == match controls {
                Some(c) => c,
                None => old(self).controls,
            },
    {
        if self.is_playing != is_playing {
            self.last_known_position_ms = estimated_position_ms;
            self.last_known_position_report_time = Some(now);
        }
        self.is_playing = is_playing;
        match controls {
            Some(c) => {
                self.controls = c;
            },
            None => {},
        }
    }

    /// The session has reported its position and its duration; a duration of
    /// zero is not taken over.
    pub fn timeline_changed(&mut self, position_ms: u64, duration_ms: u64, now: u64)
        ensures
            same_texts(*final(self), *old(self)),
            same_cover(*final(self), *old(self)),
            final(self).is_playing == old(self).is_playing,
            final(self).controls == old(self).controls,
            final(self).last_known_position_ms == position_ms,
            final(self).last_known_position_report_time == Some(now),
            final(self).song_duration_ms == if duration_ms > 0 {
                duration_ms
            } else {
                old(self).song_duration_ms
            },
    {
        self.last_known_position_ms = position_ms;
        if duration_ms > 0 {
            self.song_duration_ms = duration_ms;
        }
        self.last_known_position_report_time = Some(now);
    }

    /// The session has reported the texts of its song.
    pub fn media_properties_changed(&mut self, title: String, artist: String, album: String)
        ensures
            final(self).title == title,
            final(self).artist == artist,
            final(self).album == album,
            same_timeline(*final(self), *old(self)),
            same_cover(*final(self), *old(self)),
            final(self).is_playing == old(self).is_playing,
            final(self).controls == old(self).controls,
    {
        self.title = title;
        self.artist = artist;
        self.album = album;
    }

    /// The song has no cover.
    pub fn cover_removed(&mut self)
        ensures
            same_texts(*final(self), *old(self)),
            same_timeline(*final(self), *old(self)),
            final(self).is_playing == old(self).is_playing,
            final(self).controls == old(self).controls,
            final(self).cover_data is None,
            final(self).cover_data_hash is None,
    {
        self.cover_data = None;
        self.cover_data_hash = None;
    }

    /// A cover has been read: it is kept with its hash, unless it is too large.
    /// Says whether it is kept.
    pub fn cover_read(&mut self, bytes: Vec<u8>) -> (r: bool)
        ensures
            same_texts(*final(self), *old(self)),
            same_timeline(*final(self), *old(self)),
            final(self).is_playing == old(self).is_playing,
            final(self).controls == old(self).controls,
            r == (bytes@.len() <= MAX_COVER_SIZE_BYTES),
            r ==> opt_bytes(final(self).cover_data) == Some(bytes@) && final(self).cover_data_hash
                == Some(cover_hash(bytes@)),
            !r ==> same_cover(*final(self), *old(self)),
    {
        if bytes.len() > MAX_COVER_SIZE_BYTES {
            return false;
        }
        self.cover_data_hash = Some(calculate_cover_hash(bytes.as_slice()));
        self.cover_data = Some(bytes);
        true
    }
}

/// A `SharedPlayerState` over mathematical values.
pub struct SharedView {
    pub title: Seq<char>,
    pub artist: Seq<char>,
    pub album: Seq<char>,
    pub duration: u64,
    pub position: u64,
    pub report_time: Option<u64>,
    pub playing: bool,
    pub controls: SessionControls,
    pub cover: Option<Seq<u8>>,
    pub cover_hash: Option<u64>,
}

impl View for SharedPlayerState {
    type V = SharedView;

    open spec fn view(&self) -> SharedView {
        SharedView {
            title: self.title@,
            artist: self.artist@,
            album: self.album@,
            duration: self.song_duration_ms,
            position: self.last_known_position_ms,
            report_time: self.last_known_position_report_time,
            playing: self.is_playing,
            controls: self.controls,
            cover: opt_bytes(self.cover_data),
            cover_hash: self.cover_data_hash,
        }
    }
}

/// What is known while no session is followed.
pub open spec fn no_song() -> SharedView {
    SharedView {
        title: Seq::empty(),
        artist: Seq::empty(),
        album: Seq::empty(),
        duration: 0,
        position: 0,
        report_time: None,
        playing: false,
        controls: SessionControls {
            can_pause: false,
            can_play: false,
            can_skip_next: false,
            can_skip_previous: false,
            can_seek: false,
        },
        cover: None,
        cover_hash: None,
    }
}

/// What is reported of a session.
pub open spec fn reported(s: SharedView) -> PlayingView {
    PlayingView {
        title: Some(s.title),
        artist: Some(s.artist),
        album_title: Some(s.album),
        duration_ms: Some(s.duration),
        position_ms: Some(s.position),
        position_report_time: s.report_time,
        is_playing: Some(s.playing),
        is_shuffle_active: None,
        repeat_mode: None,
        cover_data: s.cover,
        cover_data_hash: s.cover_hash,
    }
}

/// The configuration that the texts of a song are brought into simplified Chinese
/// with.
pub const TEXT_CONVERSION_CONFIG: &'static str = "tw2sp.json";

/// A text of a song as it is kept: in simplified Chinese, and empty where it could
/// not be read.
pub open spec fn kept_text(read: Option<Seq<char>>) -> Seq<char> {
    match read {
        Some(s) => converted(s, TEXT_CONVERSION_CONFIG@),
        None => Seq::empty(),
    }
}

/// A text of a song as it is kept.
fn text_to_keep(read: Option<String>) -> (r: String)
    ensures
        r@ == kept_text(opt_view(read)),
{
    match read {
        Some(s) => convert(s.as_str(), TEXT_CONVERSION_CONFIG),
        None => String::new(),
    }
}

/// What has changed in the session that is followed.
#[derive(Debug, Clone)]
pub enum SessionChange {
    /// It plays or not. The position is the one that the song is taken to have
    /// reached.
    Playback {
        is_playing: bool,
        estimated_position_ms: u64,
        now: u64,
        controls: Option<SessionControls>,
    },
    /// Its position and duration.
    Timeline { position_ms: u64, duration_ms: u64, now: u64 },
    /// The texts of its song; those that could be read.
    MediaProperties { title: Option<String>, artist: Option<String>, album: Option<String> },
    /// Its song has no cover.
    CoverRemoved,
    /// The cover of its song.
    CoverRead(Vec<u8>),
    /// No session is followed any more.
    SessionLost,
}

/// Whether a change is taken over: all are, but for a cover that is too large.
pub open spec fn is_taken_over(c: SessionChange) -> bool {
    match c {
        SessionChange::CoverRead(bytes) => bytes@.len() <= MAX_COVER_SIZE_BYTES,
        _ => true,
    }
}

/// What is known after a change that is taken over.
pub open spec fn after_change(s: SharedView, c: SessionChange) -> SharedView {
    match c {
        SessionChange::Playback { is_playing, estimated_position_ms, now, controls } => SharedView {
            playing: is_playing,
            position: if s.playing != is_playing {
                estimated_position_ms
            } else {
                s.position
            },
            report_time: if s.playing != is_playing {
                Some(now)
            } else {
                s.report_time
            },
            controls: match controls {
                Some(x) => x,
                None => s.controls,
            },
            ..s
        },
        SessionChange::Timeline { position_ms, duration_ms, now } => SharedView {
            position: position_ms,
            report_time: Some(now),
            duration: if duration_ms > 0 {
                duration_ms
            } else {
                s.duration
            },
            ..s
        },
        SessionChange::MediaProperties { title, artist, album } => SharedView {
            title: kept_text(opt_view(title)),
            artist: kept_text(opt_view(artist)),
            album: kept_text(opt_view(album)),
            ..s
        },
        SessionChange::CoverRemoved => SharedView { cover: None, cover_hash: None, ..s },
        SessionChange::CoverRead(bytes) => SharedView {
            cover: Some(bytes@),
            cover_hash: Some(cover_hash(bytes@)),
            ..s
        },
        SessionChange::SessionLost => no_song(),
    }
}

impl SharedPlayerState {
    /// No session is followed.
    pub fn empty() -> (r: SharedPlayerState)
        ensures
            r@ == no_song(),
    {
        SharedPlayerState {
            title: String::new(),
            artist: String::new(),
            album: String::new(),
            song_duration_ms: 0,
            last_known_position_ms: 0,
            last_known_position_report_time: None,
            is_playing: false,
            controls: SessionControls {
                can_pause: false,
                can_play: false,
                can_skip_next: false,
                can_skip_previous: false,
                can_seek: false,
            },
            cover_data: None,
            cover_data_hash: None,
        }
    }

    /// Forgets what was being played.
    pub fn reset_to_empty(&mut self)
        ensures
            final(self)@ == no_song(),
    {
        *self = SharedPlayerState::empty();
    }

    /// What is reported of the session.
    pub fn now_playing(&self) -> (r: NowPlayingInfo)
        ensures
            r@ == reported(self@),
    {
        NowPlayingInfo {
            title: Some(self.title.clone()),
            artist: Some(self.artist.clone()),
            album_title: Some(self.album.clone()),
            duration_ms: Some(self.song_duration_ms),
            position_ms: Some(self.last_known_position_ms),
            position_report_time: self.last_known_position_report_time,
            is_playing: Some(self.is_playing),
            is_shuffle_active: None,
            repeat_mode: None,
            cover_data: clone_bytes(&self.cover_data),
            cover_data_hash: self.cover_data_hash,
        }
    }

    /// The session has reported the texts of its song. They are kept in simplified
    /// Chinese; one that could not be read is kept empty.
    pub fn media_properties_read(
        &mut self,
        title: Option<String>,
        artist: Option<String>,
        album: Option<String>,
    )
        ensures
            final(self)@ == (SharedView {
                title: kept_text(opt_view(title)),
                artist: kept_text(opt_view(artist)),
                album: kept_text(opt_view(album)),
                ..old(self)@
            }),
    {
        let t = text_to_keep(title);
        let a = text_to_keep(artist);
        let b = text_to_keep(album);
        self.media_properties_changed(t, a, b);
    }

    /// Takes a change over, and gives the report that follows it; none where the
    /// change is not taken over.
    pub fn apply(&mut self, change: SessionChange) -> (r: Option<NowPlayingInfo>)
        ensures
            final(self)@ == if is_taken_over(change) {
                after_change(old(self)@, change)
            } else {
                old(self)@
            },
            match r {
                Some(info) => is_taken_over(change) && info@ == reported(final(self)@),
                None => !is_taken_over(change),
            },
    {
        match change {
            SessionChange::Playback { is_playing, estimated_position_ms, now, controls } => {
                self.playback_changed(is_playing, estimated_position_ms, now, controls);
            },
            SessionChange::Timeline { position_ms, duration_ms, now } => {
                self.timeline_changed(position_ms, duration_ms, now);
            },
            SessionChange::MediaProperties { title, artist, album } => {
                self.media_properties_read(title, artist, album);
            },
            SessionChange::CoverRemoved => {
                self.cover_removed();
            },
            SessionChange::CoverRead(bytes) => {
                if !self.cover_read(bytes) {
                    return None;
                }
            },
            SessionChange::SessionLost => {
                self.reset_to_empty();
            },
        }
        Some(self.now_playing())
    }
}

/// A report tells the cover's hash where it tells the cover: where that held before
/// a change, it holds after it.
pub proof fn law_reported_cover_has_its_hash(s: SharedView, c: SessionChange)
    requires
        is_taken_over(c),
        s.cover is Some ==> s.cover_hash == Some(cover_hash(s.cover->0)),
        s.cover is None ==> s.cover_hash is None,
    ensures
        ({
            let r = reported(after_change(s, c));
            match r.cover_data {
                Some(bytes) => r.cover_data_hash == Some(cover_hash(bytes)) && (c is CoverRead
                    || s.cover == Some(bytes)),
                None => r.cover_data_hash is None,
            }
        }),
{
}

/// A position that is written in units of 100 nanoseconds reads as itself.
pub proof fn law_seek_units(position_ms: u64)
    requires
        can_seek_to(position_ms),
    ensures
        ticks_ms((wrapped(position_ms) * 10_000) as i64) == position_ms,
{
}

} // verus!
