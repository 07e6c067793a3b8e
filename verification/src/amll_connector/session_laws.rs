//! What is made of the media sessions of the system and of the sound that it plays.

use vstd::prelude::*;

use super::audio_capture::{
    adjusted_at, adjusted_len, channel_samples, is_supported, law_channel_of_samples, sample_bytes,
};
use super::capture_step::{
    after_capture, all_have, interleaved, is_capture, planar_view, samples_of, with_samples,
    CaptureActionView, CaptureEvent, CaptureView,
};
use super::smtc_handler::{
    after_change, cover_hash, display_name, is_taken_over, listed_sessions, reported, request_for,
    switch_to, target_is_gone, target_is_there, ticks_ms, Session, SessionChange, SessionRequest,
    SessionSwitch, SessionView, SharedPlayerState,
};
use super::types::{NowPlayingInfo, SmtcControlCommand};
use super::wire::{le_bytes, le_value};
use crate::chinese_conversion_processor::converted;
use crate::text::split_any;
use crate::text_laws::law_split;

verus! {

// ---------------------------------------------------------------------------
// Sessions
// ---------------------------------------------------------------------------

/// The last part of a text that is split in two.
proof fn lemma_last_part(a: Seq<char>, b: Seq<char>)
    requires
        forall|k: int| 0 <= k < b.len() ==> #[trigger] b[k] != '!',
    ensures
        split_any(a.push('!') + b, seq!['!']).last() == b,
        split_any(b, seq!['!']) == seq![b],
    decreases a.len(),
{
    let ds = seq!['!'];
    assert(ds[0] == '!');
    assert(ds.contains('!'));
    assert forall|k: int| 0 <= k < b.len() implies !ds.contains(#[trigger] b[k]) by {
        if ds.contains(b[k]) {
            let m = choose|m: int| 0 <= m < ds.len() && ds[m] == b[k];
            assert(m == 0);
        }
    }
    law_split(b, '!', b, ds);
    let i = lemma_first_mark(a, 0);
    if i == a.len() {
        assert forall|k: int| 0 <= k < a.len() implies !ds.contains(#[trigger] a[k]) by {
            if ds.contains(a[k]) {
                let m = choose|m: int| 0 <= m < ds.len() && ds[m] == a[k];
                assert(m == 0);
            }
        }
        law_split(a, '!', b, ds);
        assert((seq![a] + seq![b]).last() == b);
    } else {
        let front = a.subrange(0, i);
        let rest = a.subrange(i + 1, a.len() as int);
        assert forall|k: int| 0 <= k < front.len() implies !ds.contains(#[trigger] front[k]) by {
            assert(front[k] == a[k]);
            if ds.contains(front[k]) {
                let m = choose|m: int| 0 <= m < ds.len() && ds[m] == front[k];
                assert(m == 0);
            }
        }
        lemma_last_part(rest, b);
        law_split(front, '!', rest.push('!') + b, ds);
        assert(a.push('!') + b =~= front.push('!') + (rest.push('!') + b));
        let tail = split_any(rest.push('!') + b, ds);
        assert(tail.len() > 0);
        assert((seq![front] + tail).last() == tail.last());
    }
}

/// The first exclamation mark, or the end.
proof fn lemma_first_mark(a: Seq<char>, from: int) -> (i: int)
    requires
        0 <= from <= a.len(),
    ensures
        from <= i <= a.len(),
        i < a.len() ==> a[i] == '!',
        forall|k: int| from <= k < i ==> #[trigger] a[k] != '!',
    decreases a.len() - from,
{
    if from == a.len() || a[from] == '!' {
        from
    } else {
        lemma_first_mark(a, from + 1)
    }
}

/// A session is shown by what stands behind the last exclamation mark of its id, or by
/// its id where it has none.
pub proof fn law_display_name(a: Seq<char>, b: Seq<char>)
    requires
        forall|k: int| 0 <= k < b.len() ==> #[trigger] b[k] != '!',
    ensures
        display_name(a.push('!') + b) == b,
        display_name(b) == b,
{
    lemma_last_part(a, b);
}

/// The sessions that have an id are listed in order, each with its id as that of its
/// application too.
pub proof fn law_listed_sessions(ids: Seq<Seq<char>>, id: Seq<char>)
    ensures
        listed_sessions(Seq::empty()).len() == 0,
        id.len() == 0 ==> listed_sessions(ids.push(id)) == listed_sessions(ids),
        id.len() > 0 ==> listed_sessions(ids.push(id)) == listed_sessions(ids).push(
            SessionView { session_id: id, source_app: id, display_name: display_name(id) },
        ),
{
    assert(ids.push(id).drop_last() =~= ids);
}

/// The id of a session that has one.
pub open spec fn id_of(s: Session) -> Option<Seq<char>> {
    match s {
        Session::Named(id) => Some(id@),
        Session::Unnamed => None,
        Session::Absent => None,
    }
}

/// The session of the system is followed where its id is another one than that of the
/// session that is followed, and where there is none what was playing is forgotten. The
/// session that the user wants is there where its id is among those that are.
pub proof fn law_followed_session(
    monitored: Session,
    next: Session,
    target: Option<Seq<char>>,
    ids: Seq<Seq<char>>,
)
    ensures
        ({
            let r = switch_to(monitored, next);
            &&& id_of(next) == id_of(monitored) ==> r == SessionSwitch::Keep
            &&& id_of(next) != id_of(monitored) && next is Absent ==> r == SessionSwitch::Reset
            &&& id_of(next) != id_of(monitored) && !(next is Absent) ==> r
                == SessionSwitch::SwitchTo(next)
        }),
        target_is_there(target, ids) ==> target is Some && ids.contains(target->0),
        target is Some && target->0.len() > 0 && ids.contains(target->0) ==> target_is_there(
            target,
            ids,
        ),
        target_is_gone(target, ids) <==> target is Some && !target_is_there(target, ids),
{
}

/// A session is asked for what the player wants. A position is given in units of a
/// hundred nanoseconds, of which ten thousand are a millisecond, and a volume is moved
/// only where the session has an id.
pub proof fn law_session_requests(has_id: bool, x: u64)
    ensures
        request_for(SmtcControlCommand::Play, has_id) == SessionRequest::Play,
        request_for(SmtcControlCommand::Pause, has_id) == SessionRequest::Pause,
        request_for(SmtcControlCommand::SkipNext, has_id) == SessionRequest::SkipNext,
        request_for(SmtcControlCommand::SkipPrevious, has_id) == SessionRequest::SkipPrevious,
        x * 10_000 <= i64::MAX ==> request_for(SmtcControlCommand::SeekTo(x), has_id)
            == SessionRequest::ChangePosition((x * 10_000) as i64),
        has_id ==> request_for(SmtcControlCommand::SetVolume(x), has_id)
            == SessionRequest::EaseVolume(x),
        !has_id ==> request_for(SmtcControlCommand::SetVolume(x), has_id)
            == SessionRequest::Nothing,
        x <= i64::MAX ==> ticks_ms(x as i64) == x / 10_000,
{
}

/// What is reported of a session is what is known of it.
pub proof fn law_what_is_reported(s: SharedPlayerState, r: NowPlayingInfo)
    requires
        r@ == reported(s@),
    ensures
        r.title is Some && r.title->0@ == s.title@,
        r.artist is Some && r.artist->0@ == s.artist@,
        r.album_title is Some && r.album_title->0@ == s.album@,
        r.duration_ms == Some(s.song_duration_ms),
        r.position_ms == Some(s.last_known_position_ms),
        r.position_report_time == s.last_known_position_report_time,
        r.is_playing == Some(s.is_playing),
        r.is_shuffle_active is None,
        r.repeat_mode is None,
        s.cover_data is Some ==> r.cover_data is Some && r.cover_data->0@ == s.cover_data->0@,
        s.cover_data is None ==> r.cover_data is None,
        r.cover_data_hash == s.cover_data_hash,
{
}

/// What is known of a session after a change: of a change of playing whether it plays,
/// with the position and the time where that is new; of the time line the position, the
/// time, and the duration where there is one; of the texts the texts, in simplified
/// Chinese, empty where they could not be read; of the cover the cover with its hash.
/// All else stays. A session that is lost leaves nothing, and a cover of more than
/// twenty mebibytes is not taken over.
pub proof fn law_session_changes(s: SharedPlayerState, c: SessionChange, t: SharedPlayerState)
    requires
        t@ == after_change(s@, c),
    ensures
        !(c is Playback || c is SessionLost) ==> t.is_playing == s.is_playing && t.controls
            == s.controls,
        !(c is Playback || c is Timeline || c is SessionLost) ==> t.last_known_position_ms
            == s.last_known_position_ms && t.last_known_position_report_time
            == s.last_known_position_report_time,
        !(c is Timeline || c is SessionLost) ==> t.song_duration_ms == s.song_duration_ms,
        !(c is MediaProperties || c is SessionLost) ==> t.title@ == s.title@ && t.artist@
            == s.artist@ && t.album@ == s.album@,
        !(c is CoverRemoved || c is CoverRead || c is SessionLost) ==> t@.cover == s@.cover
            && t.cover_data_hash == s.cover_data_hash,
        match c {
            SessionChange::Playback { is_playing, estimated_position_ms, now, controls } => {
                let turned = s.is_playing != is_playing;
                &&& t.is_playing == is_playing
                &&& turned ==> t.last_known_position_ms == estimated_position_ms
                    && t.last_known_position_report_time == Some(now)
                &&& !turned ==> t.last_known_position_ms == s.last_known_position_ms
                    && t.last_known_position_report_time == s.last_known_position_report_time
                &&& controls is Some ==> t.controls == controls->0
                &&& controls is None ==> t.controls == s.controls
            },
            SessionChange::Timeline { position_ms, duration_ms, now } => {
                &&& t.last_known_position_ms == position_ms
                &&& t.last_known_position_report_time == Some(now)
                &&& duration_ms > 0 ==> t.song_duration_ms == duration_ms
                &&& duration_ms == 0 ==> t.song_duration_ms == s.song_duration_ms
            },
            SessionChange::MediaProperties { title, artist, album } => {
                &&& title is Some ==> t.title@ == converted(title->0@, "tw2sp.json"@)
                &&& title is None ==> t.title@.len() == 0
                &&& artist is Some ==> t.artist@ == converted(artist->0@, "tw2sp.json"@)
                &&& artist is None ==> t.artist@.len() == 0
                &&& album is Some ==> t.album@ == converted(album->0@, "tw2sp.json"@)
                &&& album is None ==> t.album@.len() == 0
            },
            SessionChange::CoverRemoved => t.cover_data is None && t.cover_data_hash is None,
            SessionChange::CoverRead(bytes) => {
                &&& t.cover_data is Some && t.cover_data->0@ == bytes@
                &&& t.cover_data_hash == Some(cover_hash(bytes@))
                &&& is_taken_over(c) <==> bytes@.len() <= 20 * 1024 * 1024
            },
            SessionChange::SessionLost => {
                &&& t.title@.len() == 0 && t.artist@.len() == 0 && t.album@.len() == 0
                &&& t.song_duration_ms == 0 && t.last_known_position_ms == 0
                &&& t.last_known_position_report_time is None
                &&& !t.is_playing
                &&& t.cover_data is None && t.cover_data_hash is None
                &&& !t.controls.can_play && !t.controls.can_pause && !t.controls.can_seek
                &&& !t.controls.can_skip_next && !t.controls.can_skip_previous
            },
        },
{
}

// ---------------------------------------------------------------------------
// Sound
// ---------------------------------------------------------------------------

/// Only samples that are floating-point numbers of 32 bits can be captured, whether the
/// format says so itself or in its extension.
pub proof fn law_captured_formats(tag: u16, extension_is_float: bool, bits: u16)
    ensures
        is_supported(tag, extension_is_float, bits) <==> bits == 32 && (tag == 3 || (tag == 65534
            && extension_is_float)),
{
}

/// A sample is a number of four bytes, the lowest first, and of a packet the whole
/// frames are taken, each with a sample for each channel.
pub proof fn law_captured_samples(bytes: Seq<u8>, channels: nat, i: int)
    requires
        channels > 0,
        0 <= i < samples_of(bytes, channels).len(),
        4 * i + 4 <= bytes.len(),
    ensures
        samples_of(bytes, channels)[i] == bytes[4 * i] + 0x100 * bytes[4 * i + 1] + 0x1_0000
            * bytes[4 * i + 2] + 0x100_0000 * bytes[4 * i + 3],
        samples_of(bytes, channels).len() == bytes.len() / (4 * channels) * channels,
{
    let v = bytes.subrange(4 * i, 4 * i + 4);
    let v1 = v.subrange(1, 4);
    let v2 = v1.subrange(1, 3);
    let v3 = v2.subrange(1, 2);
    let v4 = v3.subrange(1, 1);
    assert(le_value(v4) == 0);
    assert(le_value(v3) == bytes[4 * i + 3]);
    assert(le_value(v2) == bytes[4 * i + 2] + 256 * le_value(v3));
    assert(le_value(v1) == bytes[4 * i + 1] + 256 * le_value(v2));
    assert(le_value(v) == bytes[4 * i] + 256 * le_value(v1));
}

/// Samples are put behind those of their channel: the one at place `c` of a frame behind
/// those of channel `c`.
pub proof fn law_samples_of_channels(
    pending: Seq<Seq<u32>>,
    samples: Seq<u32>,
    c: int,
    k: nat,
)
    requires
        0 <= c < pending.len(),
        k * pending.len() + c < samples.len(),
    ensures
        ({
            let r = with_samples(pending, samples);
            &&& r.len() == pending.len()
            &&& r[c].take(pending[c].len() as int) == pending[c]
            &&& pending[c].len() + k < r[c].len()
            &&& r[c][(pending[c].len() + k) as int] == samples[(k * pending.len() + c) as int]
        }),
{
    law_channel_of_samples(samples, pending.len(), c as nat, k);
    let r = with_samples(pending, samples);
    assert(r[c] == pending[c] + channel_samples(samples, pending.len(), c as nat));
    assert(r[c].take(pending[c].len() as int) =~= pending[c]);
}

/// Where channels are interleaved, the frame `f` holds the sample `f` of each channel in
/// the order of the channels.
pub proof fn law_interleaved(planar: Seq<Seq<u32>>, frames: nat, f: nat, c: nat)
    requires
        f < frames,
        c < planar.len(),
    ensures
        interleaved(planar, frames).len() == frames * planar.len(),
        f * planar.len() + c < frames * planar.len(),
        interleaved(planar, frames)[(f * planar.len() + c) as int] == planar[c as int][f as int],
{
    let n = planar.len();
    let i = f * n + c;
    assert(i < frames * n) by (nonlinear_arith)
        requires
            i == f * n + c,
            f < frames,
            c < n,
    ;
    assert(i % n == c && i / n == f) by (nonlinear_arith)
        requires
            i == f * n + c,
            c < n,
    ;
}

/// Of more than two channels the first two are kept of each frame, one channel is
/// doubled, and samples of two channels stay as they are.
pub proof fn law_two_channels(samples: Seq<u32>, channels: nat, f: nat)
    ensures
        channels == 2 ==> adjusted_len(samples.len(), channels, 2) == samples.len() && adjusted_at(
            samples,
            channels,
            2,
            f as int,
        ) == samples[f as int],
        channels == 1 ==> adjusted_len(samples.len(), channels, 2) == 2 * samples.len()
            && adjusted_at(samples, channels, 2, (2 * f) as int) == samples[f as int]
            && adjusted_at(samples, channels, 2, (2 * f + 1) as int) == samples[f as int],
        channels > 2 ==> adjusted_len(samples.len(), channels, 2) == samples.len() / channels * 2
            && adjusted_at(samples, channels, 2, (2 * f) as int) == samples[(f * channels) as int]
            && adjusted_at(samples, channels, 2, (2 * f + 1) as int) == samples[(f * channels
            + 1) as int],
{
}

/// A sample is sent as two bytes, the lower first, in order.
pub proof fn law_sent_samples(samples: Seq<u16>, x: u16)
    ensures
        sample_bytes(Seq::empty()).len() == 0,
        sample_bytes(samples.push(x)) == sample_bytes(samples) + seq![
            (x % 256) as u8,
            (x / 256) as u8,
        ],
{
    assert(samples.push(x).drop_last() =~= samples);
    reveal_with_fuel(le_bytes, 3);
    assert(le_bytes(x as nat, 2) =~= seq![(x % 256) as u8, (x / 256) as u8]);
}

/// Whether every channel has `n` samples at least.
pub open spec fn is_enough(planar: Seq<Seq<u32>>, n: nat) -> bool {
    forall|c: int| 0 <= c < planar.len() ==> n <= (#[trigger] planar[c]).len()
}

/// What each event of a capture leads to. Silence is not looked at. A packet is put behind
/// what waits to be resampled, or is sent as it is where nothing is resampled. What has
/// been resampled is put behind what waits to be sent. What waits when the capture stops
/// is resampled once more, and what waits when that fails is dropped.
pub proof fn law_capture_events(s: CaptureView, e: CaptureEvent)
    requires
        is_capture(s),
    ensures
        ({
            let (t, action) = after_capture(s, e);
            match e {
                CaptureEvent::Packet { silent, bytes } => {
                    let samples = samples_of(bytes@, s.channels);
                    &&& silent ==> t == s && action is Wait
                    &&& !silent && s.chunk is None && samples.len() > 0 ==> action
                        == CaptureActionView::Send(samples) && t.pending == s.pending
                    &&& !silent && s.chunk is Some && !is_enough(
                        with_samples(s.pending, samples),
                        s.chunk->0,
                    ) ==> t.pending == with_samples(s.pending, samples) && t.ready.len() == 0 && (
                    !s.finishing ==> action is Wait)
                    &&& !silent && s.chunk is Some && is_enough(
                        with_samples(s.pending, samples),
                        s.chunk->0,
                    ) ==> {
                        &&& action is Resample
                        &&& action->Resample_0.len() == s.channels
                        &&& forall|c: int|
                            0 <= c < s.channels ==> (#[trigger] action->Resample_0[c]).len()
                                == s.chunk->0
                    }
                },
                CaptureEvent::Resampled { planar, frames } => {
                    let now = s.ready + interleaved(planar_view(planar@), frames as nat);
                    &&& action is Resample ==> t.ready == now
                    &&& action is Send ==> action == CaptureActionView::Send(now) && t.ready.len()
                        == 0
                    &&& action is Wait || action is End ==> now.len() == 0
                    &&& action is End <==> now.len() == 0 && s.finishing && !(action is Resample)
                },
                CaptureEvent::ResampleFailed => {
                    &&& !(action is Resample)
                    &&& s.ready.len() > 0 ==> action == CaptureActionView::Send(s.ready)
                    &&& forall|c: int|
                        0 <= c < t.pending.len() ==> (#[trigger] t.pending[c]).len() == 0
                },
                CaptureEvent::Stopped => {
                    let waits = s.chunk is Some && exists|c: int|
                        0 <= c < s.pending.len() && (#[trigger] s.pending[c]).len() > 0;
                    &&& t.finishing
                    &&& waits ==> action == CaptureActionView::Resample(s.pending)
                    &&& !waits ==> action is End
                    &&& t.ready.len() == 0
                },
            }
        }),
{
    match e {
        CaptureEvent::Packet { silent, bytes } => {
            let now = with_samples(s.pending, samples_of(bytes@, s.channels));
            assert(s.chunk is Some ==> is_enough(now, s.chunk->0) == all_have(now, s.chunk->0));
        },
        _ => {},
    }
}

/// Units of a hundred nanoseconds before the start are taken less two to the power of 64,
/// and samples are left as they are where two channels are not asked for.
pub proof fn law_other_units(ticks: i64, samples: Seq<u32>, channels: nat, target: nat, i: int)
    requires
        target != 2,
    ensures
        ticks < 0 && -ticks >= 10_000 ==> ticks_ms(ticks) == 0x1_0000_0000_0000_0000 - (-ticks)
            / 10_000,
        -10_000 < ticks < 0 ==> ticks_ms(ticks) == 0,
        adjusted_len(samples.len(), channels, target) == samples.len(),
        adjusted_at(samples, channels, target, i) == samples[i],
{
}

} // verus!
