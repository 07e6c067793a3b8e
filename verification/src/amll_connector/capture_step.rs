//! Decides what is done with captured audio, packet by packet. The device and the
//! resampler are outside: they are asked by actions, and answer with events.

use vstd::prelude::*;

use super::audio_capture::{
    add_to_channels, channel_samples, has_chunk, interleave, interleaved_at, sample_at,
    sample_count, samples_from_bytes, take_chunk, TARGET_SAMPLE_RATE,
};

verus! {

/// What has been captured and not yet sent.
#[derive(Debug, Clone, PartialEq)]
pub struct CaptureState {
    /// The channels of the device.
    pub channels: u16,
    /// The frames that the resampler takes at once, where there is one.
    pub chunk_frames: Option<usize>,
    /// The samples of each channel that wait for the resampler.
    pub pending: Vec<Vec<u32>>,
    /// The interleaved samples of this packet that have been resampled.
    pub ready: Vec<u32>,
    /// Whether capturing has been stopped.
    pub finishing: bool,
}

/// What the device or the resampler answers.
#[derive(Debug, Clone, PartialEq)]
pub enum CaptureEvent {
    /// Bytes that were captured. The device says of silence that it is.
    Packet { silent: bool, bytes: Vec<u8> },
    /// The resampler has written this many frames.
    Resampled { planar: Vec<Vec<u32>>, frames: usize },
    /// The resampler has failed.
    ResampleFailed,
    /// Capturing has been stopped.
    Stopped,
}

/// What is done next.
#[derive(Debug, Clone, PartialEq)]
pub enum CaptureAction {
    /// Wait for the next packet.
    Wait,
    /// Resample these samples, given for each channel.
    Resample(Vec<Vec<u32>>),
    /// Send these interleaved samples, and then wait for the next packet, or end
    /// where capturing has been stopped.
    Send(Vec<u32>),
    /// Nothing more: capturing has ended.
    End,
}

/// A `CaptureState` over mathematical values.
pub struct CaptureView {
    pub channels: nat,
    pub chunk: Option<nat>,
    pub pending: Seq<Seq<u32>>,
    pub ready: Seq<u32>,
    pub finishing: bool,
}

/// A `CaptureAction` over mathematical values.
pub enum CaptureActionView {
    Wait,
    Resample(Seq<Seq<u32>>),
    Send(Seq<u32>),
    End,
}

/// The samples of each channel.
pub open spec fn planar_view(v: Seq<Vec<u32>>) -> Seq<Seq<u32>> {
    Seq::new(v.len(), |c: int| v[c]@)
}

impl View for CaptureState {
    type V = CaptureView;

    open spec fn view(&self) -> CaptureView {
        CaptureView {
            channels: self.channels as nat,
            chunk: match self.chunk_frames {
                Some(n) => Some(n as nat),
                None => None,
            },
            pending: planar_view(self.pending@),
            ready: self.ready@,
            finishing: self.finishing,
        }
    }
}

impl View for CaptureAction {
    type V = CaptureActionView;

    open spec fn view(&self) -> CaptureActionView {
        match self {
            CaptureAction::Wait => CaptureActionView::Wait,
            CaptureAction::Resample(v) => CaptureActionView::Resample(planar_view(v@)),
            CaptureAction::Send(v) => CaptureActionView::Send(v@),
            CaptureAction::End => CaptureActionView::End,
        }
    }
}

/// Whether a state is one of a device with channels, each of which has its own
/// samples, and of a resampler that takes something.
pub open spec fn is_capture(s: CaptureView) -> bool {
    &&& s.channels > 0
    &&& s.pending.len() == s.channels
    &&& s.chunk is Some ==> s.chunk->0 > 0
}

/// No samples for each of the channels.
pub open spec fn silent_channels(channels: nat) -> Seq<Seq<u32>> {
    Seq::new(channels, |c: int| Seq::empty())
}

/// The samples in captured bytes.
pub open spec fn samples_of(bytes: Seq<u8>, channels: nat) -> Seq<u32> {
    Seq::new(sample_count(bytes.len(), channels), |i: int| sample_at(bytes, i))
}

/// The first `frames` frames of the channels, interleaved.
pub open spec fn interleaved(planar: Seq<Seq<u32>>, frames: nat) -> Seq<u32> {
    Seq::new(
        frames * planar.len(),
        |i: int| planar[i % planar.len() as int][i / planar.len() as int],
    )
}

/// The samples of each channel with interleaved samples added.
pub open spec fn with_samples(pending: Seq<Seq<u32>>, samples: Seq<u32>) -> Seq<Seq<u32>> {
    Seq::new(
        pending.len(),
        |c: int| pending[c] + channel_samples(samples, pending.len(), c as nat),
    )
}

/// Whether every channel has at least `n` samples.
pub open spec fn all_have(planar: Seq<Seq<u32>>, n: nat) -> bool {
    forall|c: int| 0 <= c < planar.len() ==> (#[trigger] planar[c]).len() >= n
}

/// The first `n` samples of each channel.
pub open spec fn heads(planar: Seq<Seq<u32>>, n: nat) -> Seq<Seq<u32>> {
    Seq::new(planar.len(), |c: int| planar[c].subrange(0, n as int))
}

/// The samples of each channel behind the first `n`.
pub open spec fn tails(planar: Seq<Seq<u32>>, n: nat) -> Seq<Seq<u32>> {
    Seq::new(planar.len(), |c: int| planar[c].subrange(n as int, planar[c].len() as int))
}

/// Whether a sample waits for the resampler.
pub open spec fn has_pending(planar: Seq<Seq<u32>>) -> bool {
    exists|c: int| 0 <= c < planar.len() && (#[trigger] planar[c]).len() > 0
}

/// What is done next where nothing is asked of the resampler: what is ready is
/// sent.
pub open spec fn flush(s: CaptureView) -> (CaptureView, CaptureActionView) {
    if s.ready.len() > 0 {
        (CaptureView { ready: Seq::empty(), ..s }, CaptureActionView::Send(s.ready))
    } else if s.finishing {
        (s, CaptureActionView::End)
    } else {
        (s, CaptureActionView::Wait)
    }
}

/// What is done next: a chunk is resampled where there is a resampler and every
/// channel has one.
pub open spec fn settle(s: CaptureView) -> (CaptureView, CaptureActionView) {
    if s.chunk is Some && all_have(s.pending, s.chunk->0) {
        (
            CaptureView { pending: tails(s.pending, s.chunk->0), ..s },
            CaptureActionView::Resample(heads(s.pending, s.chunk->0)),
        )
    } else {
        flush(s)
    }
}

/// Whether the resampler has written what it says.
pub open spec fn is_resampled(s: CaptureView, planar: Seq<Seq<u32>>, frames: nat) -> bool {
    planar.len() == s.channels && all_have(planar, frames) && frames * planar.len() <= usize::MAX
}

/// What an event leads to. Silence is dropped. Samples are sent as they are where
/// there is no resampler, and wait for it where there is one. When the resampler
/// fails, what waits for it is forgotten, and what is ready is sent. When capturing
/// stops, what still waits is resampled at once.
pub open spec fn after_capture(s: CaptureView, e: CaptureEvent) -> (
    CaptureView,
    CaptureActionView,
) {
    match e {
        CaptureEvent::Packet { silent, bytes } => {
            let samples = samples_of(bytes@, s.channels);
            if silent {
                (s, CaptureActionView::Wait)
            } else if s.chunk is Some {
                settle(
                    CaptureView {
                        pending: with_samples(s.pending, samples),
                        ready: Seq::empty(),
                        ..s
                    },
                )
            } else {
                settle(CaptureView { ready: samples, ..s })
            }
        },
        CaptureEvent::Resampled { planar, frames } => settle(
            CaptureView {
                ready: s.ready + interleaved(planar_view(planar@), frames as nat),
                ..s
            },
        ),
        CaptureEvent::ResampleFailed => flush(
            CaptureView { pending: silent_channels(s.channels), ..s },
        ),
        CaptureEvent::Stopped => {
            let t = CaptureView {
                pending: silent_channels(s.channels),
                ready: Seq::empty(),
                finishing: true,
                ..s
            };
            if s.chunk is Some && has_pending(s.pending) {
                (t, CaptureActionView::Resample(s.pending))
            } else {
                (t, CaptureActionView::End)
            }
        },
    }
}

/// Empty channels.
fn empty_channels(channels: u16) -> (r: Vec<Vec<u32>>)
    ensures
        planar_view(r@) == silent_channels(channels as nat),
{
    let mut r: Vec<Vec<u32>> = Vec::new();
    let mut i: u16 = 0;
    while i < channels
        invariant
            i <= channels,
            r@.len() == i,
            forall|c: int| 0 <= c < i ==> (#[trigger] r@[c])@ == Seq::<u32>::empty(),
        decreases channels - i,
    {
        r.push(Vec::new());
        i += 1;
    }
    proof {
        assert(planar_view(r@) =~= silent_channels(channels as nat));
    }
    r
}

impl CaptureState {
    /// Nothing has been captured from a device with this rate and these channels.
    /// There is a resampler, which takes `chunk_frames` frames at once, where the
    /// rate is not the one that the player expects.
    pub fn start(sample_rate: u32, channels: u16, chunk_frames: usize) -> (r: CaptureState)
        requires
            channels > 0,
            sample_rate != TARGET_SAMPLE_RATE ==> chunk_frames > 0,
        ensures
            r@ == (CaptureView {
                channels: channels as nat,
                chunk: if sample_rate != TARGET_SAMPLE_RATE {
                    Some(chunk_frames as nat)
                } else {
                    None
                },
                pending: silent_channels(channels as nat),
                ready: Seq::empty(),
                finishing: false,
            }),
            is_capture(r@),
    {
        CaptureState {
            channels,
            chunk_frames: if sample_rate != TARGET_SAMPLE_RATE {
                Some(chunk_frames)
            } else {
                None
            },
            pending: empty_channels(channels),
            ready: Vec::new(),
            finishing: false,
        }
    }

    /// Sends what is ready.
    fn flush_ready(&mut self) -> (r: CaptureAction)
        ensures
            (final(self)@, r@) == flush(old(self)@),
    {
        if self.ready.len() > 0 {
            let mut out: Vec<u32> = Vec::new();
            let ghost before = self.ready@;
            out.append(&mut self.ready);
            proof {
                assert(out@ =~= before);
                assert(self.ready@ =~= Seq::<u32>::empty());
            }
            CaptureAction::Send(out)
        } else if self.finishing {
            CaptureAction::End
        } else {
            CaptureAction::Wait
        }
    }

    /// Asks for a chunk to be resampled, or sends what is ready.
    fn go_on(&mut self) -> (r: CaptureAction)
        ensures
            (final(self)@, r@) == settle(old(self)@),
    {
        match self.chunk_frames {
            Some(n) => {
                let ghost before = self.pending@;
                let ghost s = self@;
                proof {
                    assert forall|c: int| 0 <= c < before.len() implies #[trigger] s.pending[c]
                        == before[c]@ by {}
                    if all_have(s.pending, n as nat) {
                        assert forall|c: int| 0 <= c < before.len() implies (
                        #[trigger] before[c])@.len() >= n by {
                            assert(s.pending[c].len() >= n);
                        }
                    }
                    if has_chunk(before, n as nat) {
                        assert forall|c: int| 0 <= c < s.pending.len() implies (
                        #[trigger] s.pending[c]).len() >= n by {
                            assert(before[c]@.len() >= n);
                        }
                    }
                }
                match take_chunk(&mut self.pending, n) {
                    Some(chunk) => {
                        proof {
                            assert(planar_view(chunk@) =~= heads(s.pending, n as nat));
                            assert(planar_view(self.pending@) =~= tails(s.pending, n as nat));
                        }
                        return CaptureAction::Resample(chunk);
                    },
                    None => {},
                }
            },
            None => {},
        }
        self.flush_ready()
    }

    /// Takes a packet that is not silent.
    fn take_packet(&mut self, bytes: Vec<u8>) -> (r: CaptureAction)
        requires
            is_capture(old(self)@),
        ensures
            (final(self)@, r@) == after_capture(
                old(self)@,
                CaptureEvent::Packet { silent: false, bytes },
            ),
    {
        let ghost s = self@;
        let samples = samples_from_bytes(bytes.as_slice(), self.channels);
        proof {
            assert(samples@ =~= samples_of(bytes@, s.channels));
        }
        if self.chunk_frames.is_some() {
            add_to_channels(&mut self.pending, &samples);
            self.ready = Vec::new();
            proof {
                assert(planar_view(self.pending@) =~= with_samples(s.pending, samples@));
                assert(self.ready@ =~= Seq::<u32>::empty());
            }
        } else {
            self.ready = samples;
        }
        self.go_on()
    }

    /// Takes what the resampler has written.
    fn take_resampled(&mut self, planar: Vec<Vec<u32>>, frames: usize) -> (r: CaptureAction)
        requires
            is_capture(old(self)@),
            is_resampled(old(self)@, planar_view(planar@), frames as nat),
        ensures
            (final(self)@, r@) == after_capture(
                old(self)@,
                CaptureEvent::Resampled { planar, frames },
            ),
    {
        let ghost s = self@;
        let ghost view = planar_view(planar@);
        proof {
            assert forall|c: int| 0 <= c < planar@.len() implies (#[trigger] planar@[c])@.len()
                >= frames by {
                assert(view[c].len() >= frames);
            }
        }
        let mut more = interleave(&planar, frames);
        proof {
            let n = planar@.len() as int;
            assert forall|i: int| 0 <= i < more@.len() implies more@[i] == #[trigger] interleaved(
                view,
                frames as nat,
            )[i] by {
                assert(more@[i] == interleaved_at(planar@, i));
                assert(0 <= i % n < n) by (nonlinear_arith)
                    requires
                        n > 0,
                ;
            }
            assert(more@ =~= interleaved(view, frames as nat));
        }
        self.ready.append(&mut more);
        proof {
            assert(self.ready@ =~= s.ready + interleaved(view, frames as nat));
        }
        self.go_on()
    }

    /// Stops capturing.
    fn stop(&mut self) -> (r: CaptureAction)
        requires
            is_capture(old(self)@),
        ensures
            (final(self)@, r@) == after_capture(old(self)@, CaptureEvent::Stopped),
    {
        let ghost s = self@;
        let mut waiting = false;
        let mut i: usize = 0;
        while i < self.pending.len()
            invariant
                i <= self.pending.len(),
                self@ == s,
                waiting ==> has_pending(s.pending),
                !waiting ==> forall|c: int| 0 <= c < i ==> (#[trigger] s.pending[c]).len() == 0,
            decreases self.pending.len() - i,
        {
            if self.pending[i].len() > 0 {
                proof {
                    assert(s.pending[i as int].len() > 0);
                }
                waiting = true;
            }
            i += 1;
        }
        let mut rest: Vec<Vec<u32>> = Vec::new();
        let ghost before = self.pending@;
        rest.append(&mut self.pending);
        proof {
            assert(rest@ =~= before);
        }
        self.pending = empty_channels(self.channels);
        self.ready = Vec::new();
        self.finishing = true;
        proof {
            assert(self.ready@ =~= Seq::<u32>::empty());
        }
        if self.chunk_frames.is_some() && waiting {
            CaptureAction::Resample(rest)
        } else {
            CaptureAction::End
        }
    }

    /// Takes an event, and decides what is done next.
    pub fn step(&mut self, event: CaptureEvent) -> (r: CaptureAction)
        requires
            is_capture(old(self)@),
            match event {
                CaptureEvent::Resampled { planar, frames } => is_resampled(
                    old(self)@,
                    planar_view(planar@),
                    frames as nat,
                ),
                _ => true,
            },
        ensures
            (final(self)@, r@) == after_capture(old(self)@, event),
            is_capture(final(self)@),
    {
        match event {
            CaptureEvent::Packet { silent, bytes } => {
                if silent {
                    CaptureAction::Wait
                } else {
                    self.take_packet(bytes)
                }
            },
            CaptureEvent::Resampled { planar, frames } => self.take_resampled(planar, frames),
            CaptureEvent::ResampleFailed => {
                self.pending = empty_channels(self.channels);
                self.flush_ready()
            },
            CaptureEvent::Stopped => self.stop(),
        }
    }
}

/// Of the samples that wait for the resampler none is lost and none changes its
/// place: the chunk that is resampled and what is left are what there was, and
/// what is ready is still ready.
pub proof fn law_chunks_hold_every_sample(s: CaptureView, c: int)
    requires
        0 <= c < s.pending.len(),
    ensures
        match settle(s) {
            (t, CaptureActionView::Resample(chunk)) => chunk[c] + t.pending[c] == s.pending[c]
                && t.ready == s.ready,
            (t, CaptureActionView::Send(sent)) => t.pending == s.pending && sent == s.ready,
            (t, _) => t == s && s.ready.len() == 0,
        },
{
    if s.chunk is Some && all_have(s.pending, s.chunk->0) {
        let n = s.chunk->0;
        assert(s.pending[c].len() >= n);
        assert(heads(s.pending, n)[c] + tails(s.pending, n)[c] =~= s.pending[c]);
    }
}

/// While chunks are resampled, fewer and fewer samples wait: every packet is done
/// with after finitely many chunks.
pub proof fn law_chunks_come_to_an_end(s: CaptureView)
    requires
        is_capture(s),
        settle(s).1 is Resample,
    ensures
        settle(s).0.pending[0].len() < s.pending[0].len(),
{
    assert(s.pending[0].len() >= s.chunk->0);
}

/// Without a resampler every packet that is not silent is sent as it was captured.
pub proof fn law_same_rate_is_sent_as_captured(s: CaptureView, bytes: Vec<u8>)
    requires
        is_capture(s),
        s.chunk is None,
        !s.finishing,
    ensures
        ({
            let (t, action) = after_capture(s, CaptureEvent::Packet { silent: false, bytes });
            let samples = samples_of(bytes@, s.channels);
            &&& t.pending == s.pending
            &&& if samples.len() > 0 {
                action == CaptureActionView::Send(samples)
            } else {
                action == CaptureActionView::Wait
            }
        }),
{
}

} // verus!
