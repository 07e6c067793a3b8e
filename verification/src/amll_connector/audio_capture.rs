//! Prepares captured audio for the player. Samples are the bits of 32-bit
//! floating-point numbers; they are moved, never reckoned with.

use vstd::prelude::*;

use super::wire::{behind, le_bytes, le_value, push_le, take_le};
use crate::text::{dec, push_dec};

verus! {

/// The sample rate that the player expects.
pub const TARGET_SAMPLE_RATE: u32 = 48000;

/// The number of channels that the player expects.
pub const TARGET_CHANNELS: u16 = 2;

/// Milliseconds of audio per packet.
pub const AUDIO_PACKET_SEND_INTERVAL_MS: u64 = 100;

/// The format tag of floating-point samples.
pub const FORMAT_FLOAT: u16 = 3;

/// The format tag of formats that are described further.
pub const FORMAT_EXTENSIBLE: u16 = 0xfffe;

// ---------------------------------------------------------------------------
// Formats
// ---------------------------------------------------------------------------

/// Whether audio of a format can be captured: 32-bit floating-point samples.
/// `extension_is_float` says what the further description of an extensible
/// format says.
pub open spec fn is_supported(tag: u16, extension_is_float: bool, bits: u16) -> bool {
    (tag == FORMAT_FLOAT || (tag == FORMAT_EXTENSIBLE && extension_is_float)) && bits == 32
}

/// Checks that audio of a format can be captured.
pub fn check_format(tag: u16, extension_is_float: bool, bits: u16) -> (r: Result<(), String>)
    ensures
        r is Ok <==> is_supported(tag, extension_is_float, bits),
        r is Err ==> r->Err_0@ == "不支持的原始音频格式: 标签="@ + dec(tag as nat) + ", 位深度="@ + dec(
            bits as nat,
        ) + ". 程序期望捕获 32 位 IEEE 浮点数格式的音频。"@,
{
    let is_float = tag == FORMAT_FLOAT || (tag == FORMAT_EXTENSIBLE && extension_is_float);
    if !is_float || bits != 32 {
        let mut e = "不支持的原始音频格式: 标签=".to_owned();
        push_dec(&mut e, tag as u64);
        e.append(", 位深度=");
        push_dec(&mut e, bits as u64);
        e.append(". 程序期望捕获 32 位 IEEE 浮点数格式的音频。");
        return Err(e);
    }
    Ok(())
}

/// The number of frames that a resampler takes at once: those of one packet, and
/// at least twice the length of its filter.
pub fn resampler_chunk_frames(sample_rate: u32, filter_length: usize) -> (r: usize)
    requires
        filter_length <= usize::MAX / 2,
    ensures
        r == if (sample_rate / 10) as int > filter_length * 2 {
            (sample_rate / 10) as int
        } else {
            filter_length * 2
        },
{
    let frames: usize = (sample_rate / 10) as usize;
    if frames > filter_length * 2 {
        frames
    } else {
        filter_length * 2
    }
}

// ---------------------------------------------------------------------------
// Samples
// ---------------------------------------------------------------------------

/// Sample `i` of captured bytes.
pub open spec fn sample_at(bytes: Seq<u8>, i: int) -> u32 {
    le_value(bytes.subrange(4 * i, 4 * i + 4)) as u32
}

/// The number of samples in the whole frames of captured bytes.
pub open spec fn sample_count(len: nat, channels: nat) -> nat {
    if channels == 0 {
        0
    } else {
        len / (4 * channels) * channels
    }
}

/// The samples in captured bytes. A frame that is not whole is dropped.
pub fn samples_from_bytes(bytes: &[u8], channels: u16) -> (r: Vec<u32>)
    requires
        channels > 0,
    ensures
        r@.len() == sample_count(bytes@.len(), channels as nat),
        forall|i: int| 0 <= i < r@.len() ==> #[trigger] r@[i] == sample_at(bytes@, i),
{
    let frame: usize = 4 * channels as usize;
    let frames: usize = bytes.len() / frame;
    proof {
        assert(frames * channels <= bytes.len()) by (nonlinear_arith)
            requires
                frames == bytes.len() / frame,
                frame == 4 * channels,
                channels > 0,
        ;
        assert(4 * (frames * channels) <= bytes.len()) by (nonlinear_arith)
            requires
                frames == bytes.len() / frame,
                frame == 4 * channels,
                channels > 0,
        ;
    }
    let n: usize = frames * channels as usize;
    let mut out: Vec<u32> = Vec::new();
    let mut i: usize = 0;
    while i < n
        invariant
            i <= n,
            4 * n <= bytes.len(),
            out@.len() == i,
            forall|k: int| 0 <= k < i ==> #[trigger] out@[k] == sample_at(bytes@, k),
        decreases n - i,
    {
        match take_le(bytes, 4 * i, 4) {
            Some(p) => {
                proof {
                    super::wire::lemma_pow256();
                    let b = behind(bytes@, 4 * i);
                    assert(b.subrange(0, 4) =~= bytes@.subrange(4 * i, 4 * i + 4));
                }
                out.push(p.0 as u32);
            },
            None => {
                proof {
                    assert(behind(bytes@, 4 * i).len() >= 4);
                }
                return out;
            },
        }
        i += 1;
    }
    out
}

/// What channel `c` gets from interleaved samples: each sample whose turn it is.
pub open spec fn channel_samples(samples: Seq<u32>, channels: nat, c: nat) -> Seq<u32>
    decreases samples.len(),
{
    if samples.len() == 0 || channels == 0 {
        Seq::empty()
    } else {
        let before = channel_samples(samples.drop_last(), channels, c);
        if (samples.len() - 1) % channels as int == c {
            before.push(samples.last())
        } else {
            before
        }
    }
}

/// Adds interleaved samples to the channels that they belong to.
pub fn add_to_channels(planar: &mut Vec<Vec<u32>>, samples: &Vec<u32>)
    requires
        old(planar)@.len() > 0,
    ensures
        final(planar)@.len() == old(planar)@.len(),
        forall|c: int|
            0 <= c < old(planar)@.len() ==> (#[trigger] final(planar)@[c])@ == old(planar)@[c]@
                + channel_samples(samples@, old(planar)@.len(), c as nat),
{
    let n = planar.len();
    let mut i: usize = 0;
    proof {
        assert forall|c: int| 0 <= c < n implies (#[trigger] planar@[c])@ == old(planar)@[c]@
            + channel_samples(samples@.subrange(0, 0), n as nat, c as nat) by {
            assert(old(planar)@[c]@ + Seq::<u32>::empty() =~= old(planar)@[c]@);
        }
    }
    while i < samples.len()
        invariant
            i <= samples.len(),
            n > 0,
            planar@.len() == n,
            old(planar)@.len() == n,
            forall|c: int|
                0 <= c < n ==> (#[trigger] planar@[c])@ == old(planar)@[c]@ + channel_samples(
                    samples@.subrange(0, i as int),
                    n as nat,
                    c as nat,
                ),
        decreases samples.len() - i,
    {
        let at: usize = i % n;
        let ghost before = planar@;
        planar[at].push(samples[i]);
        proof {
            let now = samples@.subrange(0, i + 1);
            assert(now.drop_last() =~= samples@.subrange(0, i as int));
            assert(now.last() == samples@[i as int]);
            assert forall|c: int| 0 <= c < n implies (#[trigger] planar@[c])@ == old(planar)@[c]@
                + channel_samples(now, n as nat, c as nat) by {
                if c == at {
                    assert(planar@[c]@ =~= old(planar)@[c]@ + channel_samples(
                        now,
                        n as nat,
                        c as nat,
                    ));
                } else {
                    assert(planar@[c] == before[c]);
                }
            }
        }
        i += 1;
    }
    proof {
        assert(samples@.subrange(0, i as int) =~= samples@);
    }
}

/// Whether every channel has at least `n` samples.
pub open spec fn has_chunk(planar: Seq<Vec<u32>>, n: nat) -> bool {
    forall|c: int| 0 <= c < planar.len() ==> (#[trigger] planar[c])@.len() >= n
}

/// Takes the first `n` samples of every channel, where every channel has that
/// many.
pub fn take_chunk(planar: &mut Vec<Vec<u32>>, n: usize) -> (r: Option<Vec<Vec<u32>>>)
    ensures
        final(planar)@.len() == old(planar)@.len(),
        match r {
            None => !has_chunk(old(planar)@, n as nat) && *final(planar) == *old(planar),
            Some(chunk) => ({
                &&& has_chunk(old(planar)@, n as nat)
                &&& chunk@.len() == old(planar)@.len()
                &&& forall|c: int|
                    0 <= c < chunk@.len() ==> (#[trigger] chunk@[c])@ == old(planar)@[c]@.subrange(
                        0,
                        n as int,
                    )
                &&& forall|c: int|
                    0 <= c < chunk@.len() ==> (#[trigger] final(planar)@[c])@
                        == old(planar)@[c]@.subrange(n as int, old(planar)@[c]@.len() as int)
            }),
        },
{
    let mut i: usize = 0;
    while i < planar.len()
        invariant
            i <= planar.len(),
            *planar == *old(planar),
            forall|c: int| 0 <= c < i ==> (#[trigger] planar@[c])@.len() >= n,
        decreases planar.len() - i,
    {
        if planar[i].len() < n {
            return None;
        }
        i += 1;
    }
    let mut chunk: Vec<Vec<u32>> = Vec::new();
    let mut k: usize = 0;
    while k < planar.len()
        invariant
            k <= planar.len(),
            planar@.len() == old(planar)@.len(),
            chunk@.len() == k,
            has_chunk(old(planar)@, n as nat),
            forall|c: int|
                0 <= c < k ==> (#[trigger] chunk@[c])@ == old(planar)@[c]@.subrange(0, n as int),
            forall|c: int|
                0 <= c < k ==> (#[trigger] planar@[c])@ == old(planar)@[c]@.subrange(
                    n as int,
                    old(planar)@[c]@.len() as int,
                ),
            forall|c: int| k <= c < planar@.len() ==> #[trigger] planar@[c] == old(planar)@[c],
        decreases planar.len() - k,
    {
        proof {
            assert(old(planar)@[k as int]@.len() >= n);
        }
        let ghost before = planar@;
        let rest = planar[k].split_off(n);
        let ghost head = planar@[k as int]@;
        let front = vstd::slice::slice_to_vec(planar[k].as_slice());
        planar[k] = rest;
        chunk.push(front);
        k += 1;
    }
    Some(chunk)
}

/// Sample `i` of the interleaved channels.
pub open spec fn interleaved_at(planar: Seq<Vec<u32>>, i: int) -> u32 {
    planar[i % planar.len() as int]@[i / planar.len() as int]
}

/// Interleaves the first `frames` samples of every channel.
pub fn interleave(planar: &Vec<Vec<u32>>, frames: usize) -> (r: Vec<u32>)
    requires
        has_chunk(planar@, frames as nat),
        frames * planar@.len() <= usize::MAX,
    ensures
        r@.len() == frames * planar@.len(),
        forall|i: int| 0 <= i < r@.len() ==> #[trigger] r@[i] == interleaved_at(planar@, i),
{
    let n = planar.len();
    let mut out: Vec<u32> = Vec::new();
    if n == 0 {
        proof {
            assert(frames * planar@.len() == 0) by (nonlinear_arith)
                requires
                    planar@.len() == 0,
            ;
        }
        return out;
    }
    let total: usize = frames * n;
    let mut i: usize = 0;
    while i < total
        invariant
            i <= total,
            total == frames * n,
            n == planar@.len(),
            n > 0,
            has_chunk(planar@, frames as nat),
            out@.len() == i,
            forall|k: int| 0 <= k < i ==> #[trigger] out@[k] == interleaved_at(planar@, k),
        decreases total - i,
    {
        let c: usize = i % n;
        let f: usize = i / n;
        proof {
            assert(f < frames) by (nonlinear_arith)
                requires
                    f == i / n,
                    i < frames * n,
                    n > 0,
            ;
            assert(planar@[c as int]@.len() >= frames);
        }
        out.push(planar[c][f]);
        i += 1;
    }
    out
}

// ---------------------------------------------------------------------------
// Channels
// ---------------------------------------------------------------------------

/// The number of samples after the channels have been adjusted.
pub open spec fn adjusted_len(len: nat, channels: nat, target: nat) -> nat {
    if channels == target {
        len
    } else if channels > target && target == 2 {
        len / channels * 2
    } else if channels == 1 && target == 2 {
        len * 2
    } else {
        len
    }
}

/// Sample `i` after the channels have been adjusted: of more than two channels
/// the first two are kept, and a single one is doubled.
pub open spec fn adjusted_at(samples: Seq<u32>, channels: nat, target: nat, i: int) -> u32 {
    if channels > target && target == 2 {
        samples[i / 2 * channels + i % 2]
    } else if channels == 1 && target == 2 {
        samples[i / 2]
    } else {
        samples[i]
    }
}

/// Adjusts interleaved samples to the number of channels that is wanted. Other
/// numbers than those that can be adjusted are left as they are; a frame that is
/// not whole is dropped where channels are.
pub fn adjust_channels(samples: Vec<u32>, channels: usize, target: u16) -> (r: Vec<u32>)
    requires
        channels == 1 && target == 2 ==> samples@.len() * 2 <= usize::MAX,
    ensures
        r@.len() == adjusted_len(samples@.len(), channels as nat, target as nat),
        forall|i: int|
            0 <= i < r@.len() ==> #[trigger] r@[i] == adjusted_at(
                samples@,
                channels as nat,
                target as nat,
                i,
            ),
{
    if channels > 2 && target == 2 {
        let total: usize = samples.len();
        let frames: usize = total / channels;
        let mut out: Vec<u32> = Vec::new();
        let mut f: usize = 0;
        proof {
            assert(frames * channels <= samples@.len()) by (nonlinear_arith)
                requires
                    frames == samples@.len() / channels as nat,
                    channels > 2,
            ;
        }
        while f < frames
            invariant
                f <= frames,
                channels > 2,
                total == samples@.len(),
                frames * channels <= total,
                out@.len() == 2 * f,
                forall|i: int|
                    0 <= i < out@.len() ==> #[trigger] out@[i] == adjusted_at(
                        samples@,
                        channels as nat,
                        2,
                        i,
                    ),
            decreases frames - f,
        {
            proof {
                assert(f * channels + 1 < total) by (nonlinear_arith)
                    requires
                        f < frames,
                        frames * channels <= total,
                        channels > 2,
                ;
            }
            let at: usize = f * channels;
            out.push(samples[at]);
            out.push(samples[at + 1]);
            proof {
                assert forall|i: int| 0 <= i < out@.len() implies #[trigger] out@[i] == adjusted_at(
                    samples@,
                    channels as nat,
                    2,
                    i,
                ) by {
                    if i == 2 * f {
                        assert(i / 2 == f && i % 2 == 0);
                    } else if i == 2 * f + 1 {
                        assert(i / 2 == f && i % 2 == 1);
                    }
                }
            }
            f += 1;
        }
        out
    } else if channels == 1 && target == 2 {
        let mut out: Vec<u32> = Vec::new();
        let mut k: usize = 0;
        while k < samples.len()
            invariant
                k <= samples.len(),
                out@.len() == 2 * k,
                forall|i: int|
                    0 <= i < out@.len() ==> #[trigger] out@[i] == adjusted_at(samples@, 1, 2, i),
            decreases samples.len() - k,
        {
            out.push(samples[k]);
            out.push(samples[k]);
            k += 1;
        }
        out
    } else {
        samples
    }
}

/// The bytes of 16-bit samples, the lower byte first.
pub open spec fn sample_bytes(samples: Seq<u16>) -> Seq<u8>
    decreases samples.len(),
{
    if samples.len() == 0 {
        Seq::empty()
    } else {
        sample_bytes(samples.drop_last()) + le_bytes(samples.last() as nat, 2)
    }
}

/// Writes 16-bit samples as bytes.
pub fn samples_to_bytes(samples: &Vec<u16>) -> (r: Vec<u8>)
    ensures
        r@ == sample_bytes(samples@),
{
    let mut out: Vec<u8> = Vec::new();
    let mut i: usize = 0;
    while i < samples.len()
        invariant
            i <= samples.len(),
            out@ == sample_bytes(samples@.subrange(0, i as int)),
        decreases samples.len() - i,
    {
        push_le(&mut out, samples[i] as u64, 2);
        proof {
            let now = samples@.subrange(0, i + 1);
            assert(now.drop_last() =~= samples@.subrange(0, i as int));
        }
        i += 1;
    }
    proof {
        assert(samples@.subrange(0, i as int) =~= samples@);
    }
    out
}

/// The number of samples among the first `len` whose turn is `c`.
spec fn turns(len: nat, channels: nat, c: nat) -> nat {
    let q = len / channels;
    if len % channels > c {
        q + 1
    } else {
        q
    }
}

/// Whether sample `k` of a channel is the sample whose turn it is.
spec fn is_turn(samples: Seq<u32>, channels: nat, c: nat, k: int) -> bool {
    let at = k * channels + c;
    0 <= at < samples.len() && channel_samples(samples, channels, c)[k] == samples[at]
}

/// The samples of a channel are every `channels`-th sample.
proof fn lemma_channel_samples(samples: Seq<u32>, channels: nat, c: nat)
    requires
        c < channels,
    ensures
        channel_samples(samples, channels, c).len() == turns(samples.len(), channels, c),
        forall|k: int|
            0 <= k < channel_samples(samples, channels, c).len() ==> #[trigger] is_turn(
                samples,
                channels,
                c,
                k,
            ),
    decreases samples.len(),
{
    if samples.len() == 0 {
        assert(0nat / channels == 0 && 0nat % channels == 0) by (nonlinear_arith)
            requires
                channels > 0,
        ;
    } else {
        let s = samples.drop_last();
        let len = s.len();
        lemma_channel_samples(s, channels, c);
        let q = len / channels;
        let r = len % channels;
        assert(len == q * channels + r && 0 <= r < channels) by (nonlinear_arith)
            requires
                q == len / channels,
                r == len % channels,
                channels > 0,
        ;
        if r + 1 < channels {
            assert((len + 1) / channels == q && (len + 1) % channels == r + 1)
                by (nonlinear_arith)
                requires
                    len == q * channels + r,
                    r + 1 < channels,
                    channels > 0,
            ;
        } else {
            assert((len + 1) / channels == q + 1 && (len + 1) % channels == 0)
                by (nonlinear_arith)
                requires
                    len == q * channels + r,
                    r + 1 == channels,
                    channels > 0,
            ;
        }
        let before = channel_samples(s, channels, c);
        let now = channel_samples(samples, channels, c);
        assert forall|k: int| 0 <= k < now.len() implies #[trigger] is_turn(
            samples,
            channels,
            c,
            k,
        ) by {
            if k < before.len() {
                assert(is_turn(s, channels, c, k));
                let at = k * channels + c;
                assert(s[at] == samples[at]);
            } else {
                assert(k == q);
                assert(k * channels + c == len);
            }
        }
    }
}

/// Samples that have been given to their channels and are interleaved again are
/// the samples, as far as their frames are whole.
pub proof fn law_interleave_undoes(samples: Seq<u32>, planar: Seq<Vec<u32>>, i: int)
    requires
        planar.len() > 0,
        forall|c: int|
            0 <= c < planar.len() ==> (#[trigger] planar[c])@ == channel_samples(
                samples,
                planar.len(),
                c as nat,
            ),
        0 <= i < samples.len() / planar.len() * planar.len(),
    ensures
        interleaved_at(planar, i) == samples[i],
        planar[i % planar.len() as int]@.len() > i / planar.len() as int,
{
    let n = planar.len();
    let c = i % n as int;
    let k = i / n as int;
    let frames = samples.len() / n;
    assert(i == k * n + c && 0 <= c < n && 0 <= k) by (nonlinear_arith)
        requires
            c == i % n as int,
            k == i / n as int,
            n > 0,
            i >= 0,
    ;
    assert(k < frames) by (nonlinear_arith)
        requires
            i == k * n + c,
            0 <= c,
            i < frames * n,
            n > 0,
    ;
    lemma_channel_samples(samples, n, c as nat);
    assert(planar[c]@ == channel_samples(samples, n, c as nat));
    assert(is_turn(samples, n, c as nat, k));
}

/// The samples of a channel are those at its place in each frame, in order.
pub proof fn law_channel_of_samples(samples: Seq<u32>, channels: nat, c: nat, k: nat)
    requires
        c < channels,
        k * channels + c < samples.len(),
    ensures
        k < channel_samples(samples, channels, c).len(),
        channel_samples(samples, channels, c)[k as int] == samples[(k * channels + c) as int],
{
    lemma_channel_samples(samples, channels, c);
    let len = samples.len();
    let q = len / channels;
    let r = len % channels;
    assert(len == q * channels + r && 0 <= r < channels) by (nonlinear_arith)
        requires
            q == len / channels,
            r == len % channels,
            channels > 0,
    ;
    assert(r > c ==> k < q + 1) by (nonlinear_arith)
        requires
            k * channels + c < q * channels + r,
            r < channels,
            c < channels,
    ;
    assert(r <= c ==> k < q) by (nonlinear_arith)
        requires
            k * channels + c < q * channels + r,
    ;
    assert(is_turn(samples, channels, c, k as int));
}

} // verus!
