//! Waveforms on their way to a sink.

use vstd::prelude::*;

use crate::double::Double;
use crate::request::{all_finite, are_finite};
use crate::text::{decimal, with_numbers, with_text};

verus! {

/// The latent frames that one chunk of a stream covers.
pub const STREAM_LATENT_FRAMES: usize = 64;

/// A stretch of mono samples.
#[derive(Debug, Clone, PartialEq, Eq)]
pub struct AudioChunk<T> {
    pub chunk_index: usize,
    pub is_final: bool,
    pub pause_after_ms: u32,
    pub sample_rate_hz: u32,
    pub pcm_mono: Vec<T>,
}

/// The chunks that cover the given number of latent frames.
pub open spec fn chunk_count(frames: nat) -> nat {
    (frames + STREAM_LATENT_FRAMES - 1) as nat / STREAM_LATENT_FRAMES as nat
}

/// The latent frame at which a chunk starts, and at which the previous one ends.
pub open spec fn chunk_start(frames: nat, chunk: nat) -> nat {
    if chunk * STREAM_LATENT_FRAMES < frames {
        chunk * STREAM_LATENT_FRAMES as nat
    } else {
        frames
    }
}

/// The samples of a chunk.
pub open spec fn chunk_samples<T>(samples: Seq<T>, frames: nat, upsample: nat, chunk: nat) -> Seq<T> {
    samples.subrange(
        (chunk_start(frames, chunk) * upsample) as int,
        (chunk_start(frames, chunk + 1) * upsample) as int,
    )
}

/// The samples of the first chunks, one after the other.
pub open spec fn streamed<T>(chunks: Seq<AudioChunk<T>>) -> Seq<T>
    decreases chunks.len(),
{
    if chunks.len() == 0 {
        Seq::empty()
    } else {
        streamed(chunks.drop_last()) + chunks.last().pcm_mono@
    }
}

/// The chunks of a stream: numbered, without pauses, each with its share of the samples, and
/// only the last one final.
pub open spec fn is_stream<T>(
    chunks: Seq<AudioChunk<T>>,
    samples: Seq<T>,
    frames: nat,
    upsample: nat,
    sample_rate_hz: u32,
) -> bool {
    &&& chunks.len() == chunk_count(frames)
    &&& forall|k: int|
        0 <= k < chunks.len() ==> {
            let chunk = #[trigger] chunks[k];
            &&& chunk.chunk_index == k
            &&& chunk.is_final == (k + 1 == chunks.len())
            &&& chunk.pause_after_ms == 0
            &&& chunk.sample_rate_hz == sample_rate_hz
            &&& chunk.pcm_mono@ == chunk_samples(samples, frames, upsample, k as nat)
        }
}

proof fn chunk_bounds(frames: nat, upsample: nat, chunk: nat)
    ensures
        chunk_start(frames, chunk) <= chunk_start(frames, chunk + 1) <= frames,
        chunk_start(frames, chunk) * upsample <= chunk_start(frames, chunk + 1) * upsample,
        chunk_start(frames, chunk + 1) * upsample <= frames * upsample,
{
    let from = chunk_start(frames, chunk);
    let until = chunk_start(frames, chunk + 1);
    assert(from * upsample <= until * upsample) by (nonlinear_arith)
        requires
            from <= until,
    ;
    assert(until * upsample <= frames * upsample) by (nonlinear_arith)
        requires
            until <= frames,
    ;
}

proof fn prefix_streams<T>(
    chunks: Seq<AudioChunk<T>>,
    samples: Seq<T>,
    frames: nat,
    upsample: nat,
    sample_rate_hz: u32,
    count: nat,
)
    requires
        is_stream(chunks, samples, frames, upsample, sample_rate_hz),
        samples.len() == frames * upsample,
        count <= chunks.len(),
    ensures
        streamed(chunks.take(count as int)) == samples.take(
            (chunk_start(frames, count) * upsample) as int,
        ),
        chunk_start(frames, count) * upsample <= samples.len(),
    decreases count,
{
    if count == 0 {
        assert(chunk_start(frames, 0) == 0);
        assert(chunk_start(frames, 0) * upsample == 0) by (nonlinear_arith)
            requires
                chunk_start(frames, 0) == 0,
        ;
        assert(chunks.take(0) =~= Seq::empty());
        assert(samples.take(0) =~= Seq::<T>::empty());
    } else {
        let before = (count - 1) as nat;
        prefix_streams(chunks, samples, frames, upsample, sample_rate_hz, before);
        chunk_bounds(frames, upsample, before);
        assert(chunks.take(count as int).drop_last() =~= chunks.take(before as int));
        assert(chunks.take(count as int).last() == chunks[before as int]);
        let from = (chunk_start(frames, before) * upsample) as int;
        let until = (chunk_start(frames, count) * upsample) as int;
        assert(samples.take(from) + samples.subrange(from, until) =~= samples.take(until));
    }
}

/// The chunks of a stream are the whole waveform, cut and nothing else; exactly the last chunk
/// is final.
pub proof fn stream_is_whole<T>(
    chunks: Seq<AudioChunk<T>>,
    samples: Seq<T>,
    frames: nat,
    upsample: nat,
    sample_rate_hz: u32,
)
    requires
        is_stream(chunks, samples, frames, upsample, sample_rate_hz),
        samples.len() == frames * upsample,
    ensures
        streamed(chunks) == samples,
        forall|k: int|
            0 <= k < chunks.len() ==> (#[trigger] chunks[k]).is_final == (k == chunks.len() - 1),
{
    let count = chunks.len();
    prefix_streams(chunks, samples, frames, upsample, sample_rate_hz, count);
    assert(chunks.take(count as int) =~= chunks);
    assert(chunk_start(frames, count) == frames) by {
        assert(count * STREAM_LATENT_FRAMES >= frames);
    }
    assert(samples.take((frames * upsample) as int) =~= samples);
}

/// Cuts a decoded waveform into chunks of latent frames.
pub fn stream_chunks<T: Copy>(samples: &[T], frames: usize, upsample: usize, sample_rate_hz: u32) -> (out:
    Vec<AudioChunk<T>>)
    requires
        samples@.len() == frames * upsample,
    ensures
        is_stream(out@, samples@, frames as nat, upsample as nat, sample_rate_hz),
{
    let length: usize = samples.len();
    let count: usize = if frames == 0 {
        0
    } else {
        (frames - 1) / STREAM_LATENT_FRAMES + 1
    };
    assert(count == chunk_count(frames as nat));
    let mut out: Vec<AudioChunk<T>> = Vec::new();
    let mut index: usize = 0;
    while index < count
        invariant
            index <= count,
            count == chunk_count(frames as nat),
            out.len() == index,
            length == samples@.len() == frames * upsample,
            forall|k: int|
                0 <= k < index ==> {
                    let chunk = #[trigger] out@[k];
                    &&& chunk.chunk_index == k
                    &&& chunk.is_final == (k + 1 == count)
                    &&& chunk.pause_after_ms == 0
                    &&& chunk.sample_rate_hz == sample_rate_hz
                    &&& chunk.pcm_mono@ == chunk_samples(
                        samples@,
                        frames as nat,
                        upsample as nat,
                        k as nat,
                    )
                },
        decreases count - index,
    {
        assert(index * STREAM_LATENT_FRAMES < frames);
        let frame_start: usize = index * STREAM_LATENT_FRAMES;
        let frame_end: usize = if frames - frame_start <= STREAM_LATENT_FRAMES {
            frames
        } else {
            frame_start + STREAM_LATENT_FRAMES
        };
        proof {
            chunk_bounds(frames as nat, upsample as nat, index as nat);
            assert(frame_start == chunk_start(frames as nat, index as nat));
            assert(frame_end == chunk_start(frames as nat, index as nat + 1));
        }
        let pcm_mono = cut(samples, frame_start * upsample, frame_end * upsample);
        out.push(
            AudioChunk {
                chunk_index: index,
                is_final: index + 1 == count,
                pause_after_ms: 0,
                sample_rate_hz,
                pcm_mono,
            },
        );
        index = index + 1;
    }
    out
}

/// A stretch of samples.
fn cut<T: Copy>(samples: &[T], from: usize, until: usize) -> (out: Vec<T>)
    requires
        from <= until <= samples@.len(),
    ensures
        out@ == samples@.subrange(from as int, until as int),
{
    let mut out: Vec<T> = Vec::new();
    let mut i: usize = from;
    while i < until
        invariant
            from <= i <= until <= samples@.len(),
            out@ == samples@.subrange(from as int, i as int),
        decreases until - i,
    {
        out.push(samples[i]);
        assert(out@ =~= samples@.subrange(from as int, i + 1));
        i = i + 1;
    }
    out
}

/// The only chunk of a waveform that is not streamed.
pub fn single_chunk<T>(samples: Vec<T>, sample_rate_hz: u32) -> (out: AudioChunk<T>)
    ensures
        out.chunk_index == 0,
        out.is_final,
        out.pause_after_ms == 0,
        out.sample_rate_hz == sample_rate_hz,
        out.pcm_mono == samples,
{
    AudioChunk {
        chunk_index: 0,
        is_final: true,
        pause_after_ms: 0,
        sample_rate_hz,
        pcm_mono: samples,
    }
}

/// A composition of an acoustic model and a vocoder.
#[derive(Debug, Clone, Copy, PartialEq, Eq, Structural)]
pub enum Pipeline {
    SpeedySpeech,
    GlowTts,
    AlignTts,
}

impl Pipeline {
    /// What is wrong with the samples of a vocoder, if anything.
    pub open spec fn waveform_fault(self, samples: Seq<Double>, expected: usize) -> Option<Seq<char>> {
        match self {
            Pipeline::AlignTts => if samples.len() != expected || !all_finite(samples) {
                Some("Align-TTS vocoder produced an invalid waveform"@)
            } else {
                None
            },
            Pipeline::SpeedySpeech => if samples.len() != expected {
                Some(
                    "HiFi-GAN returned "@ + decimal(samples.len()) + " samples, expected "@ + decimal(
                        expected as nat,
                    ),
                )
            } else if !all_finite(samples) {
                Some("HiFi-GAN waveform contains non-finite samples"@)
            } else {
                None
            },
            Pipeline::GlowTts => if samples.len() != expected {
                Some(
                    "Glow-TTS vocoder returned "@ + decimal(samples.len()) + " samples, expected "@
                        + decimal(expected as nat),
                )
            } else if !all_finite(samples) {
                Some("Glow-TTS vocoder waveform contains non-finite samples"@)
            } else {
                None
            },
        }
    }

    /// Whether the samples of a vocoder are as many as its output has, and all finite.
    pub fn check_waveform(self, samples: &[Double], expected: usize) -> (out: Result<(), String>)
        ensures
            match out {
                Ok(_) => self.waveform_fault(samples@, expected) is None,
                Err(message) => self.waveform_fault(samples@, expected) == Some(message@),
            },
    {
        let finite = are_finite(samples);
        match self {
            Pipeline::AlignTts => {
                if samples.len() != expected || !finite {
                    return Err("Align-TTS vocoder produced an invalid waveform".to_owned());
                }
            },
            Pipeline::SpeedySpeech => {
                if samples.len() != expected {
                    return Err(
                        with_numbers(
                            "HiFi-GAN returned ",
                            samples.len(),
                            " samples, expected ",
                            expected,
                        ),
                    );
                }
                if !finite {
                    return Err("HiFi-GAN waveform contains non-finite samples".to_owned());
                }
            },
            Pipeline::GlowTts => {
                if samples.len() != expected {
                    return Err(
                        with_numbers(
                            "Glow-TTS vocoder returned ",
                            samples.len(),
                            " samples, expected ",
                            expected,
                        ),
                    );
                }
                if !finite {
                    return Err(
                        "Glow-TTS vocoder waveform contains non-finite samples".to_owned(),
                    );
                }
            },
        }
        Ok(())
    }
}

/// A stream has as many chunks as it takes to cover its frames by sixty-four each. Every chunk but
/// the last has the samples of sixty-four frames, the last has the rest, and every sample stands
/// where it stood. The chunks are numbered from zero, have no pauses, keep the rate, and only the
/// last is final.
pub proof fn chunks_cut_in_place<T: Copy>(
    samples: &[T],
    frames: usize,
    upsample: usize,
    sample_rate_hz: u32,
    out: Vec<AudioChunk<T>>,
    k: int,
    i: int,
)
    requires
        samples@.len() == frames * upsample,
        call_ensures(stream_chunks::<T>, (samples, frames, upsample, sample_rate_hz), out),
        0 <= k < out.len(),
        0 <= i < out@[k].pcm_mono.len(),
    ensures
        64 * (out.len() - 1) < frames <= 64 * out.len(),
        out@[k].chunk_index == k,
        out@[k].is_final <==> k == out.len() - 1,
        out@[k].pause_after_ms == 0,
        out@[k].sample_rate_hz == sample_rate_hz,
        k < out.len() - 1 ==> out@[k].pcm_mono.len() == 64 * upsample,
        k == out.len() - 1 ==> out@[k].pcm_mono.len() == (frames - 64 * k) * upsample,
        out@[k].pcm_mono@[i] == samples@[64 * k * upsample + i],
{
    let chunk = out@[k];
    let from = chunk_start(frames as nat, k as nat);
    let until = chunk_start(frames as nat, (k + 1) as nat);
    chunk_bounds(frames as nat, upsample as nat, k as nat);
    assert(from == 64 * k);
    assert(chunk.pcm_mono@.len() == until * upsample - from * upsample);
    assert(until * upsample - from * upsample == (until - from) * upsample) by (nonlinear_arith);
    assert(64 * k * upsample == from * upsample);
}

/// Nothing is streamed of no frames.
pub proof fn empty_waveforms_have_no_chunks<T: Copy>(
    samples: &[T],
    frames: usize,
    upsample: usize,
    sample_rate_hz: u32,
    out: Vec<AudioChunk<T>>,
)
    requires
        samples@.len() == frames * upsample,
        call_ensures(stream_chunks::<T>, (samples, frames, upsample, sample_rate_hz), out),
    ensures
        out.len() == 0 <==> frames == 0,
        streamed(out@) == samples@,
{
    stream_is_whole(out@, samples@, frames as nat, upsample as nat, sample_rate_hz);
}

/// A waveform that is not streamed is one final chunk.
pub proof fn whole_waveforms_are_final<T>(samples: Vec<T>, sample_rate_hz: u32, out: AudioChunk<T>)
    requires
        call_ensures(single_chunk::<T>, (samples, sample_rate_hz), out),
    ensures
        out.pcm_mono@ == samples@,
        out.is_final && out.chunk_index == 0 && out.pause_after_ms == 0,
        out.sample_rate_hz == sample_rate_hz,
{
}

/// Every pipeline takes a waveform exactly where it has the expected samples and all are finite.
pub proof fn waveforms_are_accepted_alike(
    pipeline: Pipeline,
    samples: &[Double],
    expected: usize,
    out: Result<(), String>,
)
    requires
        call_ensures(Pipeline::check_waveform, (pipeline, samples, expected), out),
    ensures
        out is Ok <==> samples@.len() == expected && forall|i: int|
            0 <= i < samples@.len() ==> (#[trigger] samples@[i]).finite(),
{
}

} // verus!
