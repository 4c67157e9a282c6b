use vstd::prelude::*;

use crate::audio::AudioBuffer;
use crate::vad_laws::lemma_chunks_well_formed;

verus! {

#[verifier::external_type_specification]
#[verifier::external_body]
pub struct ExVad(webrtc_vad::Vad);

/// Input sample rates that the voice activity detector accepts.
#[derive(Clone, Copy, Debug, PartialEq, Eq, Structural)]
pub enum VadSampleRate {
    Rate8kHz,
    Rate16kHz,
    Rate32kHz,
    Rate48kHz,
}

/// How aggressively the detector rejects non-speech; `VeryAggressive`
/// reports speech least often.
#[derive(Clone, Copy, Debug, PartialEq, Eq, Structural)]
pub enum VadMode {
    Quality,
    LowBitrate,
    Aggressive,
    VeryAggressive,
}

/// What a detector made with `rate` and `mode`, after being given the frames
/// `prior` in order, answers for `frame`: whether it holds speech, or an
/// error. The detector is deterministic, so this depends on these alone.
pub uninterp spec fn vad_verdict(rate: VadSampleRate, mode: VadMode, prior: Seq<Seq<i16>>, frame: Seq<i16>) -> Result<bool, ()>;

/// Creates a detector with `webrtc_vad::Vad::new_with_rate_and_mode`, the
/// library's rate and mode converted one for one. Nothing is claimed of the
/// detector itself; the outside function panics only when allocation fails.
#[verifier::external_body]
fn vad_new(rate: VadSampleRate, mode: VadMode) -> webrtc_vad::Vad {
    let rate = match rate {
        VadSampleRate::Rate8kHz => webrtc_vad::SampleRate::Rate8kHz,
        VadSampleRate::Rate16kHz => webrtc_vad::SampleRate::Rate16kHz,
        VadSampleRate::Rate32kHz => webrtc_vad::SampleRate::Rate32kHz,
        VadSampleRate::Rate48kHz => webrtc_vad::SampleRate::Rate48kHz,
    };
    let mode = match mode {
        VadMode::Quality => webrtc_vad::VadMode::Quality,
        VadMode::LowBitrate => webrtc_vad::VadMode::LowBitrate,
        VadMode::Aggressive => webrtc_vad::VadMode::Aggressive,
        VadMode::VeryAggressive => webrtc_vad::VadMode::VeryAggressive,
    };
    webrtc_vad::Vad::new_with_rate_and_mode(rate, mode)
}

/// A voice activity detector, with the rate and mode it was made with and
/// the frames it has been given so far, oldest first.
pub struct VoiceDetector {
    vad: webrtc_vad::Vad,
    rate: VadSampleRate,
    mode: VadMode,
    seen: Ghost<Seq<Seq<i16>>>,
}

/// Asks `webrtc_vad::Vad::is_voice_segment` whether `frame` holds speech.
/// The detector keeps state from frame to frame; the answer is the verdict of
/// a detector of its rate and mode that has been given its earlier frames
/// (the `VoiceDetector` holds a `Vad` made by `vad_new` with its rate and
/// mode and given exactly the frames it records). The outside function reads
/// the frame's first sample, which panics on an empty frame.
#[verifier::external_body]
fn vad_is_voice_segment(detector: &mut VoiceDetector, frame: &[i16]) -> (r: Result<bool, ()>)
    requires
        frame@.len() > 0,
    ensures
        r == vad_verdict(old(detector).rate, old(detector).mode, old(detector).seen@, frame@),
        final(detector).rate == old(detector).rate,
        final(detector).mode == old(detector).mode,
        final(detector).seen == old(detector).seen,
{
    detector.vad.is_voice_segment(frame)
}

impl VoiceDetector {
    /// The rate the detector was made with.
    pub closed spec fn rate(&self) -> VadSampleRate {
        self.rate
    }

    /// The mode the detector was made with.
    pub closed spec fn mode(&self) -> VadMode {
        self.mode
    }

    /// The frames the detector has been given, oldest first.
    pub closed spec fn frames_seen(&self) -> Seq<Seq<i16>> {
        self.seen@
    }

    /// A new detector of `rate` and `mode` that has seen no frame.
    pub fn new(rate: VadSampleRate, mode: VadMode) -> (d: VoiceDetector)
        ensures
            d.rate() == rate,
            d.mode() == mode,
            d.frames_seen() == Seq::<Seq<i16>>::empty(),
    {
        VoiceDetector { vad: vad_new(rate, mode), rate, mode, seen: Ghost(Seq::empty()) }
    }

    /// Classifies `frame`, which then counts among the frames seen.
    pub fn classify(&mut self, frame: &Vec<i16>) -> (r: Result<bool, ()>)
        requires
            frame@.len() > 0,
        ensures
            r == vad_verdict(old(self).rate(), old(self).mode(), old(self).frames_seen(), frame@),
            final(self).rate() == old(self).rate(),
            final(self).mode() == old(self).mode(),
            final(self).frames_seen() == old(self).frames_seen().push(frame@),
    {
        let r = vad_is_voice_segment(self, frame.as_slice());
        self.seen = Ghost(self.seen@.push(frame@));
        r
    }
}

/// Samples per analysis frame: 30 ms at 16 kHz.
pub const FRAME_SAMPLES: usize = 480;

/// Length of one analysis frame in milliseconds.
pub const FRAME_MS: u64 = 30;

/// A stretch of speech: the samples of a run of consecutive voiced frames,
/// with the run's start and end on the buffer's time line.
///
/// Samples are IEEE-754 bit patterns of 32-bit floats, as in `AudioBuffer`.
#[derive(Debug)]
pub struct AudioChunk {
    pub samples: Vec<u32>,
    pub start_ms: u64,
    pub end_ms: u64,
}

/// Number of frames that `n` samples fill, the last one possibly partial.
pub open spec fn frame_count(n: int) -> int {
    (n + 479) / 480
}

/// Index of the sample that ends frame range `[.., b)` in a buffer of `n` samples.
pub open spec fn frames_end_sample(n: int, b: int) -> int {
    if 480 * b < n { 480 * b } else { n }
}

/// Frames `a` up to `b` (exclusive) form a maximal run of voiced frames.
pub open spec fn voiced_run(voiced: Seq<bool>, a: int, b: int) -> bool {
    &&& 0 <= a < b <= voiced.len()
    &&& forall|k: int| a <= k < b ==> #[trigger] voiced[k]
    &&& a == 0 || !voiced[a - 1]
    &&& b == voiced.len() || !voiced[b]
}

/// First frame covered by a chunk.
pub open spec fn first_frame(c: AudioChunk) -> int {
    c.start_ms as int / 30
}

/// Frame just after the last one covered by a chunk.
pub open spec fn end_frame(c: AudioChunk) -> int {
    c.end_ms as int / 30
}

/// `c` is the chunk of a maximal voiced run: its times are the run's frame
/// boundaries and its samples are the buffer's samples in those frames
/// (the padding of a partial last frame is not included).
pub open spec fn is_speech_chunk(samples: Seq<u32>, voiced: Seq<bool>, c: AudioChunk) -> bool {
    &&& c.start_ms as int % 30 == 0
    &&& c.end_ms as int % 30 == 0
    &&& voiced_run(voiced, first_frame(c), end_frame(c))
    &&& c.samples@ == samples.subrange(
        480 * first_frame(c),
        frames_end_sample(samples.len() as int, end_frame(c)),
    )
}

/// `chunks` are the speech chunks of `samples` under the per-frame voice
/// decisions `voiced`: one for each maximal voiced run, in time order.
pub open spec fn speech_segmentation(samples: Seq<u32>, voiced: Seq<bool>, chunks: Seq<AudioChunk>) -> bool {
    &&& forall|i: int| 0 <= i < chunks.len() ==> is_speech_chunk(samples, voiced, #[trigger] chunks[i])
    &&& forall|i: int, j: int| 0 <= i < j < chunks.len() ==> #[trigger] chunks[i].end_ms < #[trigger] chunks[j].start_ms
    &&& forall|k: int| 0 <= k < voiced.len() && #[trigger] voiced[k] ==>
        exists|i: int| 0 <= i < chunks.len() && first_frame(#[trigger] chunks[i]) <= k < end_frame(chunks[i])
}

/// Number of frames that `n` samples fill.
pub fn frames_in(n: usize) -> (f: usize)
    ensures
        f == frame_count(n as int),
{
    let f = n / FRAME_SAMPLES;
    if n % FRAME_SAMPLES == 0 { f } else { f + 1 }
}

/// Samples `lo` up to `hi` (exclusive) of `samples`.
fn copy_range(samples: &Vec<u32>, lo: usize, hi: usize) -> (out: Vec<u32>)
    requires
        lo <= hi <= samples@.len(),
    ensures
        out@ == samples@.subrange(lo as int, hi as int),
{
    let mut out: Vec<u32> = Vec::new();
    let mut i: usize = lo;
    while i < hi
        invariant
            lo <= i <= hi <= samples@.len(),
            out@ == samples@.subrange(lo as int, i as int),
        decreases hi - i,
    {
        out.push(samples[i]);
        i = i + 1;
        assert(out@ =~= samples@.subrange(lo as int, i as int));
    }
    out
}

/// The chunk of the voiced run of frames `a` up to `b` (exclusive).
fn run_chunk(samples: &Vec<u32>, nf: usize, a: usize, b: usize) -> (c: AudioChunk)
    requires
        nf == frame_count(samples@.len() as int),
        a < b <= nf,
    ensures
        first_frame(c) == a,
        end_frame(c) == b,
        c.start_ms as int % 30 == 0,
        c.end_ms as int % 30 == 0,
        c.samples@ == samples@.subrange(480 * a, frames_end_sample(samples@.len() as int, b as int)),
{
    let n = samples.len();
    proof {
        assert(480 * (a as int) < n) by (nonlinear_arith)
            requires a < nf, nf == (n + 479) / 480;
        assert(30 * (b as int) <= n + 30) by (nonlinear_arith)
            requires b <= nf, nf == (n + 479) / 480;
    }
    let lo = a * FRAME_SAMPLES;
    let hi = if b < nf { b * FRAME_SAMPLES } else { n };
    proof {
        if b < nf {
            assert(480 * (b as int) < n) by (nonlinear_arith)
                requires b < nf, nf == (n + 479) / 480;
        } else {
            assert(480 * (b as int) >= n) by (nonlinear_arith)
                requires b == nf, nf == (n + 479) / 480;
        }
    }
    let start_ms = (a as u64) * FRAME_MS;
    let end_ms = (b as u64) * FRAME_MS;
    AudioChunk { samples: copy_range(samples, lo, hi), start_ms, end_ms }
}

/// Once the chunk of the run of frames from `a` up to `e` is appended, every
/// voiced frame before `e` lies in some chunk, if each one before `a` did.
proof fn lemma_run_chunk_keeps_coverage(voiced: Seq<bool>, chunks: Seq<AudioChunk>, c: AudioChunk, a: int, e: int)
    requires
        first_frame(c) == a,
        end_frame(c) == e,
        forall|j: int| 0 <= j < e && #[trigger] voiced[j] ==>
            a <= j || exists|i: int| 0 <= i < chunks.len() && first_frame(#[trigger] chunks[i]) <= j < end_frame(chunks[i]),
    ensures
        forall|j: int| 0 <= j < e && #[trigger] voiced[j] ==>
            exists|i: int| 0 <= i < chunks.push(c).len() && first_frame(#[trigger] chunks.push(c)[i]) <= j < end_frame(chunks.push(c)[i]),
{
    assert forall|j: int| 0 <= j < e && #[trigger] voiced[j] implies
        exists|i: int| 0 <= i < chunks.push(c).len() && first_frame(#[trigger] chunks.push(c)[i]) <= j < end_frame(chunks.push(c)[i])
    by {
        if a <= j {
            assert(chunks.push(c)[chunks.len() as int] == c);
        } else {
            let i = choose|i: int| 0 <= i < chunks.len() && first_frame(#[trigger] chunks[i]) <= j < end_frame(chunks[i]);
            assert(chunks.push(c)[i] == chunks[i]);
        }
    }
}

/// Groups consecutive voiced frames into speech chunks.
///
/// `voiced[k]` is the voice decision for frame `k` (samples `480k` up to
/// `480(k+1)`, the last frame possibly shorter). A run of voiced frames
/// becomes one chunk from the start of its first frame to the start of the
/// first unvoiced frame after it, or to the end of the last frame.
pub fn segment(samples: &Vec<u32>, voiced: &Vec<bool>) -> (chunks: Vec<AudioChunk>)
    requires
        voiced@.len() == frame_count(samples@.len() as int),
    ensures
        speech_segmentation(samples@, voiced@, chunks@),
{
    let nf = voiced.len();
    let mut chunks: Vec<AudioChunk> = Vec::new();
    let mut start: Option<usize> = None;
    let mut k: usize = 0;
    while k < nf
        invariant
            nf == voiced@.len(),
            nf == frame_count(samples@.len() as int),
            k <= nf,
            match start {
                Some(a) => a < k && (a == 0 || !voiced@[a - 1])
                    && (forall|j: int| a <= j < k ==> #[trigger] voiced@[j]),
                None => k == 0 || !voiced@[k - 1],
            },
            forall|i: int| 0 <= i < chunks@.len() ==> is_speech_chunk(samples@, voiced@, #[trigger] chunks@[i]),
            forall|i: int| 0 <= i < chunks@.len() ==> end_frame(#[trigger] chunks@[i]) < k,
            forall|i: int| #![trigger chunks@[i]] 0 <= i < chunks@.len() ==> (start matches Some(a) ==> end_frame(chunks@[i]) < a),
            forall|i: int, j: int| 0 <= i < j < chunks@.len() ==> #[trigger] chunks@[i].end_ms < #[trigger] chunks@[j].start_ms,
            forall|j: int| 0 <= j < k && #[trigger] voiced@[j] ==>
                (start matches Some(a) && a <= j)
                || exists|i: int| 0 <= i < chunks@.len() && first_frame(#[trigger] chunks@[i]) <= j < end_frame(chunks@[i]),
        decreases nf - k,
    {
        if voiced[k] {
            if start.is_none() {
                start = Some(k);
            }
        } else {
            match start {
                Some(a) => {
                    let c = run_chunk(samples, nf, a, k);
                    let ghost old_chunks = chunks@;
                    chunks.push(c);
                    proof {
                        assert(voiced_run(voiced@, a as int, k as int));
                        lemma_run_chunk_keeps_coverage(voiced@, old_chunks, c, a as int, k as int);
                    }
                    start = None;
                },
                None => {},
            }
        }
        k = k + 1;
    }
    match start {
        Some(a) => {
            let c = run_chunk(samples, nf, a, nf);
            let ghost old_chunks = chunks@;
            chunks.push(c);
            proof {
                assert(voiced_run(voiced@, a as int, nf as int));
                lemma_run_chunk_keeps_coverage(voiced@, old_chunks, c, a as int, nf as int);
            }
        },
        None => {},
    }
    chunks
}

/// Frame `k` of `pcm` as handed to the detector: its samples, followed by
/// silence up to the full frame length when the frame is the short last one.
pub fn padded_frame(pcm: &Vec<i16>, k: usize) -> (frame: Vec<i16>)
    requires
        k < frame_count(pcm@.len() as int),
    ensures
        frame@.len() == 480,
        forall|j: int| 0 <= j < 480 ==> #[trigger] frame@[j]
            == if 480 * k + j < pcm@.len() { pcm@[480 * k + j] } else { 0i16 },
{
    let n = pcm.len();
    proof {
        assert(480 * (k as int) < n) by (nonlinear_arith)
            requires k < (n + 479) / 480;
    }
    let base = k * FRAME_SAMPLES;
    let mut frame: Vec<i16> = Vec::new();
    let mut j: usize = 0;
    while j < FRAME_SAMPLES
        invariant
            base == 480 * k,
            base < n,
            n == pcm@.len(),
            j <= 480,
            frame@.len() == j,
            forall|i: int| 0 <= i < j ==> #[trigger] frame@[i]
                == if base + i < n { pcm@[base + i] } else { 0i16 },
        decreases 480 - j,
    {
        if j < n - base {
            frame.push(pcm[base + j]);
        } else {
            frame.push(0);
        }
        j = j + 1;
    }
    frame
}

/// Frame `k` of `pcm` as handed to the detector: its 480 samples, the short
/// last frame followed by silence.
pub open spec fn padded_frame_of(pcm: Seq<i16>, k: int) -> Seq<i16> {
    Seq::new(480, |j: int| if 480 * k + j < pcm.len() { pcm[480 * k + j] } else { 0i16 })
}

/// The frames of `pcm` as handed to the detector, in order.
pub open spec fn frames_of(pcm: Seq<i16>) -> Seq<Seq<i16>> {
    Seq::new(frame_count(pcm.len() as int) as nat, |k: int| padded_frame_of(pcm, k))
}

/// The voice decision for each frame of `pcm`: what an aggressive 16 kHz
/// detector, given the frames in order, answers for it, an error counting as
/// no speech.
pub open spec fn voicing(pcm: Seq<i16>) -> Seq<bool> {
    Seq::new(
        frames_of(pcm).len(),
        |k: int| vad_verdict(VadSampleRate::Rate16kHz, VadMode::Aggressive, frames_of(pcm).take(k), frames_of(pcm)[k])
            == Ok::<bool, ()>(true),
    )
}

/// Splits recorded audio into speech chunks.
///
/// `pcm` holds the buffer's samples converted to signed 16-bit, clamped to
/// [-1, 1] and scaled by 32767. Each 30 ms frame of it, padded with silence
/// when short, is classified in order by an aggressive 16 kHz voice activity
/// detector; runs of voiced frames become chunks of the buffer's own samples.
/// An empty buffer gives no chunks.
pub fn process(buffer: &AudioBuffer, pcm: &Vec<i16>) -> (chunks: Vec<AudioChunk>)
    requires
        pcm@.len() == buffer.samples@.len(),
    ensures
        speech_segmentation(buffer.samples@, voicing(pcm@), chunks@),
        buffer.samples@.len() == 0 ==> chunks@.len() == 0,
        forall|i: int| 0 <= i < chunks@.len() ==> {
            &&& #[trigger] chunks@[i].start_ms < chunks@[i].end_ms
            &&& chunks@[i].samples@.len() > 0
        },
{
    if buffer.samples.len() == 0 {
        let chunks: Vec<AudioChunk> = Vec::new();
        assert(voicing(pcm@) =~= Seq::<bool>::empty());
        assert(speech_segmentation(buffer.samples@, voicing(pcm@), chunks@));
        return chunks;
    }
    let mut detector = VoiceDetector::new(VadSampleRate::Rate16kHz, VadMode::Aggressive);
    let nf = frames_in(pcm.len());
    let ghost frames = frames_of(pcm@);
    let mut voiced: Vec<bool> = Vec::new();
    let mut k: usize = 0;
    while k < nf
        invariant
            nf == frame_count(pcm@.len() as int),
            frames == frames_of(pcm@),
            frames.len() == nf,
            k <= nf,
            voiced@.len() == k,
            detector.rate() == VadSampleRate::Rate16kHz,
            detector.mode() == VadMode::Aggressive,
            detector.frames_seen() == frames.take(k as int),
            forall|j: int| 0 <= j < k ==> #[trigger] voiced@[j] == voicing(pcm@)[j],
        decreases nf - k,
    {
        let frame = padded_frame(pcm, k);
        assert(frame@ =~= frames[k as int]);
        let answer = detector.classify(&frame);
        let is_voice = match answer {
            Ok(v) => v,
            Err(()) => false,
        };
        voiced.push(is_voice);
        assert(frames.take(k as int).push(frames[k as int]) =~= frames.take(k + 1));
        k = k + 1;
    }
    assert(voiced@ =~= voicing(pcm@));
    let chunks = segment(&buffer.samples, &voiced);
    proof {
        lemma_chunks_well_formed(buffer.samples@, voiced@, chunks@);
    }
    chunks
}

} // verus!
