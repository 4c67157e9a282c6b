use vstd::prelude::*;

use crate::vad::{
    end_frame, first_frame, frame_count, frames_end_sample, is_speech_chunk, speech_segmentation,
    voiced_run, AudioChunk,
};

verus! {

/// A frame where a voiced run begins.
pub open spec fn is_run_start(voiced: Seq<bool>, k: int) -> bool {
    0 <= k < voiced.len() && voiced[k] && (k == 0 || !voiced[k - 1])
}

proof fn lemma_ms_of_frames(c: AudioChunk)
    requires
        c.start_ms as int % 30 == 0,
        c.end_ms as int % 30 == 0,
    ensures
        c.start_ms as int == 30 * first_frame(c),
        c.end_ms as int == 30 * end_frame(c),
{
}

/// Chunks later in a segmentation start at later frames, after the frames of
/// the earlier chunks.
proof fn lemma_frames_ordered(samples: Seq<u32>, voiced: Seq<bool>, chunks: Seq<AudioChunk>, i: int, j: int)
    requires
        speech_segmentation(samples, voiced, chunks),
        0 <= i < j < chunks.len(),
    ensures
        end_frame(chunks[i]) < first_frame(chunks[j]),
        first_frame(chunks[i]) < first_frame(chunks[j]),
{
    assert(is_speech_chunk(samples, voiced, chunks[i]));
    assert(is_speech_chunk(samples, voiced, chunks[j]));
    lemma_ms_of_frames(chunks[i]);
    lemma_ms_of_frames(chunks[j]);
    assert(chunks[i].end_ms < chunks[j].start_ms);
}

/// Every chunk of a segmentation lies inside the buffer and holds speech:
/// it ends after it starts, its samples are not empty, and it ends no later
/// than the last frame. Later chunks start after earlier ones end.
pub proof fn lemma_chunks_well_formed(samples: Seq<u32>, voiced: Seq<bool>, chunks: Seq<AudioChunk>)
    requires
        voiced.len() == frame_count(samples.len() as int),
        speech_segmentation(samples, voiced, chunks),
    ensures
        forall|i: int| 0 <= i < chunks.len() ==> {
            &&& #[trigger] chunks[i].start_ms < chunks[i].end_ms
            &&& chunks[i].samples@.len() > 0
            &&& chunks[i].end_ms as int <= 30 * frame_count(samples.len() as int)
        },
        forall|i: int, j: int| 0 <= i < j < chunks.len() ==> #[trigger] chunks[i].end_ms < #[trigger] chunks[j].start_ms,
{
    assert forall|i: int| 0 <= i < chunks.len() implies {
        &&& #[trigger] chunks[i].start_ms < chunks[i].end_ms
        &&& chunks[i].samples@.len() > 0
        &&& chunks[i].end_ms as int <= 30 * frame_count(samples.len() as int)
    } by {
        let c = chunks[i];
        assert(is_speech_chunk(samples, voiced, c));
        lemma_ms_of_frames(c);
        let a = first_frame(c);
        let b = end_frame(c);
        let n = samples.len() as int;
        assert(480 * a < n) by (nonlinear_arith)
            requires 0 <= a < b, b <= (n + 479) / 480;
        assert(480 * a < 480 * b) by (nonlinear_arith)
            requires a < b;
    }
}

/// Where no frame is voiced there are no chunks; in particular an empty
/// buffer gives none.
pub proof fn lemma_no_voice_no_chunks(samples: Seq<u32>, voiced: Seq<bool>, chunks: Seq<AudioChunk>)
    requires
        speech_segmentation(samples, voiced, chunks),
        forall|k: int| 0 <= k < voiced.len() ==> !voiced[k],
    ensures
        chunks.len() == 0,
{
    if chunks.len() > 0 {
        assert(is_speech_chunk(samples, voiced, chunks[0]));
        assert(voiced[first_frame(chunks[0])]);
    }
}

/// When every frame is voiced, the whole buffer is one chunk, from 0 ms to
/// the end of the last frame.
pub proof fn lemma_all_voiced_one_chunk(samples: Seq<u32>, voiced: Seq<bool>, chunks: Seq<AudioChunk>)
    requires
        samples.len() > 0,
        voiced.len() == frame_count(samples.len() as int),
        speech_segmentation(samples, voiced, chunks),
        forall|k: int| 0 <= k < voiced.len() ==> voiced[k],
    ensures
        chunks.len() == 1,
        chunks[0].start_ms == 0,
        chunks[0].end_ms as int == 30 * frame_count(samples.len() as int),
        chunks[0].samples@ == samples,
{
    let n = samples.len() as int;
    let nf = voiced.len() as int;
    assert(nf > 0);
    assert(voiced[0]);
    let i = choose|i: int| 0 <= i < chunks.len() && first_frame(#[trigger] chunks[i]) <= 0 < end_frame(chunks[i]);
    assert(is_speech_chunk(samples, voiced, chunks[i]));
    lemma_ms_of_frames(chunks[i]);
    assert(end_frame(chunks[i]) == nf);
    if chunks.len() > 1 {
        let j = if i == 0 { 1int } else { 0int };
        assert(is_speech_chunk(samples, voiced, chunks[j]));
        if i < j {
            lemma_frames_ordered(samples, voiced, chunks, i, j);
        } else {
            lemma_frames_ordered(samples, voiced, chunks, j, i);
        }
    }
    assert(i == 0);
    assert(480 * nf >= n) by (nonlinear_arith)
        requires nf == (n + 479) / 480, n > 0;
    assert(frames_end_sample(n, nf) == n);
    assert(chunks[0].samples@ =~= samples);
}

/// A chunk starts where a voiced run starts.
proof fn lemma_chunk_starts_run(samples: Seq<u32>, voiced: Seq<bool>, chunks: Seq<AudioChunk>, i: int)
    requires
        speech_segmentation(samples, voiced, chunks),
        0 <= i < chunks.len(),
    ensures
        is_run_start(voiced, first_frame(chunks[i])),
{
    assert(is_speech_chunk(samples, voiced, chunks[i]));
}

/// Every voiced run has a chunk starting where it starts.
proof fn lemma_run_has_chunk(samples: Seq<u32>, voiced: Seq<bool>, chunks: Seq<AudioChunk>, k: int)
    requires
        speech_segmentation(samples, voiced, chunks),
        is_run_start(voiced, k),
    ensures
        exists|j: int| 0 <= j < chunks.len() && first_frame(#[trigger] chunks[j]) == k,
{
    assert(voiced[k]);
    let j = choose|j: int| 0 <= j < chunks.len() && first_frame(#[trigger] chunks[j]) <= k < end_frame(chunks[j]);
    assert(is_speech_chunk(samples, voiced, chunks[j]));
    let a = first_frame(chunks[j]);
    if a < k {
        assert(voiced[k - 1]);
    }
}

/// The segmentation of a buffer under given voice decisions is unique: two
/// sequences of chunks that both satisfy it agree chunk for chunk.
pub proof fn lemma_segmentation_unique(
    samples: Seq<u32>,
    voiced: Seq<bool>,
    c1: Seq<AudioChunk>,
    c2: Seq<AudioChunk>,
)
    requires
        speech_segmentation(samples, voiced, c1),
        speech_segmentation(samples, voiced, c2),
    ensures
        c1.len() == c2.len(),
        forall|i: int| 0 <= i < c1.len() ==> {
            &&& #[trigger] c1[i].start_ms == c2[i].start_ms
            &&& c1[i].end_ms == c2[i].end_ms
            &&& c1[i].samples@ == c2[i].samples@
        },
{
    let m = if c1.len() < c2.len() { c1.len() as int } else { c2.len() as int };
    lemma_same_starts(samples, voiced, c1, c2, m);
    lemma_same_starts(samples, voiced, c2, c1, m);
    lemma_no_extra_chunk(samples, voiced, c1, c2);
    lemma_no_extra_chunk(samples, voiced, c2, c1);
    assert forall|i: int| 0 <= i < c1.len() implies {
        &&& #[trigger] c1[i].start_ms == c2[i].start_ms
        &&& c1[i].end_ms == c2[i].end_ms
        &&& c1[i].samples@ == c2[i].samples@
    } by {
        let x = c1[i];
        let y = c2[i];
        assert(is_speech_chunk(samples, voiced, x));
        assert(is_speech_chunk(samples, voiced, y));
        lemma_ms_of_frames(x);
        lemma_ms_of_frames(y);
        let b1 = end_frame(x);
        let b2 = end_frame(y);
        if b1 < b2 {
            assert(voiced[b1]);
        } else if b2 < b1 {
            assert(voiced[b2]);
        }
    }
}

/// The first `m` chunks of two segmentations start at the same frames.
proof fn lemma_same_starts(samples: Seq<u32>, voiced: Seq<bool>, c1: Seq<AudioChunk>, c2: Seq<AudioChunk>, m: int)
    requires
        speech_segmentation(samples, voiced, c1),
        speech_segmentation(samples, voiced, c2),
        0 <= m <= c1.len(),
        m <= c2.len(),
    ensures
        forall|i: int| 0 <= i < m ==> #[trigger] first_frame(c1[i]) == first_frame(c2[i]),
    decreases m,
{
    if m > 0 {
        lemma_same_starts(samples, voiced, c1, c2, m - 1);
        let i = m - 1;
        let x = first_frame(c1[i]);
        let y = first_frame(c2[i]);
        if x < y {
            lemma_chunk_starts_run(samples, voiced, c1, i);
            lemma_run_has_chunk(samples, voiced, c2, x);
            let k = choose|k: int| 0 <= k < c2.len() && first_frame(#[trigger] c2[k]) == x;
            if k > i {
                lemma_frames_ordered(samples, voiced, c2, i, k);
            } else if k < i {
                assert(first_frame(c1[k]) == first_frame(c2[k]));
                lemma_frames_ordered(samples, voiced, c1, k, i);
            }
        } else if y < x {
            lemma_chunk_starts_run(samples, voiced, c2, i);
            lemma_run_has_chunk(samples, voiced, c1, y);
            let k = choose|k: int| 0 <= k < c1.len() && first_frame(#[trigger] c1[k]) == y;
            if k > i {
                lemma_frames_ordered(samples, voiced, c1, i, k);
            } else if k < i {
                assert(first_frame(c1[k]) == first_frame(c2[k]));
                lemma_frames_ordered(samples, voiced, c2, k, i);
            }
        }
    }
}

/// A segmentation has no chunk beyond the length of another one whose
/// chunks start at the same frames.
proof fn lemma_no_extra_chunk(samples: Seq<u32>, voiced: Seq<bool>, c1: Seq<AudioChunk>, c2: Seq<AudioChunk>)
    requires
        speech_segmentation(samples, voiced, c1),
        speech_segmentation(samples, voiced, c2),
        forall|i: int| 0 <= i < c1.len() && i < c2.len() ==> #[trigger] first_frame(c1[i]) == first_frame(c2[i]),
    ensures
        c2.len() <= c1.len(),
{
    if c1.len() < c2.len() {
        let i = c1.len() as int;
        let y = first_frame(c2[i]);
        lemma_chunk_starts_run(samples, voiced, c2, i);
        lemma_run_has_chunk(samples, voiced, c1, y);
        let k = choose|k: int| 0 <= k < c1.len() && first_frame(#[trigger] c1[k]) == y;
        assert(first_frame(c2[k]) == y);
        lemma_frames_ordered(samples, voiced, c2, k, i);
    }
}

} // verus!
