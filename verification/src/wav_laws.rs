use vstd::prelude::*;

use crate::transcribe::{
    concat_samples, le_samples, le_u32, mono_float_wav_file, mono_float_wav_header, u32_from_le, MAX_WAV_SAMPLES,
};
use crate::vad::AudioChunk;

verus! {

/// The `i`-th group of four bytes in `bytes`.
pub open spec fn le_group(bytes: Seq<u8>, i: int) -> Seq<u8> {
    bytes.subrange(4 * i, 4 * i + 4)
}

/// The sample at index `i` of the data that follows a 68-byte WAV header in
/// `file`, read least significant byte first.
pub open spec fn wav_sample_at(file: Seq<u8>, i: int) -> u32 {
    u32_from_le(le_group(file.subrange(68, file.len() as int), i))
}

/// A number written as four bytes, least significant first, reads back as
/// itself.
pub proof fn lemma_le_u32_round_trip(x: u32)
    ensures
        u32_from_le(le_u32(x)) == x,
{
    let b0 = (x & 0xff) as u8;
    let b1 = ((x >> 8) & 0xff) as u8;
    let b2 = ((x >> 16) & 0xff) as u8;
    let b3 = ((x >> 24) & 0xff) as u8;
    assert(le_u32(x)[0] == b0 && le_u32(x)[1] == b1 && le_u32(x)[2] == b2 && le_u32(x)[3] == b3);
    assert(((b0 as u32) | ((b1 as u32) << 8u32) | ((b2 as u32) << 16u32) | ((b3 as u32) << 24u32)) == x)
        by (bit_vector)
        requires
            b0 == (x & 0xff) as u8,
            b1 == ((x >> 8) & 0xff) as u8,
            b2 == ((x >> 16) & 0xff) as u8,
            b3 == ((x >> 24) & 0xff) as u8,
    ;
}

/// The bytes of a run of samples are four per sample, the `i`-th group of
/// four being the bytes of sample `i`.
pub proof fn lemma_le_samples(samples: Seq<u32>)
    ensures
        le_samples(samples).len() == 4 * samples.len(),
        forall|i: int| 0 <= i < samples.len() ==> #[trigger] le_group(le_samples(samples), i) == le_u32(samples[i]),
    decreases samples.len(),
{
    if samples.len() > 0 {
        let init = samples.drop_last();
        lemma_le_samples(init);
        let b = le_samples(samples);
        assert forall|i: int| 0 <= i < samples.len() implies #[trigger] le_group(b, i) == le_u32(samples[i]) by {
            if i < init.len() {
                assert(le_group(b, i) =~= le_group(le_samples(init), i));
            } else {
                assert(le_group(b, i) =~= le_u32(samples.last()));
            }
        }
    }
}

/// A mono 32-bit float WAV file is its 68-byte header and four bytes per
/// sample. It starts with "RIFF", its size field counts the bytes after the
/// first eight, "WAVE" follows, its data size field counts the sample bytes,
/// and the data gives back every sample, in order.
pub proof fn lemma_wav_file_holds_samples(sample_rate: u32, samples: Seq<u32>)
    requires
        samples.len() <= MAX_WAV_SAMPLES,
    ensures
        mono_float_wav_file(sample_rate, samples).len() == 68 + 4 * samples.len(),
        mono_float_wav_file(sample_rate, samples).subrange(0, 4) == seq![0x52u8, 0x49u8, 0x46u8, 0x46u8],
        u32_from_le(mono_float_wav_file(sample_rate, samples).subrange(4, 8)) == 60 + 4 * samples.len(),
        mono_float_wav_file(sample_rate, samples).subrange(8, 12) == seq![0x57u8, 0x41u8, 0x56u8, 0x45u8],
        u32_from_le(mono_float_wav_file(sample_rate, samples).subrange(64, 68)) == 4 * samples.len(),
        forall|i: int| 0 <= i < samples.len() ==>
            #[trigger] wav_sample_at(mono_float_wav_file(sample_rate, samples), i) == samples[i],
{
    let n = samples.len();
    let h = mono_float_wav_header(sample_rate, n);
    let d = le_samples(samples);
    let f = mono_float_wav_file(sample_rate, samples);
    lemma_le_samples(samples);
    assert(h.len() == 68);
    assert(f.subrange(0, 4) =~= seq![0x52u8, 0x49u8, 0x46u8, 0x46u8]);
    assert(f.subrange(4, 8) =~= le_u32((4 * n + 60) as u32));
    lemma_le_u32_round_trip((4 * n + 60) as u32);
    assert(f.subrange(8, 12) =~= seq![0x57u8, 0x41u8, 0x56u8, 0x45u8]);
    assert(f.subrange(64, 68) =~= le_u32((4 * n) as u32));
    lemma_le_u32_round_trip((4 * n) as u32);
    assert(f.subrange(68, f.len() as int) =~= d);
    assert forall|i: int| 0 <= i < n implies #[trigger] wav_sample_at(f, i) == samples[i] by {
        lemma_le_u32_round_trip(samples[i]);
    }
}

/// How many samples the chunks before index `i` hold together.
pub open spec fn samples_before(chunks: Seq<AudioChunk>, i: int) -> int
    decreases i,
{
    if i <= 0 {
        0
    } else {
        samples_before(chunks, i - 1) + chunks[i - 1].samples@.len()
    }
}

/// The stretch of the concatenated samples where chunk `i` should stand:
/// after the samples of all chunks before it.
pub open spec fn chunk_span(chunks: Seq<AudioChunk>, i: int) -> Seq<u32> {
    concat_samples(chunks).subrange(samples_before(chunks, i), samples_before(chunks, i + 1))
}

/// The samples before index `i` grow with `i`.
proof fn lemma_samples_before_grows(chunks: Seq<AudioChunk>, i: int, k: int)
    requires
        i <= k,
    ensures
        samples_before(chunks, i) <= samples_before(chunks, k),
    decreases k - i,
{
    if i < k {
        lemma_samples_before_grows(chunks, i, k - 1);
    }
}

/// The samples before index `i` do not depend on the chunks from `i` on.
proof fn lemma_samples_before_prefix(chunks: Seq<AudioChunk>, i: int)
    requires
        0 <= i < chunks.len(),
    ensures
        samples_before(chunks.drop_last(), i) == samples_before(chunks, i),
    decreases i,
{
    if i > 0 {
        lemma_samples_before_prefix(chunks, i - 1);
    }
}

/// Concatenating the samples of two runs of chunks one after the other gives
/// the samples of the first run followed by those of the second.
pub proof fn lemma_concat_samples_append(a: Seq<AudioChunk>, b: Seq<AudioChunk>)
    ensures
        concat_samples(a + b) == concat_samples(a) + concat_samples(b),
    decreases b.len(),
{
    if b.len() == 0 {
        assert(a + b =~= a);
        assert(concat_samples(a) + concat_samples(b) =~= concat_samples(a));
    } else {
        lemma_concat_samples_append(a, b.drop_last());
        assert((a + b).drop_last() =~= a + b.drop_last());
        assert((a + b).last() == b.last());
        assert(concat_samples(a + b) =~= concat_samples(a) + concat_samples(b));
    }
}

/// One more chunk adds its samples at the end, whatever its times.
pub proof fn lemma_concat_samples_push(chunks: Seq<AudioChunk>, c: AudioChunk)
    ensures
        concat_samples(chunks.push(c)) == concat_samples(chunks) + c.samples@,
{
    assert(chunks.push(c).drop_last() =~= chunks);
    assert(chunks.push(c).last() == c);
}

/// The concatenated samples are those of every chunk in the order of the
/// chunks: chunk `i` stands right after the samples of the chunks before it.
pub proof fn lemma_concat_samples_in_order(chunks: Seq<AudioChunk>)
    ensures
        concat_samples(chunks).len() == samples_before(chunks, chunks.len() as int),
        forall|i: int| 0 <= i < chunks.len() ==> #[trigger] chunk_span(chunks, i) == chunks[i].samples@,
    decreases chunks.len(),
{
    if chunks.len() > 0 {
        let n = chunks.len() as int;
        let init = chunks.drop_last();
        lemma_concat_samples_in_order(init);
        lemma_concat_samples_push(init, chunks.last());
        assert(init.push(chunks.last()) =~= chunks);
        lemma_samples_before_prefix(chunks, n - 1);
        assert forall|i: int| 0 <= i < chunks.len() implies #[trigger] chunk_span(chunks, i) == chunks[i].samples@ by {
            let whole = concat_samples(chunks);
            let front = concat_samples(init);
            assert(whole == front + chunks.last().samples@);
            if i < n - 1 {
                lemma_samples_before_prefix(chunks, i);
                lemma_samples_before_prefix(chunks, i + 1);
                lemma_samples_before_grows(init, i + 1, n - 1);
                let lo = samples_before(chunks, i);
                let hi = samples_before(chunks, i + 1);
                assert(lo == samples_before(init, i) && hi == samples_before(init, i + 1));
                assert(0 <= lo) by { lemma_samples_before_grows(init, 0, i); }
                assert(lo <= hi <= front.len());
                assert(chunk_span(init, i) == init[i].samples@);
                assert(init[i] == chunks[i]);
                assert(whole.subrange(lo, hi) =~= front.subrange(lo, hi));
            } else {
                assert(chunk_span(chunks, i) =~= chunks.last().samples@);
            }
        }
    }
}

/// The WAV file of a run of chunks holds every sample of every chunk, in the
/// order of the chunks and within each chunk: sample `j` of chunk `i` is the
/// data sample right after the samples of the chunks before `i`, and `j` on.
pub proof fn lemma_wav_holds_chunks_in_order(sample_rate: u32, chunks: Seq<AudioChunk>)
    requires
        concat_samples(chunks).len() <= MAX_WAV_SAMPLES,
    ensures
        mono_float_wav_file(sample_rate, concat_samples(chunks)).len()
            == 68 + 4 * samples_before(chunks, chunks.len() as int),
        forall|i: int, j: int|
            #![trigger chunks[i].samples@[j]]
            0 <= i < chunks.len() && 0 <= j < chunks[i].samples@.len() ==>
                wav_sample_at(mono_float_wav_file(sample_rate, concat_samples(chunks)), samples_before(chunks, i) + j)
                    == chunks[i].samples@[j],
{
    let all = concat_samples(chunks);
    let f = mono_float_wav_file(sample_rate, all);
    lemma_concat_samples_in_order(chunks);
    lemma_wav_file_holds_samples(sample_rate, all);
    assert forall|i: int, j: int|
        #![trigger chunks[i].samples@[j]]
        0 <= i < chunks.len() && 0 <= j < chunks[i].samples@.len() implies
            wav_sample_at(f, samples_before(chunks, i) + j) == chunks[i].samples@[j] by {
        let lo = samples_before(chunks, i);
        let hi = samples_before(chunks, i + 1);
        assert(chunk_span(chunks, i) == chunks[i].samples@);
        lemma_samples_before_grows(chunks, i + 1, chunks.len() as int);
        lemma_samples_before_grows(chunks, 0, i);
        assert(hi == lo + chunks[i].samples@.len());
        assert(all.subrange(lo, hi)[j] == all[lo + j]);
        assert(wav_sample_at(f, lo + j) == all[lo + j]);
    }
}

} // verus!
