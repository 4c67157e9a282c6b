use vstd::prelude::*;
use vstd::string::StringExecFns;

use crate::vad::AudioChunk;
use crate::wav_laws::{lemma_wav_holds_chunks_in_order, samples_before, wav_sample_at};

verus! {

#[verifier::external_type_specification]
#[verifier::external_body]
pub struct ExReqwestError(reqwest::Error);

/// A WAV file being written into a byte vector by `hound::WavWriter`.
/// Verus cannot take hound's writer type itself (its bound on `std::io`
/// traits), so it is held here, opaque.
#[verifier::external_body]
pub struct WavSink<'a> {
    writer: hound::WavWriter<std::io::Cursor<&'a mut Vec<u8>>>,
}

/// What the speech-to-text service heard.
#[derive(Debug)]
pub struct TranscriptResult {
    pub text: String,
    pub language: String,
}

/// Why a transcription failed.
#[derive(Debug)]
pub enum TranscribeError {
    /// The service did not answer in time.
    Timeout,
    /// The service answered with a status outside the success class.
    ApiError { status: u16, message: String },
    /// The request could not be built, sent or its reply read.
    HttpError(reqwest::Error),
    /// The audio could not be encoded as WAV.
    WavError(String),
}

/// The most samples a WAV file of 32-bit samples can hold here: hound counts
/// the data bytes, and the file size, in 32-bit integers.
pub const MAX_WAV_SAMPLES: usize = 0x3fff_fff0;

/// The samples written so far into a WAV file under way.
pub uninterp spec fn wav_sink_samples(sink: WavSink) -> Seq<u32>;

/// The sample rate that a WAV file under way was started with.
pub uninterp spec fn wav_sink_sample_rate(sink: WavSink) -> u32;

/// The bytes that the output buffer of a WAV file under way holds once the
/// writer has let go of it.
pub uninterp spec fn wav_sink_output(sink: WavSink) -> Seq<u8>;

/// The two bytes of `x`, least significant first.
pub open spec fn le_u16(x: u16) -> Seq<u8> {
    seq![(x & 0xff) as u8, ((x >> 8) & 0xff) as u8]
}

/// The four bytes of `x`, least significant first.
pub open spec fn le_u32(x: u32) -> Seq<u8> {
    seq![(x & 0xff) as u8, ((x >> 8) & 0xff) as u8, ((x >> 16) & 0xff) as u8, ((x >> 24) & 0xff) as u8]
}

/// The number that four bytes spell, least significant first.
pub open spec fn u32_from_le(b: Seq<u8>) -> u32 {
    (b[0] as u32) | ((b[1] as u32) << 8u32) | ((b[2] as u32) << 16u32) | ((b[3] as u32) << 24u32)
}

/// The bytes of `samples`, four per sample, each least significant first.
pub open spec fn le_samples(samples: Seq<u32>) -> Seq<u8>
    decreases samples.len(),
{
    if samples.len() == 0 {
        Seq::empty()
    } else {
        le_samples(samples.drop_last()) + le_u32(samples.last())
    }
}

/// The 68-byte header of a mono WAV file of `n` 32-bit IEEE float samples at
/// `sample_rate`: the RIFF chunk ("RIFF", the size of what follows, "WAVE"),
/// a 40-byte "fmt " chunk in the WAVE_FORMAT_EXTENSIBLE form (one channel,
/// 4 bytes per sample and per block, 32 valid bits, the front-left channel
/// mask, the IEEE float sub-format GUID), and the header of the "data" chunk
/// with its size.
pub open spec fn mono_float_wav_header(sample_rate: u32, n: nat) -> Seq<u8> {
    seq![0x52u8, 0x49u8, 0x46u8, 0x46u8]
        + le_u32((4 * n + 60) as u32)
        + seq![0x57u8, 0x41u8, 0x56u8, 0x45u8]
        + seq![0x66u8, 0x6du8, 0x74u8, 0x20u8]
        + le_u32(40)
        + le_u16(0xfffe)
        + le_u16(1)
        + le_u32(sample_rate)
        + le_u32((4 * sample_rate) as u32)
        + le_u16(4)
        + le_u16(32)
        + le_u16(22)
        + le_u16(32)
        + le_u32(1)
        + seq![
            0x03u8, 0x00u8, 0x00u8, 0x00u8, 0x00u8, 0x00u8, 0x10u8, 0x00u8,
            0x80u8, 0x00u8, 0x00u8, 0xaau8, 0x00u8, 0x38u8, 0x9bu8, 0x71u8,
        ]
        + seq![0x64u8, 0x61u8, 0x74u8, 0x61u8]
        + le_u32((4 * n) as u32)
}

/// The WAV file of mono 32-bit IEEE float `samples` (given by their bits) at
/// `sample_rate`: its header, then the samples.
pub open spec fn mono_float_wav_file(sample_rate: u32, samples: Seq<u32>) -> Seq<u8> {
    mono_float_wav_header(sample_rate, samples.len()) + le_samples(samples)
}

/// The layout of a WAV file's samples.
pub struct WavFormat {
    pub channels: u16,
    pub sample_rate: u32,
    pub bits_per_sample: u16,
    /// IEEE float samples when true, integer samples otherwise.
    pub float_samples: bool,
}

/// Starts a WAV file in `out` with `hound::WavWriter::new`, its `WavSpec`
/// built field for field from `format`; an error would be handed on as its
/// message. Only mono 32-bit float files are admitted, at a rate whose byte
/// rate (four bytes a sample) fits in 32 bits: for them hound writes the first
/// 68 bytes of `mono_float_wav_header` (its sizes still zero) through a
/// `Cursor` over the vector, which accepts every write, so it succeeds. (For
/// float samples of another width hound panics, and it divides by the rate.)
/// A new writer has written no sample, has the rate of `format`, and writes
/// into `out`: the bytes `out` holds when the writer lets go of it are its
/// output.
#[verifier::external_body]
fn wav_sink_new<'a>(out: &'a mut Vec<u8>, format: WavFormat) -> (r: Result<WavSink<'a>, String>)
    requires
        old(out)@.len() == 0,
        format.channels == 1,
        format.bits_per_sample == 32,
        format.float_samples,
        0 < format.sample_rate,
        4 * format.sample_rate <= u32::MAX,
    ensures
        r is Ok,
        r matches Ok(sink) ==> {
            &&& wav_sink_samples(sink) == Seq::<u32>::empty()
            &&& wav_sink_sample_rate(sink) == format.sample_rate
            &&& wav_sink_output(sink) == final(out)@
        },
{
    let sample_format = match format.float_samples {
        true => hound::SampleFormat::Float,
        false => hound::SampleFormat::Int,
    };
    let spec = hound::WavSpec {
        channels: format.channels,
        sample_rate: format.sample_rate,
        bits_per_sample: format.bits_per_sample,
        sample_format,
    };
    match hound::WavWriter::new(std::io::Cursor::new(out), spec) {
        Ok(writer) => Ok(WavSink { writer }),
        Err(e) => Err(e.to_string()),
    }
}

/// Appends one sample with `hound::WavWriter::write_sample`, handing it over
/// as the `i32` with the same bits: into a file of 32-bit samples hound writes
/// it as its four bytes, least significant first, which for the bit pattern
/// of a float are the bytes of that float. The write goes into the vector and
/// succeeds; the sample becomes the file's next. Hound adds the sample's bytes
/// to a 32-bit count, which must not overflow.
#[verifier::external_body]
fn wav_sink_write(sink: &mut WavSink, sample_bits: u32) -> (r: Result<(), String>)
    requires
        wav_sink_samples(*old(sink)).len() < MAX_WAV_SAMPLES,
    ensures
        r is Ok,
        wav_sink_samples(*final(sink)) == wav_sink_samples(*old(sink)).push(sample_bits),
        wav_sink_sample_rate(*final(sink)) == wav_sink_sample_rate(*old(sink)),
        wav_sink_output(*final(sink)) == wav_sink_output(*old(sink)),
{
    sink.writer.write_sample(sample_bits as i32).map_err(|e| e.to_string())
}

/// Completes the file with `hound::WavWriter::finalize`, which writes the
/// file size (the data size plus 60) and the data size into the header. For
/// a mono file the sample count is always whole, and the writes go into the
/// vector, so it succeeds: the output is then the mono float WAV file of the
/// samples written, at the writer's rate. The file size must fit in 32 bits.
#[verifier::external_body]
fn wav_sink_finalize(sink: WavSink) -> (r: Result<(), String>)
    requires
        wav_sink_samples(sink).len() <= MAX_WAV_SAMPLES,
    ensures
        r is Ok,
        r is Ok ==> wav_sink_output(sink) == mono_float_wav_file(wav_sink_sample_rate(sink), wav_sink_samples(sink)),
{
    sink.writer.finalize().map_err(|e| e.to_string())
}

/// The samples of all chunks, one chunk after the other.
pub open spec fn concat_samples(chunks: Seq<AudioChunk>) -> Seq<u32>
    decreases chunks.len(),
{
    if chunks.len() == 0 {
        Seq::empty()
    } else {
        concat_samples(chunks.drop_last()) + chunks.last().samples@
    }
}

/// Whether the samples of `chunks` fit in one WAV file.
pub fn wav_fits(chunks: &Vec<AudioChunk>) -> (fits: bool)
    ensures
        fits == (concat_samples(chunks@).len() <= MAX_WAV_SAMPLES),
{
    let mut total: usize = 0;
    let mut i: usize = 0;
    while i < chunks.len()
        invariant
            i <= chunks@.len(),
            total == concat_samples(chunks@.subrange(0, i as int)).len(),
            total <= MAX_WAV_SAMPLES,
        decreases chunks@.len() - i,
    {
        proof {
            assert(chunks@.subrange(0, i + 1).drop_last() =~= chunks@.subrange(0, i as int));
            lemma_concat_samples_prefix_grows(chunks@, i as int + 1, chunks@.len() as int);
        }
        let n = chunks[i].samples.len();
        if n > MAX_WAV_SAMPLES - total {
            proof {
                assert(chunks@.subrange(0, chunks@.len() as int) =~= chunks@);
                assert(chunks@.subrange(0, i + 1).last() == chunks@[i as int]);
            }
            return false;
        }
        total = total + n;
        i = i + 1;
    }
    assert(chunks@.subrange(0, i as int) =~= chunks@);
    true
}

/// The samples of more chunks are never fewer.
proof fn lemma_concat_samples_prefix_grows(chunks: Seq<AudioChunk>, i: int, j: int)
    requires
        0 <= i <= j <= chunks.len(),
    ensures
        concat_samples(chunks.subrange(0, i)).len() <= concat_samples(chunks.subrange(0, j)).len(),
    decreases j - i,
{
    if i < j {
        lemma_concat_samples_prefix_grows(chunks, i, j - 1);
        assert(chunks.subrange(0, j).drop_last() =~= chunks.subrange(0, j - 1));
    }
}

/// Encodes the samples of `chunks`, one chunk after the other, as a mono
/// 16 kHz WAV file of 32-bit float samples. A failure of the encoder would be
/// a `WavError`; for samples that fit in one file there is none.
pub fn encode_chunks_to_wav(chunks: &Vec<AudioChunk>) -> (wav: Result<Vec<u8>, TranscribeError>)
    requires
        concat_samples(chunks@).len() <= MAX_WAV_SAMPLES,
    ensures
        wav is Ok,
        wav matches Ok(bytes) ==> bytes@ == mono_float_wav_file(16000, concat_samples(chunks@)),
        wav matches Ok(bytes) ==> forall|i: int, j: int|
            #![trigger chunks@[i].samples@[j]]
            0 <= i < chunks@.len() && 0 <= j < chunks@[i].samples@.len() ==>
                wav_sample_at(bytes@, samples_before(chunks@, i) + j) == chunks@[i].samples@[j],
{
    let mut samples: Vec<u32> = Vec::new();
    let mut i: usize = 0;
    while i < chunks.len()
        invariant
            i <= chunks@.len(),
            samples@ == concat_samples(chunks@.subrange(0, i as int)),
        decreases chunks@.len() - i,
    {
        let chunk = &chunks[i];
        let mut j: usize = 0;
        let ghost before = samples@;
        while j < chunk.samples.len()
            invariant
                j <= chunk.samples@.len(),
                samples@ == before + chunk.samples@.subrange(0, j as int),
            decreases chunk.samples@.len() - j,
        {
            samples.push(chunk.samples[j]);
            j = j + 1;
            assert(samples@ =~= before + chunk.samples@.subrange(0, j as int));
        }
        assert(chunks@.subrange(0, i + 1).drop_last() =~= chunks@.subrange(0, i as int));
        assert(chunk.samples@.subrange(0, j as int) =~= chunk.samples@);
        i = i + 1;
    }
    assert(chunks@.subrange(0, i as int) =~= chunks@);
    proof {
        lemma_wav_holds_chunks_in_order(16000, chunks@);
    }
    let mut wav: Vec<u8> = Vec::new();
    match write_wav(&mut wav, &samples) {
        Ok(()) => Ok(wav),
        Err(msg) => Err(TranscribeError::WavError(msg)),
    }
}

/// Writes `samples` as a mono 16 kHz WAV file of 32-bit floats into the
/// empty buffer `out`.
fn write_wav(out: &mut Vec<u8>, samples: &Vec<u32>) -> (r: Result<(), String>)
    requires
        old(out)@.len() == 0,
        samples@.len() <= MAX_WAV_SAMPLES,
    ensures
        r is Ok,
        final(out)@ == mono_float_wav_file(16000, samples@),
{
    let format = WavFormat { channels: 1, sample_rate: 16000, bits_per_sample: 32, float_samples: true };
    let mut sink = wav_sink_new(out, format)?;
    let ghost output = wav_sink_output(sink);
    let mut k: usize = 0;
    while k < samples.len()
        invariant
            k <= samples@.len() <= MAX_WAV_SAMPLES,
            wav_sink_samples(sink) == samples@.subrange(0, k as int),
            wav_sink_sample_rate(sink) == 16000,
            wav_sink_output(sink) == output,
        decreases samples@.len() - k,
    {
        wav_sink_write(&mut sink, samples[k])?;
        assert(samples@.subrange(0, k + 1) =~= samples@.subrange(0, k as int).push(samples@[k as int]));
        k = k + 1;
    }
    assert(samples@.subrange(0, k as int) =~= samples@);
    wav_sink_finalize(sink)
}

/// A transcription request, ready to be sent: a multipart form with the WAV
/// file and the model, sent with `method` to `url`, authorized by `api_key`
/// under the `auth_scheme` scheme, given up after `timeout_secs` seconds.
pub struct TranscriptionRequest {
    pub method: String,
    pub url: String,
    pub auth_scheme: String,
    pub timeout_secs: u64,
    pub api_key: String,
    pub model: String,
    pub response_format: String,
    pub file_name: String,
    pub mime_type: String,
    pub wav: Vec<u8>,
}

/// The request that transcribes `chunks` with `model` at the OpenAI-compatible
/// service under `base_url`, its file the WAV encoding of `chunks`.
pub fn transcription_request(
    chunks: &Vec<AudioChunk>,
    api_key: &str,
    base_url: &str,
    model: &str,
) -> (req: Result<TranscriptionRequest, TranscribeError>)
    requires
        concat_samples(chunks@).len() <= MAX_WAV_SAMPLES,
    ensures
        req matches Ok(r) ==> {
            &&& r.method@ == "POST"@
            &&& r.url@ == base_url@ + "/v1/audio/transcriptions"@
            &&& r.auth_scheme@ == "Bearer"@
            &&& r.timeout_secs == 30
            &&& r.api_key@ == api_key@
            &&& r.model@ == model@
            &&& r.response_format@ == "verbose_json"@
            &&& r.file_name@ == "audio.wav"@
            &&& r.mime_type@ == "audio/wav"@
            &&& r.wav@ == mono_float_wav_file(16000, concat_samples(chunks@))
        },
        req is Ok,
{
    let wav = encode_chunks_to_wav(chunks)?;
    let url = base_url.to_owned().concat("/v1/audio/transcriptions");
    Ok(TranscriptionRequest {
        method: "POST".to_owned(),
        url,
        auth_scheme: "Bearer".to_owned(),
        timeout_secs: 30,
        api_key: api_key.to_owned(),
        model: model.to_owned(),
        response_format: "verbose_json".to_owned(),
        file_name: "audio.wav".to_owned(),
        mime_type: "audio/wav".to_owned(),
        wav,
    })
}

/// The request that transcribes `chunks` with Groq's hosted
/// `whisper-large-v3-turbo`.
pub fn groq_request(chunks: &Vec<AudioChunk>, api_key: &str) -> (req: Result<TranscriptionRequest, TranscribeError>)
    requires
        concat_samples(chunks@).len() <= MAX_WAV_SAMPLES,
    ensures
        req matches Ok(r) ==> {
            &&& r.method@ == "POST"@
            &&& r.auth_scheme@ == "Bearer"@
            &&& r.timeout_secs == 30
            &&& r.url@ == "https://api.groq.com/openai"@ + "/v1/audio/transcriptions"@
            &&& r.api_key@ == api_key@
            &&& r.model@ == "whisper-large-v3-turbo"@
            &&& r.response_format@ == "verbose_json"@
            &&& r.file_name@ == "audio.wav"@
            &&& r.mime_type@ == "audio/wav"@
            &&& r.wav@ == mono_float_wav_file(16000, concat_samples(chunks@))
        },
        req is Ok,
{
    transcription_request(chunks, api_key, "https://api.groq.com/openai", "whisper-large-v3-turbo")
}

/// The request that transcribes `chunks` with `whisper-1` at the service
/// under `base_url`.
pub fn request_with_base_url(chunks: &Vec<AudioChunk>, api_key: &str, base_url: &str) -> (req: Result<TranscriptionRequest, TranscribeError>)
    requires
        concat_samples(chunks@).len() <= MAX_WAV_SAMPLES,
    ensures
        req matches Ok(r) ==> {
            &&& r.method@ == "POST"@
            &&& r.auth_scheme@ == "Bearer"@
            &&& r.timeout_secs == 30
            &&& r.url@ == base_url@ + "/v1/audio/transcriptions"@
            &&& r.api_key@ == api_key@
            &&& r.model@ == "whisper-1"@
            &&& r.response_format@ == "verbose_json"@
            &&& r.file_name@ == "audio.wav"@
            &&& r.mime_type@ == "audio/wav"@
            &&& r.wav@ == mono_float_wav_file(16000, concat_samples(chunks@))
        },
        req is Ok,
{
    transcription_request(chunks, api_key, base_url, "whisper-1")
}

/// Whether an HTTP status is in the success class, 200 to 299.
pub fn is_success_status(status: u16) -> (ok: bool)
    ensures
        ok == (200 <= status && status < 300),
{
    200 <= status && status < 300
}

/// The error for a reply with a failing `status`; `body` is the reply's text
/// when it could be read.
pub fn api_error(status: u16, body: Option<String>) -> (e: TranscribeError)
    ensures
        e matches TranscribeError::ApiError { status: s, message: m } && s == status
            && m@ == match body { Some(b) => b@, None => Seq::<char>::empty() },
{
    let message = match body {
        Some(b) => b,
        None => String::new(),
    };
    TranscribeError::ApiError { status, message }
}

/// Whether `c` has the Unicode White_Space property.
pub open spec fn is_white_space(c: char) -> bool {
    let u = c as u32;
    ||| 0x09 <= u <= 0x0d
    ||| u == 0x20
    ||| u == 0x85
    ||| u == 0xa0
    ||| u == 0x1680
    ||| 0x2000 <= u <= 0x200a
    ||| u == 0x2028
    ||| u == 0x2029
    ||| u == 0x202f
    ||| u == 0x205f
    ||| u == 0x3000
}

/// `t` is `s` without its leading and trailing white space.
pub open spec fn is_trim_of(s: Seq<char>, t: Seq<char>) -> bool {
    exists|a: int, b: int| {
        &&& 0 <= a <= b <= s.len()
        &&& t == s.subrange(a, b)
        &&& forall|i: int| 0 <= i < a ==> is_white_space(#[trigger] s[i])
        &&& forall|i: int| b <= i < s.len() ==> is_white_space(#[trigger] s[i])
        &&& a < b ==> !is_white_space(s[a]) && !is_white_space(s[b - 1])
    }
}

/// `str::trim`: `s` without leading and trailing white space, white space
/// being the characters with the Unicode White_Space property, as its
/// documentation says.
#[verifier::external_body]
fn str_trim(s: &str) -> (t: &str)
    ensures
        is_trim_of(s@, t@),
{
    s.trim()
}

/// The transcript of a successful reply: its text without surrounding white
/// space, and the language the service detected.
pub fn transcript_from_reply(text: &str, language: String) -> (r: TranscriptResult)
    ensures
        is_trim_of(text@, r.text@),
        r.language@ == language@,
{
    TranscriptResult { text: str_trim(text).to_owned(), language }
}

/// Whether the request behind `e` timed out, from `reqwest::Error::is_timeout`.
/// Nothing is claimed of the answer.
#[verifier::external_body]
fn reqwest_is_timeout(e: &reqwest::Error) -> bool {
    e.is_timeout()
}

/// The error for a request that could not be sent: a timeout, or the HTTP
/// error itself.
pub fn send_error(e: reqwest::Error, timed_out: bool) -> (r: TranscribeError)
    ensures
        timed_out ==> r is Timeout,
        !timed_out ==> r == TranscribeError::HttpError(e),
{
    if timed_out {
        TranscribeError::Timeout
    } else {
        TranscribeError::HttpError(e)
    }
}

/// The error for a request that could not be sent, as reqwest reports it:
/// `Timeout` when it timed out, and the HTTP error otherwise.
pub fn classify_send_error(e: reqwest::Error) -> (r: TranscribeError)
    ensures
        r is Timeout || r == TranscribeError::HttpError(e),
{
    let timed_out = reqwest_is_timeout(&e);
    send_error(e, timed_out)
}

} // verus!
