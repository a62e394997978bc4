//! Requests, audio buffers, the request fingerprint and the decoding of the
//! service's final answer into a playable container.
use vstd::prelude::*;

use crate::tts::cache::{get_result, insert_result, opt_view, CacheView, TTSCache};
use crate::tts::error::TTSError;
use crate::tts::wav::{create_wav_file, le16, le32, lemma_le32_read, push_all, wav_bytes};
use vstd::utf8::{encode_utf8, encode_utf8_decode_utf8};

verus! {

/// The container format that a caller asks for. Only `Wav` is produced; the
/// others are carried as a tag.
#[derive(Debug, Clone, Copy, PartialEq, Eq, Structural)]
pub enum AudioFormat {
    Wav,
    Mp3,
    Ogg,
}

/// A decoded audio buffer.
#[derive(Debug, Clone)]
pub struct AudioData {
    /// The container bytes.
    pub data: Vec<u8>,
    pub format: AudioFormat,
    /// Playing time in milliseconds.
    pub duration_ms: u64,
    pub sample_rate: u32,
}

/// The value of an `AudioData`.
pub struct AudioDataView {
    pub data: Seq<u8>,
    pub format: AudioFormat,
    pub duration_ms: u64,
    pub sample_rate: u32,
}

impl View for AudioData {
    type V = AudioDataView;

    open spec fn view(&self) -> AudioDataView {
        AudioDataView {
            data: self.data@,
            format: self.format,
            duration_ms: self.duration_ms,
            sample_rate: self.sample_rate,
        }
    }
}

impl AudioData {
    /// A copy of this buffer.
    pub fn duplicate(&self) -> (r: AudioData)
        ensures
            r@ == self@,
    {
        let mut data: Vec<u8> = Vec::new();
        push_all(&mut data, self.data.as_slice());
        AudioData {
            data,
            format: self.format,
            duration_ms: self.duration_ms,
            sample_rate: self.sample_rate,
        }
    }
}

/// Voice parameters of a request. The speed, pitch and volume are carried
/// as the bit patterns of their 32-bit floating-point values.
#[derive(Debug, Clone)]
pub struct SynthesizeOptions {
    pub voice: Option<String>,
    pub speed_bits: Option<u32>,
    pub pitch_bits: Option<u32>,
    pub volume_bits: Option<u32>,
    pub format: Option<AudioFormat>,
}

/// Sample rate assumed where the service's answer gives none.
pub const DEFAULT_SAMPLE_RATE: u64 = 24000;

/// The little-endian 16-bit PCM bytes of `s`, in order.
pub open spec fn pcm_bytes(s: Seq<i16>) -> Seq<u8>
    decreases s.len(),
{
    if s.len() == 0 {
        Seq::empty()
    } else {
        pcm_bytes(s.drop_last()) + le16(s.last() as u16)
    }
}

/// The samples of every frame, frame after frame.
pub open spec fn flatten(frames: Seq<Seq<i16>>) -> Seq<i16>
    decreases frames.len(),
{
    if frames.len() == 0 {
        Seq::empty()
    } else {
        flatten(frames.drop_last()) + frames.last()
    }
}

proof fn lemma_pcm_len(s: Seq<i16>)
    ensures
        pcm_bytes(s).len() == 2 * s.len(),
    decreases s.len(),
{
    if s.len() > 0 {
        lemma_pcm_len(s.drop_last());
    }
}

proof fn lemma_pcm_concat(a: Seq<i16>, b: Seq<i16>)
    ensures
        pcm_bytes(a + b) == pcm_bytes(a) + pcm_bytes(b),
    decreases b.len(),
{
    if b.len() == 0 {
        assert(a + b =~= a);
        assert(pcm_bytes(b) =~= Seq::<u8>::empty());
        assert(pcm_bytes(a) + pcm_bytes(b) =~= pcm_bytes(a));
    } else {
        lemma_pcm_concat(a, b.drop_last());
        assert((a + b).drop_last() =~= a + b.drop_last());
        assert((a + b).last() == b.last());
        assert(pcm_bytes(a + b) =~= pcm_bytes(a) + pcm_bytes(b));
    }
}

proof fn lemma_flatten_prefix(f: Seq<Seq<i16>>, j: int)
    requires
        0 <= j <= f.len(),
    ensures
        flatten(f.subrange(0, j)).len() <= flatten(f).len(),
    decreases f.len(),
{
    if j < f.len() {
        assert(f.subrange(0, j) =~= f.drop_last().subrange(0, j));
        lemma_flatten_prefix(f.drop_last(), j);
    } else {
        assert(f.subrange(0, j) =~= f);
    }
}

/// Appends the PCM bytes of `samples` to `out`.
fn push_samples(out: &mut Vec<u8>, samples: &Vec<i16>)
    ensures
        final(out)@ == old(out)@ + pcm_bytes(samples@),
{
    let mut i: usize = 0;
    while i < samples.len()
        invariant
            i <= samples@.len(),
            out@ == old(out)@ + pcm_bytes(samples@.subrange(0, i as int)),
        decreases samples@.len() - i,
    {
        let v = samples[i] as u16;
        out.push((v & 0xff) as u8);
        out.push(((v >> 8u16) & 0xff) as u8);
        proof {
            let next = samples@.subrange(0, i + 1);
            assert(next.drop_last() =~= samples@.subrange(0, i as int));
            assert(out@ =~= old(out)@ + pcm_bytes(next));
        }
        i = i + 1;
    }
    assert(samples@.subrange(0, i as int) =~= samples@);
}

/// Whether decoding `frames` at `sample_rate` gives audio: there is at least
/// one sample, the rate is positive, and the container fields fit.
pub open spec fn audio_decodable(sample_rate: u64, frames: Seq<Seq<i16>>) -> bool {
    let n = flatten(frames).len();
    &&& n > 0
    &&& 0 < sample_rate <= u32::MAX / 2
    &&& 2 * n + 36 <= u32::MAX
}

/// The rate that a response states, or the default where it states none.
pub open spec fn effective_rate(sample_rate: Option<u64>) -> u64 {
    match sample_rate {
        Some(r) => r,
        None => DEFAULT_SAMPLE_RATE,
    }
}

/// Turns the final answer of the service, a sample rate and the 16-bit
/// samples of each frame, into a one-channel container. Fails with
/// `AudioFormatError` where there are no samples or the values do not fit a
/// container; no audio is ever made up.
pub fn audio_from_samples(sample_rate: Option<u64>, frames: &Vec<Vec<i16>>) -> (r: Result<
    AudioData,
    TTSError,
>)
    ensures
        audio_decodable(effective_rate(sample_rate), frames.deep_view()) ==> r is Ok && r->Ok_0@
            == (AudioDataView {
            data: wav_bytes(
                pcm_bytes(flatten(frames.deep_view())),
                effective_rate(sample_rate) as u32,
                1,
            ),
            format: AudioFormat::Wav,
            duration_ms: (flatten(frames.deep_view()).len() * 1000 / (effective_rate(
                sample_rate,
            ) as nat)) as u64,
            sample_rate: effective_rate(sample_rate) as u32,
        }),
        !audio_decodable(effective_rate(sample_rate), frames.deep_view()) ==> r matches Err(
            TTSError::AudioFormatError(_),
        ),
{
    let rate: u64 = match sample_rate {
        Some(r) => r,
        None => DEFAULT_SAMPLE_RATE,
    };
    let mut pcm: Vec<u8> = Vec::new();
    let mut count: u64 = 0;
    let mut i: usize = 0;
    while i < frames.len()
        invariant
            i <= frames@.len(),
            pcm@ == pcm_bytes(flatten(frames.deep_view().subrange(0, i as int))),
            count == flatten(frames.deep_view().subrange(0, i as int)).len(),
            count <= u32::MAX,
        decreases frames@.len() - i,
    {
        let frame = &frames[i];
        proof {
            let fv = frames.deep_view();
            let next = fv.subrange(0, i + 1);
            assert(next.drop_last() =~= fv.subrange(0, i as int));
            assert(next.last() == frame@);
            lemma_pcm_concat(flatten(fv.subrange(0, i as int)), frame@);
            lemma_flatten_prefix(fv, i + 1);
        }
        if frame.len() as u64 > u32::MAX as u64 - count {
            return Err(TTSError::AudioFormatError(String::new()));
        }
        push_samples(&mut pcm, frame);
        count = count + frame.len() as u64;
        i = i + 1;
    }
    assert(frames.deep_view().subrange(0, i as int) =~= frames.deep_view());
    if count == 0 || rate == 0 || rate > (u32::MAX / 2) as u64 || 2 * count + 36 > u32::MAX as u64 {
        return Err(TTSError::AudioFormatError(String::new()));
    }
    proof {
        lemma_pcm_len(flatten(frames.deep_view()));
    }
    let data = create_wav_file(pcm.as_slice(), rate as u32, 1);
    Ok(AudioData {
        data,
        format: AudioFormat::Wav,
        duration_ms: count * 1000 / rate,
        sample_rate: rate as u32,
    })
}

/// The fields of a request that its fingerprint covers: the text and each
/// option that is present. A request without options has none present.
pub struct RequestKey {
    pub text: Seq<char>,
    pub voice: Option<Seq<char>>,
    pub speed_bits: Option<u32>,
    pub pitch_bits: Option<u32>,
    pub volume_bits: Option<u32>,
}

/// The fingerprinted fields of `text` with `options`.
pub open spec fn request_key(text: Seq<char>, options: Option<SynthesizeOptions>) -> RequestKey {
    match options {
        Some(o) => RequestKey {
            text,
            voice: match o.voice {
                Some(v) => Some(v@),
                None => None,
            },
            speed_bits: o.speed_bits,
            pitch_bits: o.pitch_bits,
            volume_bits: o.volume_bits,
        },
        None => RequestKey {
            text,
            voice: None,
            speed_bits: None,
            pitch_bits: None,
            volume_bits: None,
        },
    }
}

/// The eight little-endian bytes of `v`.
pub open spec fn le64(v: u64) -> Seq<u8> {
    le32((v & 0xffff_ffff) as u32) + le32((v >> 32u64) as u32)
}

/// A text as its UTF-8 length followed by its UTF-8 bytes.
pub open spec fn text_field(s: Seq<char>) -> Seq<u8> {
    le64(encode_utf8(s).len() as u64) + encode_utf8(s)
}

/// An optional text: a zero byte where absent, else a one byte and the text.
pub open spec fn optional_text_field(o: Option<Seq<char>>) -> Seq<u8> {
    match o {
        Some(s) => seq![1u8] + text_field(s),
        None => seq![0u8],
    }
}

/// An optional 32-bit value: a zero byte where absent, else a one byte and
/// the value.
pub open spec fn optional_bits_field(o: Option<u32>) -> Seq<u8> {
    match o {
        Some(b) => seq![1u8] + le32(b),
        None => seq![0u8],
    }
}

/// The canonical bytes of a request: every field in a fixed order, each
/// framed so that the sequence can be read back field by field.
pub open spec fn key_bytes(k: RequestKey) -> Seq<u8> {
    text_field(k.text) + optional_text_field(k.voice) + optional_bits_field(k.speed_bits)
        + optional_bits_field(k.pitch_bits) + optional_bits_field(k.volume_bits)
}

/// The lower-case hexadecimal digit of `d`.
pub open spec fn hex_digit(d: u8) -> char {
    if d < 10 {
        ((48 + d) as u8) as char
    } else {
        ((87 + d) as u8) as char
    }
}

/// Two hexadecimal digits for each byte, high nibble first.
pub open spec fn hex_of(b: Seq<u8>) -> Seq<char>
    decreases b.len(),
{
    if b.len() == 0 {
        Seq::empty()
    } else {
        hex_of(b.drop_last()) + seq![hex_digit(b.last() >> 4u8), hex_digit(b.last() & 15u8)]
    }
}

/// The prefix of every fingerprint.
pub open spec fn key_prefix() -> Seq<char> {
    seq!['t', 't', 's', '_']
}

/// The fingerprint of a request: a fixed prefix and the hexadecimal form of
/// its canonical bytes.
pub open spec fn fingerprint(k: RequestKey) -> Seq<char> {
    key_prefix() + hex_of(key_bytes(k))
}

fn push_u64(out: &mut Vec<u8>, v: u64)
    ensures
        final(out)@ == old(out)@ + le64(v),
{
    let lo = (v & 0xffff_ffff) as u32;
    let hi = (v >> 32u64) as u32;
    out.push((lo & 0xff) as u8);
    out.push(((lo >> 8u32) & 0xff) as u8);
    out.push(((lo >> 16u32) & 0xff) as u8);
    out.push(((lo >> 24u32) & 0xff) as u8);
    out.push((hi & 0xff) as u8);
    out.push(((hi >> 8u32) & 0xff) as u8);
    out.push(((hi >> 16u32) & 0xff) as u8);
    out.push(((hi >> 24u32) & 0xff) as u8);
    assert(final(out)@ =~= old(out)@ + le64(v));
}

fn push_text_field(out: &mut Vec<u8>, s: &str)
    ensures
        final(out)@ == old(out)@ + text_field(s@),
{
    let b = s.as_bytes();
    push_u64(out, b.len() as u64);
    push_all(out, b);
    assert(final(out)@ =~= old(out)@ + text_field(s@));
}

fn push_optional_bits(out: &mut Vec<u8>, o: Option<u32>)
    ensures
        final(out)@ == old(out)@ + optional_bits_field(o),
{
    match o {
        Some(b) => {
            out.push(1u8);
            out.push((b & 0xff) as u8);
            out.push(((b >> 8u32) & 0xff) as u8);
            out.push(((b >> 16u32) & 0xff) as u8);
            out.push(((b >> 24u32) & 0xff) as u8);
        },
        None => {
            out.push(0u8);
        },
    }
    assert(final(out)@ =~= old(out)@ + optional_bits_field(o));
}

/// The canonical bytes of a request.
fn request_key_bytes(text: &str, options: &Option<SynthesizeOptions>) -> (r: Vec<u8>)
    ensures
        r@ == key_bytes(request_key(text@, *options)),
{
    let mut out: Vec<u8> = Vec::new();
    push_text_field(&mut out, text);
    match options {
        Some(o) => {
            match &o.voice {
                Some(v) => {
                    out.push(1u8);
                    push_text_field(&mut out, v.as_str());
                },
                None => {
                    out.push(0u8);
                },
            }
            push_optional_bits(&mut out, o.speed_bits);
            push_optional_bits(&mut out, o.pitch_bits);
            push_optional_bits(&mut out, o.volume_bits);
        },
        None => {
            out.push(0u8);
            push_optional_bits(&mut out, None);
            push_optional_bits(&mut out, None);
            push_optional_bits(&mut out, None);
        },
    }
    assert(out@ =~= key_bytes(request_key(text@, *options)));
    out
}

fn hex_char(d: u8) -> (c: char)
    requires
        d < 16,
    ensures
        c == hex_digit(d),
{
    if d < 10 {
        (48 + d) as char
    } else {
        (87 + d) as char
    }
}

/// The cache key of a request: equal for requests whose text and present
/// options are equal, different otherwise.
pub fn generate_cache_key(text: &str, options: &Option<SynthesizeOptions>) -> (r: String)
    ensures
        r@ == fingerprint(request_key(text@, *options)),
{
    let bytes = request_key_bytes(text, options);
    let mut out = String::new();
    out.push('t');
    out.push('t');
    out.push('s');
    out.push('_');
    assert(out@ =~= key_prefix());
    let mut i: usize = 0;
    while i < bytes.len()
        invariant
            i <= bytes@.len(),
            out@ == key_prefix() + hex_of(bytes@.subrange(0, i as int)),
        decreases bytes@.len() - i,
    {
        let b = bytes[i];
        assert(b >> 4u8 < 16) by (bit_vector);
        assert(b & 15u8 < 16) by (bit_vector);
        out.push(hex_char(b >> 4u8));
        out.push(hex_char(b & 15u8));
        proof {
            let next = bytes@.subrange(0, i + 1);
            assert(next.drop_last() =~= bytes@.subrange(0, i as int));
            assert(next.last() == b);
            assert(out@ =~= key_prefix() + hex_of(next));
        }
        i = i + 1;
    }
    assert(bytes@.subrange(0, i as int) =~= bytes@);
    out
}


proof fn lemma_split<A>(a1: Seq<A>, r1: Seq<A>, a2: Seq<A>, r2: Seq<A>)
    requires
        a1 + r1 == a2 + r2,
        a1.len() == a2.len(),
    ensures
        a1 == a2,
        r1 == r2,
{
    assert(a1 =~= (a1 + r1).subrange(0, a1.len() as int));
    assert(a2 =~= (a2 + r2).subrange(0, a2.len() as int));
    assert(r1 =~= (a1 + r1).subrange(a1.len() as int, (a1 + r1).len() as int));
    assert(r2 =~= (a2 + r2).subrange(a2.len() as int, (a2 + r2).len() as int));
}

proof fn lemma_le32_injective(a: u32, b: u32)
    requires
        le32(a) == le32(b),
    ensures
        a == b,
{
    lemma_le32_read(a);
    lemma_le32_read(b);
}

proof fn lemma_le64_injective(a: u64, b: u64)
    requires
        le64(a) == le64(b),
    ensures
        a == b,
{
    lemma_split(le32((a & 0xffff_ffff) as u32), le32((a >> 32u64) as u32), le32((b & 0xffff_ffff) as u32), le32((b >> 32u64) as u32));
    lemma_le32_injective((a & 0xffff_ffff) as u32, (b & 0xffff_ffff) as u32);
    lemma_le32_injective((a >> 32u64) as u32, (b >> 32u64) as u32);
    assert(a == b) by (bit_vector)
        requires
            (a & 0xffff_ffff) as u32 == (b & 0xffff_ffff) as u32,
            (a >> 32u64) as u32 == (b >> 32u64) as u32,
    ;
}

proof fn lemma_text_field_prefix(s1: Seq<char>, r1: Seq<u8>, s2: Seq<char>, r2: Seq<u8>)
    requires
        encode_utf8(s1).len() <= u64::MAX,
        encode_utf8(s2).len() <= u64::MAX,
        text_field(s1) + r1 == text_field(s2) + r2,
    ensures
        s1 == s2,
        r1 == r2,
{
    let e1 = encode_utf8(s1);
    let e2 = encode_utf8(s2);
    assert(text_field(s1) + r1 =~= le64(e1.len() as u64) + (e1 + r1));
    assert(text_field(s2) + r2 =~= le64(e2.len() as u64) + (e2 + r2));
    lemma_split(le64(e1.len() as u64), e1 + r1, le64(e2.len() as u64), e2 + r2);
    lemma_le64_injective(e1.len() as u64, e2.len() as u64);
    lemma_split(e1, r1, e2, r2);
    encode_utf8_decode_utf8(s1);
    encode_utf8_decode_utf8(s2);
}
proof fn lemma_optional_text_prefix(
    o1: Option<Seq<char>>,
    r1: Seq<u8>,
    o2: Option<Seq<char>>,
    r2: Seq<u8>,
)
    requires
        o1 is Some ==> encode_utf8(o1->0).len() <= u64::MAX,
        o2 is Some ==> encode_utf8(o2->0).len() <= u64::MAX,
        optional_text_field(o1) + r1 == optional_text_field(o2) + r2,
    ensures
        o1 == o2,
        r1 == r2,
{
    let b1 = optional_text_field(o1) + r1;
    let b2 = optional_text_field(o2) + r2;
    assert(b1[0] == optional_text_field(o1)[0]);
    assert(b2[0] == optional_text_field(o2)[0]);
    match (o1, o2) {
        (Some(t1), Some(t2)) => {
            assert(b1 =~= seq![1u8] + (text_field(t1) + r1));
            assert(b2 =~= seq![1u8] + (text_field(t2) + r2));
            lemma_split(seq![1u8], text_field(t1) + r1, seq![1u8], text_field(t2) + r2);
            lemma_text_field_prefix(t1, r1, t2, r2);
        },
        (None, None) => {
            lemma_split(seq![0u8], r1, seq![0u8], r2);
        },
        _ => {},
    }
}

proof fn lemma_optional_bits_prefix(o1: Option<u32>, r1: Seq<u8>, o2: Option<u32>, r2: Seq<u8>)
    requires
        optional_bits_field(o1) + r1 == optional_bits_field(o2) + r2,
    ensures
        o1 == o2,
        r1 == r2,
{
    let b1 = optional_bits_field(o1) + r1;
    let b2 = optional_bits_field(o2) + r2;
    assert(b1[0] == optional_bits_field(o1)[0]);
    assert(b2[0] == optional_bits_field(o2)[0]);
    match (o1, o2) {
        (Some(x), Some(y)) => {
            lemma_split(optional_bits_field(o1), r1, optional_bits_field(o2), r2);
            lemma_split(seq![1u8], le32(x), seq![1u8], le32(y));
            lemma_le32_injective(x, y);
        },
        (None, None) => {
            lemma_split(seq![0u8], r1, seq![0u8], r2);
        },
        _ => {},
    }
}

/// Whether the texts of a request fit the length field of its fingerprint,
/// as the texts of every string in memory do.
pub open spec fn key_fits(k: RequestKey) -> bool {
    &&& encode_utf8(k.text).len() <= u64::MAX
    &&& k.voice is Some ==> encode_utf8(k.voice->0).len() <= u64::MAX
}

proof fn lemma_regroup(a: Seq<u8>, b: Seq<u8>, c: Seq<u8>, d: Seq<u8>, e: Seq<u8>)
    ensures
        a + b + c + d + e == a + (b + (c + (d + e))),
{
    assert(a + b + c + d + e =~= a + (b + (c + (d + e))));
}

proof fn lemma_key_bytes_injective(k1: RequestKey, k2: RequestKey)
    requires
        key_fits(k1),
        key_fits(k2),
        key_bytes(k1) == key_bytes(k2),
    ensures
        k1 == k2,
{
    let t1 = optional_bits_field(k1.pitch_bits) + optional_bits_field(k1.volume_bits);
    let t2 = optional_bits_field(k2.pitch_bits) + optional_bits_field(k2.volume_bits);
    let u1 = optional_bits_field(k1.speed_bits) + t1;
    let u2 = optional_bits_field(k2.speed_bits) + t2;
    let v1 = optional_text_field(k1.voice) + u1;
    let v2 = optional_text_field(k2.voice) + u2;
    lemma_regroup(
        text_field(k1.text),
        optional_text_field(k1.voice),
        optional_bits_field(k1.speed_bits),
        optional_bits_field(k1.pitch_bits),
        optional_bits_field(k1.volume_bits),
    );
    lemma_regroup(
        text_field(k2.text),
        optional_text_field(k2.voice),
        optional_bits_field(k2.speed_bits),
        optional_bits_field(k2.pitch_bits),
        optional_bits_field(k2.volume_bits),
    );
    lemma_text_field_prefix(k1.text, v1, k2.text, v2);
    lemma_optional_text_prefix(k1.voice, u1, k2.voice, u2);
    lemma_optional_bits_prefix(k1.speed_bits, t1, k2.speed_bits, t2);
    lemma_optional_bits_prefix(
        k1.pitch_bits,
        optional_bits_field(k1.volume_bits),
        k2.pitch_bits,
        optional_bits_field(k2.volume_bits),
    );
    lemma_optional_bits_prefix(k1.volume_bits, Seq::empty(), k2.volume_bits, Seq::empty());
}

proof fn lemma_hex_shape(b: Seq<u8>)
    ensures
        hex_of(b).len() == 2 * b.len(),
        forall|i: int|
            0 <= i < b.len() ==> hex_of(b)[2 * i] == hex_digit(#[trigger] b[i] >> 4u8) && hex_of(
                b,
            )[2 * i + 1] == hex_digit(b[i] & 15u8),
    decreases b.len(),
{
    if b.len() > 0 {
        lemma_hex_shape(b.drop_last());
        assert forall|i: int| 0 <= i < b.len() implies hex_of(b)[2 * i] == hex_digit(
            #[trigger] b[i] >> 4u8,
        ) && hex_of(b)[2 * i + 1] == hex_digit(b[i] & 15u8) by {
            if i < b.len() - 1 {
                assert(b.drop_last()[i] == b[i]);
            }
        }
    }
}

proof fn lemma_hex_digit_injective(x: u8, y: u8)
    requires
        x < 16,
        y < 16,
        hex_digit(x) == hex_digit(y),
    ensures
        x == y,
{
    assert((hex_digit(x) as u32) == (if x < 10 { 48 + x } else { 87 + x }));
    assert((hex_digit(y) as u32) == (if y < 10 { 48 + y } else { 87 + y }));
}

proof fn lemma_hex_injective(a: Seq<u8>, b: Seq<u8>)
    requires
        hex_of(a) == hex_of(b),
    ensures
        a == b,
{
    lemma_hex_shape(a);
    lemma_hex_shape(b);
    assert forall|i: int| 0 <= i < a.len() implies a[i] == b[i] by {
        let x = a[i];
        let y = b[i];
        assert(hex_of(a)[2 * i] == hex_of(b)[2 * i]);
        assert(hex_of(a)[2 * i + 1] == hex_of(b)[2 * i + 1]);
        assert(x >> 4u8 < 16 && y >> 4u8 < 16 && x & 15u8 < 16 && y & 15u8 < 16) by (bit_vector);
        lemma_hex_digit_injective(x >> 4u8, y >> 4u8);
        lemma_hex_digit_injective(x & 15u8, y & 15u8);
        assert(x == y) by (bit_vector)
            requires
                x >> 4u8 == y >> 4u8,
                x & 15u8 == y & 15u8,
        ;
    }
    assert(a =~= b);
}

/// Two requests get the same fingerprint exactly when their text and
/// present options are equal: equal requests share a cache entry, and
/// requests that differ in text, voice, speed, pitch or volume never do.
pub proof fn lemma_fingerprint_identifies_request(
    text1: Seq<char>,
    options1: Option<SynthesizeOptions>,
    text2: Seq<char>,
    options2: Option<SynthesizeOptions>,
)
    requires
        key_fits(request_key(text1, options1)),
        key_fits(request_key(text2, options2)),
    ensures
        fingerprint(request_key(text1, options1)) == fingerprint(request_key(text2, options2))
            <==> request_key(text1, options1) == request_key(text2, options2),
{
    let k1 = request_key(text1, options1);
    let k2 = request_key(text2, options2);
    if fingerprint(k1) == fingerprint(k2) {
        lemma_split(key_prefix(), hex_of(key_bytes(k1)), key_prefix(), hex_of(key_bytes(k2)));
        lemma_hex_injective(key_bytes(k1), key_bytes(k2));
        lemma_key_bytes_injective(k1, k2);
    }
}

/// The voice of a request: its own where it names one, else the default.
pub open spec fn voice_of(options: Option<SynthesizeOptions>, default_voice: Seq<char>) -> Seq<
    char,
> {
    match options {
        Some(o) => match o.voice {
            Some(v) => v@,
            None => default_voice,
        },
        None => default_voice,
    }
}

/// The voice to synthesise a request in.
pub fn select_voice(options: &Option<SynthesizeOptions>, default_voice: &str) -> (r: String)
    ensures
        r@ == voice_of(*options, default_voice@),
{
    match options {
        Some(o) => match &o.voice {
            Some(v) => v.clone(),
            None => default_voice.to_owned(),
        },
        None => default_voice.to_owned(),
    }
}

/// The view of an outcome.
pub open spec fn result_view(r: Result<AudioData, TTSError>) -> Result<AudioDataView, TTSError> {
    match r {
        Ok(d) => Ok(d@),
        Err(e) => Err(e),
    }
}

/// Looks a request's key up before synthesising it: a read of the cache
/// where caching is on, nothing (and no change) where it is off.
pub fn lookup_cached(cache: &mut TTSCache, cache_enabled: bool, key: &str) -> (r: Option<
    AudioData,
>)
    requires
        old(cache).wf(),
    ensures
        final(cache).wf(),
        cache_enabled ==> exists|now: u64|
            get_result(old(cache)@, final(cache)@, key@, now, opt_view(r)),
        !cache_enabled ==> r is None && final(cache)@ == old(cache)@,
{
    if cache_enabled {
        cache.get(key)
    } else {
        None
    }
}

/// What finishing a synthesis does: a failure is handed back unchanged and
/// leaves the cache as it was; a success is handed back and, where caching
/// is on, stored under the request's key.
pub open spec fn completion_result(
    c0: CacheView,
    c1: CacheView,
    cache_enabled: bool,
    key: Seq<char>,
    outcome: Result<AudioDataView, TTSError>,
    r: Result<AudioDataView, TTSError>,
) -> bool {
    &&& r == outcome
    &&& match outcome {
        Ok(d) => if cache_enabled {
            exists|now: u64| insert_result(c0, c1, key, d, now)
        } else {
            c1 == c0
        },
        Err(_) => c1 == c0,
    }
}

/// Finishes a synthesis with the outcome of the protocol (see `completion_result`).
pub fn complete_synthesis(
    cache: &mut TTSCache,
    cache_enabled: bool,
    key: String,
    outcome: Result<AudioData, TTSError>,
) -> (r: Result<AudioData, TTSError>)
    requires
        old(cache).wf(),
    ensures
        final(cache).wf(),
        completion_result(
            old(cache)@,
            final(cache)@,
            cache_enabled,
            key@,
            result_view(outcome),
            result_view(r),
        ),
{
    match outcome {
        Ok(d) => {
            if cache_enabled {
                let copy = d.duplicate();
                cache.insert(key, copy);
            }
            Ok(d)
        },
        Err(e) => Err(e),
    }
}

/// The voices the service offers.
pub open spec fn voice_names() -> Seq<Seq<char>> {
    seq![
        "Default"@,
        "Timbre1"@,
        "Timbre2"@,
        "Timbre3"@,
        "Timbre4"@,
        "Timbre5"@,
        "Timbre6"@,
        "Timbre7"@,
        "Timbre8"@,
        "Timbre9"@,
    ]
}

/// The voices the service offers, by name.
pub fn get_voices() -> (r: Vec<String>)
    ensures
        r@.map_values(|v: String| v@) == voice_names(),
{
    let mut r: Vec<String> = Vec::new();
    r.push("Default".to_owned());
    r.push("Timbre1".to_owned());
    r.push("Timbre2".to_owned());
    r.push("Timbre3".to_owned());
    r.push("Timbre4".to_owned());
    r.push("Timbre5".to_owned());
    r.push("Timbre6".to_owned());
    r.push("Timbre7".to_owned());
    r.push("Timbre8".to_owned());
    r.push("Timbre9".to_owned());
    assert(r@.map_values(|v: String| v@) =~= voice_names());
    r
}

/// Whether an HTTP status reports success: any 2xx status.
pub open spec fn status_ok(status: u16) -> bool {
    200 <= status <= 299
}

/// Whether an HTTP status reports success.
pub fn is_success_status(status: u16) -> (r: bool)
    ensures
        r == status_ok(status),
{
    200 <= status && status <= 299
}

/// What an answer's status means for the call: nothing wrong for a 2xx
/// status, else a `ServerError` with that status and the answer's body text.
pub fn answer_status(status: u16, body: String) -> (r: Result<(), TTSError>)
    ensures
        status_ok(status) ==> r is Ok,
        !status_ok(status) ==> r == Err::<(), TTSError>(
            TTSError::ServerError { status_code: status, message: body },
        ),
{
    if is_success_status(status) {
        Ok(())
    } else {
        Err(TTSError::ServerError { status_code: status, message: body })
    }
}

} // verus!
