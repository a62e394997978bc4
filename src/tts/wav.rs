//! The uncompressed audio container: a 44-byte RIFF/WAVE header followed by
//! 16-bit little-endian PCM samples.
use vstd::prelude::*;

verus! {

/// The two little-endian bytes of `v`.
pub open spec fn le16(v: u16) -> Seq<u8> {
    seq![(v & 0xff) as u8, ((v >> 8u16) & 0xff) as u8]
}

/// The four little-endian bytes of `v`.
pub open spec fn le32(v: u32) -> Seq<u8> {
    seq![
        (v & 0xff) as u8,
        ((v >> 8u32) & 0xff) as u8,
        ((v >> 16u32) & 0xff) as u8,
        ((v >> 24u32) & 0xff) as u8,
    ]
}

/// The 16-bit little-endian value stored at `at`.
pub open spec fn read16(b: Seq<u8>, at: int) -> u16 {
    ((b[at] as u16) | ((b[at + 1] as u16) << 8u16)) as u16
}

/// The 32-bit little-endian value stored at `at`.
pub open spec fn read32(b: Seq<u8>, at: int) -> u32 {
    ((b[at] as u32) | ((b[at + 1] as u32) << 8u32) | ((b[at + 2] as u32) << 16u32) | ((
    b[at + 3] as u32) << 24u32)) as u32
}

/// The bytes of a four-letter chunk tag.
pub open spec fn tag(a: char, b: char, c: char, d: char) -> Seq<u8> {
    seq![a as u8, b as u8, c as u8, d as u8]
}

/// The header that precedes `payload_len` bytes of 16-bit PCM.
pub open spec fn wav_header(payload_len: u32, sample_rate: u32, channels: u16) -> Seq<u8> {
    tag('R', 'I', 'F', 'F') + le32((36 + payload_len) as u32) + tag('W', 'A', 'V', 'E') + tag(
        'f',
        'm',
        't',
        ' ',
    ) + le32(16) + le16(1) + le16(channels) + le32(sample_rate) + le32(
        (sample_rate * channels * 2) as u32,
    ) + le16((channels * 2) as u16) + le16(16) + tag('d', 'a', 't', 'a') + le32(payload_len)
}

/// Whether a container for these values can be written with every header field in range.
pub open spec fn wav_encodable(payload_len: nat, sample_rate: u32, channels: u16) -> bool {
    &&& payload_len + 36 <= u32::MAX
    &&& sample_rate * channels * 2 <= u32::MAX
    &&& channels * 2 <= u16::MAX
}

/// The container holding `pcm` at the given sample rate and channel count.
pub open spec fn wav_bytes(pcm: Seq<u8>, sample_rate: u32, channels: u16) -> Seq<u8> {
    wav_header(pcm.len() as u32, sample_rate, channels) + pcm
}

/// What a container holds: its PCM payload, sample rate and channel count.
pub struct WavContents {
    pub pcm: Vec<u8>,
    pub sample_rate: u32,
    pub channels: u16,
}

/// Whether `b` is a well-formed container: every fixed header field has the
/// value that `wav_header` writes, and the size fields agree with the length.
pub open spec fn wav_well_formed(b: Seq<u8>) -> bool {
    &&& b.len() >= 44
    &&& b.subrange(0, 44) == wav_header(
        (b.len() - 44) as u32,
        read32(b, 24),
        read16(b, 22),
    )
    &&& wav_encodable((b.len() - 44) as nat, read32(b, 24), read16(b, 22))
}

/// The contents of a container, or `None` where it is not well formed.
pub open spec fn wav_decode(b: Seq<u8>) -> Option<(Seq<u8>, u32, u16)> {
    if wav_well_formed(b) {
        Some((b.subrange(44, b.len() as int), read32(b, 24), read16(b, 22)))
    } else {
        None
    }
}

proof fn lemma_le16_read(v: u16)
    ensures
        read16(le16(v), 0) == v,
{
    let b0 = (v & 0xff) as u8;
    let b1 = ((v >> 8u16) & 0xff) as u8;
    assert(((b0 as u16) | ((b1 as u16) << 8u16)) as u16 == v) by (bit_vector)
        requires
            b0 == (v & 0xff) as u8,
            b1 == ((v >> 8u16) & 0xff) as u8,
    ;
}

pub proof fn lemma_le32_read(v: u32)
    ensures
        read32(le32(v), 0) == v,
{
    let b0 = (v & 0xff) as u8;
    let b1 = ((v >> 8u32) & 0xff) as u8;
    let b2 = ((v >> 16u32) & 0xff) as u8;
    let b3 = ((v >> 24u32) & 0xff) as u8;
    assert(((b0 as u32) | ((b1 as u32) << 8u32) | ((b2 as u32) << 16u32) | ((b3 as u32)
        << 24u32)) as u32 == v) by (bit_vector)
        requires
            b0 == (v & 0xff) as u8,
            b1 == ((v >> 8u32) & 0xff) as u8,
            b2 == ((v >> 16u32) & 0xff) as u8,
            b3 == ((v >> 24u32) & 0xff) as u8,
    ;
}

proof fn lemma_read16_at(b: Seq<u8>, at: int, v: u16)
    requires
        0 <= at,
        at + 2 <= b.len(),
        b.subrange(at, at + 2) == le16(v),
    ensures
        read16(b, at) == v,
{
    lemma_le16_read(v);
    assert(b[at] == le16(v)[0]);
    assert(b[at + 1] == le16(v)[1]);
}

proof fn lemma_read32_at(b: Seq<u8>, at: int, v: u32)
    requires
        0 <= at,
        at + 4 <= b.len(),
        b.subrange(at, at + 4) == le32(v),
    ensures
        read32(b, at) == v,
{
    lemma_le32_read(v);
    assert(b[at] == le32(v)[0]);
    assert(b[at + 1] == le32(v)[1]);
    assert(b[at + 2] == le32(v)[2]);
    assert(b[at + 3] == le32(v)[3]);
}

/// Decoding an encoded container gives back exactly the PCM payload, sample
/// rate and channel count that were encoded.
pub proof fn lemma_wav_round_trip(pcm: Seq<u8>, sample_rate: u32, channels: u16)
    requires
        wav_encodable(pcm.len(), sample_rate, channels),
    ensures
        wav_decode(wav_bytes(pcm, sample_rate, channels)) == Some((pcm, sample_rate, channels)),
{
    let h = wav_header(pcm.len() as u32, sample_rate, channels);
    let b = wav_bytes(pcm, sample_rate, channels);
    assert(h.len() == 44);
    assert(b.subrange(22, 24) =~= le16(channels));
    assert(b.subrange(24, 28) =~= le32(sample_rate));
    lemma_read16_at(b, 22, channels);
    lemma_read32_at(b, 24, sample_rate);
    assert(b.len() == pcm.len() + 44);
    assert((b.len() - 44) as u32 == pcm.len() as u32);
    assert(b.subrange(0, 44) =~= h);
    assert(wav_well_formed(b));
    assert(b.subrange(44, b.len() as int) =~= pcm);
}

/// Every header field of an encoded container holds the value it should, at
/// its fixed offset: the tags, the sizes, the format, the channel count, the
/// sample rate, the byte rate, the block alignment and the sample width.
pub proof fn lemma_wav_header_fields(pcm: Seq<u8>, sample_rate: u32, channels: u16)
    requires
        wav_encodable(pcm.len(), sample_rate, channels),
    ensures
        ({
            let b = wav_bytes(pcm, sample_rate, channels);
            &&& b.len() == 44 + pcm.len()
            &&& b.subrange(0, 4) == tag('R', 'I', 'F', 'F')
            &&& read32(b, 4) == 36 + pcm.len()
            &&& b.subrange(8, 12) == tag('W', 'A', 'V', 'E')
            &&& b.subrange(12, 16) == tag('f', 'm', 't', ' ')
            &&& read32(b, 16) == 16
            &&& read16(b, 20) == 1
            &&& read16(b, 22) == channels
            &&& read32(b, 24) == sample_rate
            &&& read32(b, 28) == sample_rate * channels * 2
            &&& read16(b, 32) == channels * 2
            &&& read16(b, 34) == 16
            &&& b.subrange(36, 40) == tag('d', 'a', 't', 'a')
            &&& read32(b, 40) == pcm.len()
            &&& b.subrange(44, b.len() as int) == pcm
        }),
{
    let n = pcm.len() as u32;
    let b = wav_bytes(pcm, sample_rate, channels);
    assert(b.subrange(0, 4) =~= tag('R', 'I', 'F', 'F'));
    assert(b.subrange(4, 8) =~= le32((36 + n) as u32));
    assert(b.subrange(8, 12) =~= tag('W', 'A', 'V', 'E'));
    assert(b.subrange(12, 16) =~= tag('f', 'm', 't', ' '));
    assert(b.subrange(16, 20) =~= le32(16));
    assert(b.subrange(20, 22) =~= le16(1));
    assert(b.subrange(22, 24) =~= le16(channels));
    assert(b.subrange(24, 28) =~= le32(sample_rate));
    assert(b.subrange(28, 32) =~= le32((sample_rate * channels * 2) as u32));
    assert(b.subrange(32, 34) =~= le16((channels * 2) as u16));
    assert(b.subrange(34, 36) =~= le16(16));
    assert(b.subrange(36, 40) =~= tag('d', 'a', 't', 'a'));
    assert(b.subrange(40, 44) =~= le32(n));
    assert(b.subrange(44, b.len() as int) =~= pcm);
    lemma_read32_at(b, 4, (36 + n) as u32);
    lemma_read32_at(b, 16, 16);
    lemma_read16_at(b, 20, 1);
    lemma_read16_at(b, 22, channels);
    lemma_read32_at(b, 24, sample_rate);
    lemma_read32_at(b, 28, (sample_rate * channels * 2) as u32);
    lemma_read16_at(b, 32, (channels * 2) as u16);
    lemma_read16_at(b, 34, 16);
    lemma_read32_at(b, 40, n);
}

fn push_u16(out: &mut Vec<u8>, v: u16)
    ensures
        final(out)@ == old(out)@ + le16(v),
{
    out.push((v & 0xff) as u8);
    out.push(((v >> 8u16) & 0xff) as u8);
    assert(final(out)@ =~= old(out)@ + le16(v));
}

fn push_u32(out: &mut Vec<u8>, v: u32)
    ensures
        final(out)@ == old(out)@ + le32(v),
{
    out.push((v & 0xff) as u8);
    out.push(((v >> 8u32) & 0xff) as u8);
    out.push(((v >> 16u32) & 0xff) as u8);
    out.push(((v >> 24u32) & 0xff) as u8);
    assert(final(out)@ =~= old(out)@ + le32(v));
}

fn push_tag(out: &mut Vec<u8>, a: char, b: char, c: char, d: char)
    ensures
        final(out)@ == old(out)@ + tag(a, b, c, d),
{
    out.push(a as u8);
    out.push(b as u8);
    out.push(c as u8);
    out.push(d as u8);
    assert(final(out)@ =~= old(out)@ + tag(a, b, c, d));
}

/// Appends every byte of `src` to `out`.
pub fn push_all(out: &mut Vec<u8>, src: &[u8])
    ensures
        final(out)@ == old(out)@ + src@,
{
    let mut i: usize = 0;
    while i < src.len()
        invariant
            i <= src@.len(),
            out@ == old(out)@ + src@.subrange(0, i as int),
        decreases src@.len() - i,
    {
        out.push(src[i]);
        i = i + 1;
        assert(out@ =~= old(out)@ + src@.subrange(0, i as int));
    }
    assert(src@.subrange(0, i as int) =~= src@);
}

/// The header bytes for a payload of `payload_len` bytes.
fn header_bytes(payload_len: u32, sample_rate: u32, channels: u16) -> (r: Vec<u8>)
    requires
        wav_encodable(payload_len as nat, sample_rate, channels),
    ensures
        r@ == wav_header(payload_len, sample_rate, channels),
{
    let mut out: Vec<u8> = Vec::new();
    push_tag(&mut out, 'R', 'I', 'F', 'F');
    push_u32(&mut out, 36 + payload_len);
    push_tag(&mut out, 'W', 'A', 'V', 'E');
    push_tag(&mut out, 'f', 'm', 't', ' ');
    push_u32(&mut out, 16);
    push_u16(&mut out, 1);
    push_u16(&mut out, channels);
    push_u32(&mut out, sample_rate);
    push_u32(&mut out, sample_rate * channels as u32 * 2);
    push_u16(&mut out, channels * 2);
    push_u16(&mut out, 16);
    push_tag(&mut out, 'd', 'a', 't', 'a');
    push_u32(&mut out, payload_len);
    assert(out@ =~= wav_header(payload_len, sample_rate, channels));
    out
}

/// Wraps 16-bit PCM bytes into an uncompressed audio container.
pub fn create_wav_file(audio_data: &[u8], sample_rate: u32, channels: u16) -> (r: Vec<u8>)
    requires
        wav_encodable(audio_data@.len(), sample_rate, channels),
    ensures
        r@ == wav_bytes(audio_data@, sample_rate, channels),
{
    let mut out = header_bytes(audio_data.len() as u32, sample_rate, channels);
    push_all(&mut out, audio_data);
    out
}

fn read_u16_at(b: &[u8], at: usize) -> (r: u16)
    requires
        at + 2 <= b@.len(),
    ensures
        r == read16(b@, at as int),
{
    (b[at] as u16) | ((b[at + 1] as u16) << 8u16)
}

fn read_u32_at(b: &[u8], at: usize) -> (r: u32)
    requires
        at + 4 <= b@.len(),
    ensures
        r == read32(b@, at as int),
{
    (b[at] as u32) | ((b[at + 1] as u32) << 8u32) | ((b[at + 2] as u32) << 16u32) | ((b[at
        + 3] as u32) << 24u32)
}

/// Reads a container back: its payload, sample rate and channel count, or
/// `None` where the bytes are not a container that `create_wav_file` writes.
pub fn decode_wav(bytes: &[u8]) -> (r: Option<WavContents>)
    ensures
        match wav_decode(bytes@) {
            Some((pcm, rate, ch)) => r is Some && r->0.pcm@ == pcm && r->0.sample_rate == rate
                && r->0.channels == ch,
            None => r is None,
        },
{
    if bytes.len() < 44 {
        return None;
    }
    let channels = read_u16_at(bytes, 22);
    let sample_rate = read_u32_at(bytes, 24);
    proof {
        assert(sample_rate as u64 * channels as u64 <= 0xffff_ffffu64 * 0xffffu64)
            by (nonlinear_arith)
            requires
                sample_rate <= 0xffff_ffffu32,
                channels <= 0xffffu16,
        ;
    }
    if (bytes.len() - 44) as u64 + 36 > u32::MAX as u64 || sample_rate as u64 * channels as u64
        * 2 > u32::MAX as u64 || channels as u32 * 2 > u16::MAX as u32 {
        return None;
    }
    let payload_len = (bytes.len() - 44) as u32;
    let header = header_bytes(payload_len, sample_rate, channels);
    let mut j: usize = 0;
    while j < 44
        invariant
            j <= 44,
            header@.len() == 44,
            bytes@.len() >= 44,
            payload_len == bytes@.len() - 44,
            sample_rate == read32(bytes@, 24),
            channels == read16(bytes@, 22),
            header@ == wav_header(payload_len, sample_rate, channels),
            forall|m: int| 0 <= m < j ==> header@[m] == bytes@[m],
        decreases 44 - j,
    {
        if header[j] != bytes[j] {
            assert(bytes@.subrange(0, 44)[j as int] != header@[j as int]);
            assert(bytes@.subrange(0, 44) != header@);
            assert(!wav_well_formed(bytes@));
            return None;
        }
        j = j + 1;
    }
    assert(bytes@.subrange(0, 44) =~= header@);
    let mut pcm: Vec<u8> = Vec::new();
    let mut k: usize = 44;
    while k < bytes.len()
        invariant
            44 <= k <= bytes@.len(),
            pcm@ == bytes@.subrange(44, k as int),
        decreases bytes@.len() - k,
    {
        pcm.push(bytes[k]);
        k = k + 1;
        assert(pcm@ =~= bytes@.subrange(44, k as int));
    }
    Some(WavContents { pcm, sample_rate, channels })
}

} // verus!
