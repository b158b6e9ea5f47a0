//! Serialisation and integer summaries of offline renders: the IEEE-float mono
//! WAV container, the FNV-1a 64 fingerprint of a block, and its zero-crossing
//! count.
//!
//! Samples enter as their IEEE-754 bit patterns (`f32::to_bits`), which is
//! exactly what the container stores and what the fingerprint hashes.

use vstd::prelude::*;
use vstd::bytes::{
    spec_u16_from_le_bytes, spec_u16_to_le_bytes, spec_u32_from_le_bytes, spec_u32_to_le_bytes,
    u16_to_le_bytes, u32_to_le_bytes, lemma_auto_spec_u16_to_from_le_bytes,
    lemma_auto_spec_u32_to_from_le_bytes,
};

verus! {

// ---------------------------------------------------------------------------
// Little-endian sample bytes
// ---------------------------------------------------------------------------

/// The little-endian bytes of a sequence of 32-bit words, word after word.
pub open spec fn le_words(words: Seq<u32>) -> Seq<u8>
    decreases words.len(),
{
    if words.len() == 0 {
        Seq::empty()
    } else {
        le_words(words.drop_last()) + spec_u32_to_le_bytes(words.last())
    }
}

/// Each word contributes exactly four bytes.
pub proof fn lemma_le_words_len(words: Seq<u32>)
    ensures
        le_words(words).len() == 4 * words.len(),
    decreases words.len(),
{
    lemma_auto_spec_u32_to_from_le_bytes();
    if words.len() > 0 {
        lemma_le_words_len(words.drop_last());
    }
}

/// The bytes of the word at position `i` stand at offsets `4i .. 4i + 4`.
pub proof fn lemma_le_words_index(words: Seq<u32>, i: int)
    requires
        0 <= i < words.len(),
    ensures
        le_words(words).subrange(4 * i, 4 * i + 4) == spec_u32_to_le_bytes(words[i]),
    decreases words.len(),
{
    lemma_auto_spec_u32_to_from_le_bytes();
    lemma_le_words_len(words);
    let init = words.drop_last();
    lemma_le_words_len(init);
    if i == words.len() - 1 {
        assert(le_words(words).subrange(4 * i, 4 * i + 4) =~= spec_u32_to_le_bytes(words[i]));
    } else {
        lemma_le_words_index(init, i);
        assert(le_words(words).subrange(4 * i, 4 * i + 4)
            =~= le_words(init).subrange(4 * i, 4 * i + 4));
    }
}

/// The samples' bytes as a little-endian stream.
pub fn little_endian_bytes(words: &[u32]) -> (res: Vec<u8>)
    ensures
        res@ == le_words(words@),
{
    let mut out: Vec<u8> = Vec::new();
    let mut i: usize = 0;
    while i < words.len()
        invariant
            i <= words.len(),
            out@ == le_words(words@.take(i as int)),
        decreases words.len() - i,
    {
        let mut bytes = u32_to_le_bytes(words[i]);
        out.append(&mut bytes);
        assert(words@.take(i + 1).drop_last() =~= words@.take(i as int));
        i = i + 1;
    }
    assert(words@.take(words.len() as int) =~= words@);
    out
}

// ---------------------------------------------------------------------------
// FNV-1a 64
// ---------------------------------------------------------------------------

/// FNV-1a 64 offset basis.
pub const FNV1A64_OFFSET_BASIS: u64 = 0xcbf2_9ce4_8422_2325;

/// FNV-1a 64 prime.
pub const FNV1A64_PRIME: u64 = 0x0000_0100_0000_01b3;

/// One FNV-1a step: xor the byte in, then multiply by the prime modulo 2^64.
pub open spec fn fnv1a64_step(hash: u64, byte: u8) -> u64 {
    vstd::wrapping::u64_specs::wrapping_mul(hash ^ (byte as u64), FNV1A64_PRIME)
}

/// FNV-1a 64 of a byte sequence: the offset basis folded with every byte in order.
pub open spec fn spec_fnv1a64(bytes: Seq<u8>) -> u64
    decreases bytes.len(),
{
    if bytes.len() == 0 {
        FNV1A64_OFFSET_BASIS
    } else {
        fnv1a64_step(spec_fnv1a64(bytes.drop_last()), bytes.last())
    }
}

/// The FNV-1a 64 fingerprint of a byte stream.
pub fn fnv1a64(bytes: &[u8]) -> (res: u64)
    ensures
        res == spec_fnv1a64(bytes@),
{
    let mut hash: u64 = FNV1A64_OFFSET_BASIS;
    let mut i: usize = 0;
    while i < bytes.len()
        invariant
            i <= bytes.len(),
            hash == spec_fnv1a64(bytes@.take(i as int)),
        decreases bytes.len() - i,
    {
        hash ^= bytes[i] as u64;
        hash = hash.wrapping_mul(FNV1A64_PRIME);
        assert(bytes@.take(i + 1).drop_last() =~= bytes@.take(i as int));
        i = i + 1;
    }
    assert(bytes@.take(bytes.len() as int) =~= bytes@);
    hash
}

/// Hashing one more byte: the byte's unsigned value (0 to 255) is xored into
/// the hash of the bytes before it, and the result multiplied by the FNV
/// prime modulo 2^64. Undoing the multiplication shows that the xor touched
/// only the low eight bits of the previous hash.
pub proof fn lemma_fnv1a64_appends_byte(bytes: Seq<u8>, byte: u8)
    ensures
        spec_fnv1a64(bytes.push(byte)) == (((spec_fnv1a64(bytes) ^ (byte as u64)) as nat
            * 0x0000_0100_0000_01b3nat) % 0x1_0000_0000_0000_0000nat) as u64,
        ((spec_fnv1a64(bytes.push(byte)) as nat * 0xce96_5057_aff6_957bnat)
            % 0x1_0000_0000_0000_0000nat) as u64 ^ spec_fnv1a64(bytes) == byte as u64,
{
    assert(bytes.push(byte).drop_last() =~= bytes);
    let h = spec_fnv1a64(bytes);
    let b = byte as u64;
    assert(b < 256);
    assert(((((((h ^ b) as nat * 0x0000_0100_0000_01b3nat) % 0x1_0000_0000_0000_0000nat) as u64)
        as nat * 0xce96_5057_aff6_957bnat) % 0x1_0000_0000_0000_0000nat) as u64 ^ h == b)
        by (bit_vector);
}

/// Reference vectors of FNV-1a 64: the empty input gives the offset basis, a
/// single `0xff` byte gives `0xaf64724c8602eb6e`, and the bytes of the float
/// `-0.5` (`00 00 00 bf`) give `0x4d24c77f9dccea98`.
pub proof fn lemma_fnv1a64_reference_vectors()
    ensures
        spec_fnv1a64(Seq::empty()) == 0xcbf2_9ce4_8422_2325u64,
        spec_fnv1a64(seq![0xffu8]) == 0xaf64_724c_8602_eb6eu64,
        spec_fnv1a64(seq![0x00u8, 0x00u8, 0x00u8, 0xbfu8]) == 0x4d24_c77f_9dcc_ea98u64,
{
    let e = Seq::<u8>::empty();
    lemma_fnv1a64_appends_byte(e, 0xff);
    assert(e.push(0xff) =~= seq![0xffu8]);
    lemma_fnv1a64_appends_byte(e, 0x00);
    let s1 = e.push(0x00);
    lemma_fnv1a64_appends_byte(s1, 0x00);
    let s2 = s1.push(0x00);
    lemma_fnv1a64_appends_byte(s2, 0x00);
    let s3 = s2.push(0x00);
    lemma_fnv1a64_appends_byte(s3, 0xbf);
    assert(s3.push(0xbf) =~= seq![0x00u8, 0x00u8, 0x00u8, 0xbfu8]);
    assert((((0xcbf2_9ce4_8422_2325u64 ^ 0xffu64) as nat * 0x0000_0100_0000_01b3nat)
        % 0x1_0000_0000_0000_0000nat) as u64 == 0xaf64_724c_8602_eb6eu64) by (bit_vector);
    let h1 = (((0xcbf2_9ce4_8422_2325u64 ^ 0u64) as nat * 0x0000_0100_0000_01b3nat)
        % 0x1_0000_0000_0000_0000nat) as u64;
    let h2 = (((h1 ^ 0u64) as nat * 0x0000_0100_0000_01b3nat) % 0x1_0000_0000_0000_0000nat) as u64;
    let h3 = (((h2 ^ 0u64) as nat * 0x0000_0100_0000_01b3nat) % 0x1_0000_0000_0000_0000nat) as u64;
    let h4 = (((h3 ^ 0xbfu64) as nat * 0x0000_0100_0000_01b3nat) % 0x1_0000_0000_0000_0000nat) as u64;
    assert(h4 == 0x4d24_c77f_9dcc_ea98u64) by (bit_vector)
        requires
            h1 == (((0xcbf2_9ce4_8422_2325u64 ^ 0u64) as nat * 0x0000_0100_0000_01b3nat)
                % 0x1_0000_0000_0000_0000nat) as u64,
            h2 == (((h1 ^ 0u64) as nat * 0x0000_0100_0000_01b3nat) % 0x1_0000_0000_0000_0000nat) as u64,
            h3 == (((h2 ^ 0u64) as nat * 0x0000_0100_0000_01b3nat) % 0x1_0000_0000_0000_0000nat) as u64,
            h4 == (((h3 ^ 0xbfu64) as nat * 0x0000_0100_0000_01b3nat) % 0x1_0000_0000_0000_0000nat) as u64;
}

// ---------------------------------------------------------------------------
// Zero crossings
// ---------------------------------------------------------------------------

/// Number of adjacent pairs whose signs differ, given for each sample whether
/// it is negative.
pub open spec fn spec_sign_changes(negative: Seq<bool>) -> nat
    decreases negative.len(),
{
    if negative.len() < 2 {
        0
    } else {
        spec_sign_changes(negative.drop_last()) + if negative[negative.len() - 2]
            != negative.last() {
            1nat
        } else {
            0nat
        }
    }
}

/// Counts the zero crossings of a block: the adjacent pairs of which exactly
/// one sample is negative.
pub fn count_sign_changes(negative: &[bool]) -> (res: usize)
    ensures
        res == spec_sign_changes(negative@),
        res < negative.len() || res == 0,
{
    let mut count: usize = 0;
    let mut i: usize = 1;
    if negative.len() < 2 {
        return 0;
    }
    while i < negative.len()
        invariant
            1 <= i <= negative.len(),
            count == spec_sign_changes(negative@.take(i as int)),
            count < i,
        decreases negative.len() - i,
    {
        assert(negative@.take(i + 1).drop_last() =~= negative@.take(i as int));
        if negative[i - 1] != negative[i] {
            count = count + 1;
        }
        i = i + 1;
    }
    assert(negative@.take(negative.len() as int) =~= negative@);
    count
}

/// Zero crossings add up over a concatenation: those inside each part, plus
/// one more where the last sample of the first part and the first sample of
/// the second differ in sign. So every adjacent pair counts once, wherever it
/// stands.
pub proof fn lemma_sign_changes_concat(s: Seq<bool>, t: Seq<bool>)
    ensures
        spec_sign_changes(s + t) == spec_sign_changes(s) + spec_sign_changes(t) + if s.len() > 0
            && t.len() > 0 && s.last() != t[0] {
            1nat
        } else {
            0nat
        },
    decreases t.len(),
{
    if t.len() == 0 {
        assert(s + t =~= s);
    } else if t.len() == 1 {
        assert((s + t).drop_last() =~= s);
        if s.len() == 0 {
            assert(s + t =~= t);
        }
    } else {
        let u = t.drop_last();
        lemma_sign_changes_concat(s, u);
        assert((s + t).drop_last() =~= s + u);
        assert((s + t)[(s + t).len() - 2] == t[t.len() - 2]);
        assert(u[0] == t[0]);
    }
}

/// A pair of samples crosses zero exactly when their signs differ.
pub proof fn lemma_sign_changes_pair(a: bool, b: bool)
    ensures
        spec_sign_changes(seq![a, b]) == if a != b { 1nat } else { 0nat },
{
    let p = seq![a, b];
    assert(p.drop_last() =~= seq![a]);
    assert(spec_sign_changes(seq![a]) == 0);
    assert(p[p.len() - 2] == a && p.last() == b);
}

// ---------------------------------------------------------------------------
// IEEE-float mono WAV
// ---------------------------------------------------------------------------

/// Largest sample count whose container sizes fit the 32-bit RIFF fields.
pub open spec fn wav_fits(sample_count: nat) -> bool {
    48 + 4 * sample_count <= u32::MAX
}

/// The ASCII bytes of a four-character chunk tag.
pub open spec fn tag(a: u8, b: u8, c: u8, d: u8) -> Seq<u8> {
    seq![a, b, c, d]
}

/// The 56-byte header of a mono IEEE-float (format 3) 32-bit WAV with a
/// `fact` chunk, for `sample_count` samples at `sample_rate` Hz.
pub open spec fn wav_header(sample_rate: u32, sample_count: nat) -> Seq<u8> {
    let data_len = (4 * sample_count) as u32;
    tag(0x52, 0x49, 0x46, 0x46) // "RIFF"
    + spec_u32_to_le_bytes((48 + 4 * sample_count) as u32)
    + tag(0x57, 0x41, 0x56, 0x45) // "WAVE"
    + tag(0x66, 0x6d, 0x74, 0x20) // "fmt "
    + spec_u32_to_le_bytes(16)
    + spec_u16_to_le_bytes(3) // WAVE_FORMAT_IEEE_FLOAT
    + spec_u16_to_le_bytes(1) // mono
    + spec_u32_to_le_bytes(sample_rate)
    + spec_u32_to_le_bytes((sample_rate * 4) as u32) // byte rate
    + spec_u16_to_le_bytes(4) // block align
    + spec_u16_to_le_bytes(32) // bits per sample
    + tag(0x66, 0x61, 0x63, 0x74) // "fact"
    + spec_u32_to_le_bytes(4)
    + spec_u32_to_le_bytes(sample_count as u32)
    + tag(0x64, 0x61, 0x74, 0x61) // "data"
    + spec_u32_to_le_bytes(data_len)
}

fn push_tag(out: &mut Vec<u8>, a: u8, b: u8, c: u8, d: u8)
    ensures
        final(out)@ == old(out)@ + tag(a, b, c, d),
{
    out.push(a);
    out.push(b);
    out.push(c);
    out.push(d);
    assert(final(out)@ =~= old(out)@ + tag(a, b, c, d));
}

fn push_u32(out: &mut Vec<u8>, x: u32)
    ensures
        final(out)@ == old(out)@ + spec_u32_to_le_bytes(x),
{
    let mut bytes = u32_to_le_bytes(x);
    out.append(&mut bytes);
}

fn push_u16(out: &mut Vec<u8>, x: u16)
    ensures
        final(out)@ == old(out)@ + spec_u16_to_le_bytes(x),
{
    let mut bytes = u16_to_le_bytes(x);
    out.append(&mut bytes);
}

/// Encodes a mono IEEE-float WAV of the given samples (as bit patterns), so
/// that the DSP output is stored without quantisation.
pub fn encode_float_wav(sample_rate: u32, sample_bits: &[u32]) -> (res: Vec<u8>)
    requires
        wav_fits(sample_bits.len() as nat),
        sample_rate * 4 <= u32::MAX,
    ensures
        res@ == wav_header(sample_rate, sample_bits.len() as nat) + le_words(sample_bits@),
{
    let data_len: u32 = (sample_bits.len() * 4) as u32;
    let sample_count: u32 = sample_bits.len() as u32;
    let mut wav: Vec<u8> = Vec::new();
    push_tag(&mut wav, 0x52, 0x49, 0x46, 0x46);
    push_u32(&mut wav, 48 + data_len);
    push_tag(&mut wav, 0x57, 0x41, 0x56, 0x45);
    push_tag(&mut wav, 0x66, 0x6d, 0x74, 0x20);
    push_u32(&mut wav, 16);
    push_u16(&mut wav, 3);
    push_u16(&mut wav, 1);
    push_u32(&mut wav, sample_rate);
    push_u32(&mut wav, sample_rate * 4);
    push_u16(&mut wav, 4);
    push_u16(&mut wav, 32);
    push_tag(&mut wav, 0x66, 0x61, 0x63, 0x74);
    push_u32(&mut wav, 4);
    push_u32(&mut wav, sample_count);
    push_tag(&mut wav, 0x64, 0x61, 0x74, 0x61);
    push_u32(&mut wav, data_len);
    assert(wav@ =~= wav_header(sample_rate, sample_bits.len() as nat));
    let mut samples = little_endian_bytes(sample_bits);
    wav.append(&mut samples);
    wav
}

/// The little-endian 32-bit value at byte offset `at`.
pub open spec fn le_u32_at(bytes: Seq<u8>, at: int) -> u32 {
    spec_u32_from_le_bytes(bytes.subrange(at, at + 4))
}

/// The little-endian 16-bit value at byte offset `at`.
pub open spec fn le_u16_at(bytes: Seq<u8>, at: int) -> u16 {
    spec_u16_from_le_bytes(bytes.subrange(at, at + 2))
}

/// Reading an encoded WAV back gives what was written: its length, the RIFF
/// size (length minus 8), the chunk tags, the IEEE-float mono format with
/// 4-byte frames of 32 bits, the sample rate and byte rate, the sample count
/// in `fact`, the data size, and every sample's bit pattern in order.
pub proof fn lemma_wav_reads_back(sample_rate: u32, samples: Seq<u32>)
    requires
        wav_fits(samples.len()),
        sample_rate * 4 <= u32::MAX,
    ensures
        ({
            let w = wav_header(sample_rate, samples.len()) + le_words(samples);
            &&& w.len() == 56 + 4 * samples.len()
            &&& w.subrange(0, 4) == tag(0x52, 0x49, 0x46, 0x46)
            &&& le_u32_at(w, 4) == w.len() - 8
            &&& w.subrange(8, 12) == tag(0x57, 0x41, 0x56, 0x45)
            &&& w.subrange(12, 16) == tag(0x66, 0x6d, 0x74, 0x20)
            &&& le_u32_at(w, 16) == 16
            &&& le_u16_at(w, 20) == 3
            &&& le_u16_at(w, 22) == 1
            &&& le_u32_at(w, 24) == sample_rate
            &&& le_u32_at(w, 28) == sample_rate * 4
            &&& le_u16_at(w, 32) == 4
            &&& le_u16_at(w, 34) == 32
            &&& w.subrange(36, 40) == tag(0x66, 0x61, 0x63, 0x74)
            &&& le_u32_at(w, 40) == 4
            &&& le_u32_at(w, 44) == samples.len()
            &&& w.subrange(48, 52) == tag(0x64, 0x61, 0x74, 0x61)
            &&& le_u32_at(w, 52) == 4 * samples.len()
            &&& forall|i: int| 0 <= i < samples.len() ==> #[trigger] le_u32_at(w, 56 + 4 * i)
                == samples[i]
        }),
{
    lemma_auto_spec_u32_to_from_le_bytes();
    lemma_auto_spec_u16_to_from_le_bytes();
    lemma_le_words_len(samples);
    let n = samples.len();
    let h = wav_header(sample_rate, n);
    let body = le_words(samples);
    let w = h + body;
    assert(h.len() == 56);
    assert(w.subrange(4, 8) =~= spec_u32_to_le_bytes((48 + 4 * n) as u32));
    assert(w.subrange(16, 20) =~= spec_u32_to_le_bytes(16));
    assert(w.subrange(20, 22) =~= spec_u16_to_le_bytes(3));
    assert(w.subrange(22, 24) =~= spec_u16_to_le_bytes(1));
    assert(w.subrange(24, 28) =~= spec_u32_to_le_bytes(sample_rate));
    assert(w.subrange(28, 32) =~= spec_u32_to_le_bytes((sample_rate * 4) as u32));
    assert(w.subrange(32, 34) =~= spec_u16_to_le_bytes(4));
    assert(w.subrange(34, 36) =~= spec_u16_to_le_bytes(32));
    assert(w.subrange(40, 44) =~= spec_u32_to_le_bytes(4));
    assert(w.subrange(44, 48) =~= spec_u32_to_le_bytes(n as u32));
    assert(w.subrange(52, 56) =~= spec_u32_to_le_bytes((4 * n) as u32));
    assert(w.subrange(0, 4) =~= tag(0x52, 0x49, 0x46, 0x46));
    assert(w.subrange(8, 12) =~= tag(0x57, 0x41, 0x56, 0x45));
    assert(w.subrange(12, 16) =~= tag(0x66, 0x6d, 0x74, 0x20));
    assert(w.subrange(36, 40) =~= tag(0x66, 0x61, 0x63, 0x74));
    assert(w.subrange(48, 52) =~= tag(0x64, 0x61, 0x74, 0x61));
    assert forall|i: int| 0 <= i < samples.len() implies #[trigger] le_u32_at(w, 56 + 4 * i)
        == samples[i] by {
        lemma_le_words_index(samples, i);
        assert(w.subrange(56 + 4 * i, 56 + 4 * i + 4) =~= body.subrange(4 * i, 4 * i + 4));
    }
}

} // verus!
