//! WAV files around raw PCM.

use vstd::prelude::*;

use crate::bytes;

verus! {

/// Length of the RIFF header in front of the PCM data.
pub const WAV_HEADER_BYTES: usize = 44;

/// Channels of CD audio.
pub const CHANNELS: u16 = 2;

/// Samples per second and channel of CD audio.
pub const SAMPLE_RATE: u32 = 44_100;

/// Bits per sample of CD audio.
pub const BITS_PER_SAMPLE: u16 = 16;

/// The low two bytes of `value`, least significant first.
pub open spec fn le_u16(value: int) -> Seq<u8> {
    seq![bytes::byte_at(value, 0), bytes::byte_at(value, 1)]
}

/// The low four bytes of `value`, least significant first.
pub open spec fn le_u32(value: int) -> Seq<u8> {
    seq![
        bytes::byte_at(value, 0),
        bytes::byte_at(value, 1),
        bytes::byte_at(value, 2),
        bytes::byte_at(value, 3),
    ]
}

/// RIFF header of a WAV file with `data_size` bytes of 16-bit stereo PCM at
/// 44100 Hz. The two size fields count modulo 2^32.
pub open spec fn wav_header(data_size: int) -> Seq<u8> {
    // "RIFF", size of the rest of the file, "WAVE"
    seq![0x52u8, 0x49, 0x46, 0x46] + le_u32(36 + data_size) + seq![0x57u8, 0x41, 0x56, 0x45]
    // "fmt ", size of this chunk, uncompressed PCM, channels
     + seq![0x66u8, 0x6D, 0x74, 0x20] + le_u32(16) + le_u16(1) + le_u16(2)
    // samples per second, bytes per second, bytes per sample of all channels, bits
     + le_u32(44_100) + le_u32(176_400) + le_u16(4) + le_u16(16)
    // "data", size of the PCM data
     + seq![0x64u8, 0x61, 0x74, 0x61] + le_u32(data_size)
}

fn push_u16(out: &mut Vec<u8>, value: u16)
    ensures
        final(out)@ == old(out)@ + le_u16(value as int),
{
    let bytes = bytes::be_bytes(value as u32);
    out.push(bytes[3]);
    out.push(bytes[2]);
    assert(out@ =~= old(out)@ + le_u16(value as int));
}

fn push_u32(out: &mut Vec<u8>, value: u32)
    ensures
        final(out)@ == old(out)@ + le_u32(value as int),
{
    let bytes = bytes::be_bytes(value);
    out.push(bytes[3]);
    out.push(bytes[2]);
    out.push(bytes[1]);
    out.push(bytes[0]);
    assert(out@ =~= old(out)@ + le_u32(value as int));
}

fn push_tag(out: &mut Vec<u8>, a: u8, b: u8, c: u8, d: u8)
    ensures
        final(out)@ == old(out)@ + seq![a, b, c, d],
{
    out.push(a);
    out.push(b);
    out.push(c);
    out.push(d);
    assert(out@ =~= old(out)@ + seq![a, b, c, d]);
}

/// The header depends on the low 32 bits of the size only.
proof fn lemma_header_of_low_size(data_size: int)
    requires
        0 <= data_size,
    ensures
        wav_header(data_size % 0x1_0000_0000) == wav_header(data_size),
{
    let low = data_size % 0x1_0000_0000;
    bytes::lemma_low_bytes(data_size);
    bytes::lemma_low_bytes(36 + data_size);
    bytes::lemma_low_bytes(36 + low);
    assert((36 + low) % 0x1_0000_0000 == (36 + data_size) % 0x1_0000_0000);
    assert(le_u32(low) =~= le_u32(data_size));
    assert(le_u32(36 + low) =~= le_u32(36 + data_size));
}

/// Builds the header for `data_size` bytes of PCM. See [`wav_header`].
pub fn create_wav_header(data_size: u32) -> (header: Vec<u8>)
    ensures
        header@ == wav_header(data_size as int),
{
    let mut out: Vec<u8> = Vec::new();
    let riff_size: u32 = ((36 + data_size as u64) % 0x1_0000_0000) as u32;
    push_tag(&mut out, 0x52, 0x49, 0x46, 0x46);
    push_u32(&mut out, riff_size);
    push_tag(&mut out, 0x57, 0x41, 0x56, 0x45);
    push_tag(&mut out, 0x66, 0x6D, 0x74, 0x20);
    push_u32(&mut out, 16);
    push_u16(&mut out, 1);
    push_u16(&mut out, CHANNELS);
    push_u32(&mut out, SAMPLE_RATE);
    push_u32(&mut out, SAMPLE_RATE * (CHANNELS as u32) * (BITS_PER_SAMPLE as u32 / 8));
    push_u16(&mut out, CHANNELS * (BITS_PER_SAMPLE / 8));
    push_u16(&mut out, BITS_PER_SAMPLE);
    push_tag(&mut out, 0x64, 0x61, 0x74, 0x61);
    push_u32(&mut out, data_size);
    proof {
        bytes::lemma_low_bytes(36 + data_size as int);
        assert(le_u32(riff_size as int) =~= le_u32(36 + data_size as int));
        assert(out@ =~= wav_header(data_size as int));
    }
    out
}

/// Makes a playable WAV file of raw PCM by putting the 44-byte RIFF header in
/// front of it.
pub fn create_wav(data: Vec<u8>) -> (wav: Vec<u8>)
    ensures
        wav@ == wav_header(data@.len() as int) + data@,
{
    let size: u32 = (data.len() as u64 % 0x1_0000_0000) as u32;
    let mut wav = create_wav_header(size);
    proof {
        lemma_header_of_low_size(data@.len() as int);
    }
    let mut data = data;
    wav.append(&mut data);
    wav
}

/// The number that four bytes give, least significant first.
pub open spec fn le_number(bytes: Seq<u8>) -> int {
    bytes::be_u32(bytes[3], bytes[2], bytes[1], bytes[0])
}

/// A WAV file made of PCM is the PCM behind 44 bytes: a RIFF/WAVE header that
/// announces as many bytes as there are, as far as 32 bits can, and a byte rate
/// of 75 sectors per second.
pub proof fn law_wav_is_header_and_pcm(data: Seq<u8>)
    ensures
        ({
            let wav = wav_header(data.len() as int) + data;
            &&& wav.len() == WAV_HEADER_BYTES + data.len()
            &&& wav.skip(WAV_HEADER_BYTES as int) == data
            &&& wav.subrange(0, 4) == seq![0x52u8, 0x49, 0x46, 0x46]
            &&& wav.subrange(8, 12) == seq![0x57u8, 0x41, 0x56, 0x45]
            &&& le_number(wav.subrange(28, 32)) == 75 * 2352
            &&& data.len() < 0x1_0000_0000 ==> le_number(wav.subrange(40, 44)) == data.len()
            &&& data.len() + 36 < 0x1_0000_0000 ==> le_number(wav.subrange(4, 8)) == wav.len() - 8
        }),
{
    let header = wav_header(data.len() as int);
    let wav = header + data;
    assert(header.len() == 44);
    assert(wav.skip(44) =~= data);
    assert(wav.subrange(0, 4) =~= seq![0x52u8, 0x49, 0x46, 0x46]);
    assert(wav.subrange(8, 12) =~= seq![0x57u8, 0x41, 0x56, 0x45]);
    assert(wav.subrange(28, 32) =~= le_u32(176_400));
    assert(wav.subrange(40, 44) =~= le_u32(data.len() as int));
    assert(wav.subrange(4, 8) =~= le_u32(36 + data.len() as int));
    bytes::law_bytes_give_the_number_back(176_400);
    if data.len() < 0x1_0000_0000 {
        bytes::law_bytes_give_the_number_back(data.len() as u32);
    }
    if data.len() + 36 < 0x1_0000_0000 {
        bytes::law_bytes_give_the_number_back((36 + data.len()) as u32);
    }
}

} // verus!
