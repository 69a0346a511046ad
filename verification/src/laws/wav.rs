//! WAV files.

use vstd::prelude::*;

use crate::bytes;
use crate::reader::CdReader;
use crate::wav;

verus! {

/// The number in the two bytes of `file` from `at` on, least significant first.
pub open spec fn short_at(file: Seq<u8>, at: int) -> int {
    file[at] + 0x100 * file[at + 1]
}

/// The number in the four bytes of `file` from `at` on, least significant first.
pub open spec fn long_at(file: Seq<u8>, at: int) -> int {
    file[at] + 0x100 * file[at + 1] + 0x1_0000 * file[at + 2] + 0x100_0000 * file[at + 3]
}

/// Whether `file` starts like a WAV file with `size` bytes of uncompressed 16-bit
/// stereo PCM at 44100 samples per second. The two sizes, of what follows the first of
/// them and of the PCM, count modulo 2^32.
pub open spec fn starts_as_wav(file: Seq<u8>, size: int) -> bool {
    let channels = short_at(file, 22);
    let rate = long_at(file, 24);
    let bits = short_at(file, 34);
    &&& file.len() >= 44
    // "RIFF", size, "WAVE"
    &&& file[0] == 0x52 && file[1] == 0x49 && file[2] == 0x46 && file[3] == 0x46
    &&& long_at(file, 4) == (36 + size) % 0x1_0000_0000
    &&& file[8] == 0x57 && file[9] == 0x41 && file[10] == 0x56 && file[11] == 0x45
    // "fmt ", size, format
    &&& file[12] == 0x66 && file[13] == 0x6D && file[14] == 0x74 && file[15] == 0x20
    &&& long_at(file, 16) == 16
    &&& short_at(file, 20) == 1
    // kind of samples
    &&& channels == 2
    &&& rate == 44_100
    &&& bits == 16
    &&& long_at(file, 28) == rate * channels * bits / 8
    &&& long_at(file, 28) == 75 * 2352
    &&& short_at(file, 32) == channels * bits / 8
    // "data", size
    &&& file[36] == 0x64 && file[37] == 0x61 && file[38] == 0x74 && file[39] == 0x61
    &&& long_at(file, 40) == size % 0x1_0000_0000
}

proof fn lemma_header_starts_as_wav(file: Seq<u8>, size: int)
    requires
        0 <= size,
        file.len() >= 44,
        file.take(44) == wav::wav_header(size),
    ensures
        starts_as_wav(file, size),
{
    let header = wav::wav_header(size);
    assert(header.len() == 44);
    assert forall|i: int| 0 <= i < 44 implies #[trigger] file[i] == header[i] by {
        assert(file.take(44)[i] == file[i]);
    }
    lemma_low_long(36 + size);
    lemma_low_long(size);
    lemma_long_in_header(file, header, 4, wav::le_u32(36 + size));
    lemma_long_in_header(file, header, 40, wav::le_u32(size));
    lemma_long_in_header(file, header, 16, wav::le_u32(16));
    lemma_long_in_header(file, header, 24, wav::le_u32(44_100));
    lemma_long_in_header(file, header, 28, wav::le_u32(176_400));
    assert(file[20] == 1 && file[21] == 0);
    assert(file[22] == 2 && file[23] == 0);
    assert(file[32] == 4 && file[33] == 0);
    assert(file[34] == 16 && file[35] == 0);
}

proof fn lemma_long_in_header(file: Seq<u8>, header: Seq<u8>, at: int, bytes: Seq<u8>)
    requires
        0 <= at <= 40,
        header.len() == 44,
        file.len() >= 44,
        forall|i: int| 0 <= i < 44 ==> #[trigger] file[i] == header[i],
        bytes.len() == 4,
        header[at] == bytes[0],
        header[at + 1] == bytes[1],
        header[at + 2] == bytes[2],
        header[at + 3] == bytes[3],
    ensures
        long_at(file, at) == long_at(bytes, 0),
{
    assert(file[at] == bytes[0]);
    assert(file[at + 1] == bytes[1]);
    assert(file[at + 2] == bytes[2]);
    assert(file[at + 3] == bytes[3]);
}

proof fn lemma_low_long(value: int)
    requires
        0 <= value,
    ensures
        long_at(wav::le_u32(value), 0) == value % 0x1_0000_0000,
{
    let low = value % 0x1_0000_0000;
    bytes::lemma_low_bytes(value);
    bytes::law_bytes_give_the_number_back(low as u32);
    let b = wav::le_u32(value);
    assert(b[0] == bytes::byte_at(low, 0));
    assert(b[1] == bytes::byte_at(low, 1));
    assert(b[2] == bytes::byte_at(low, 2));
    assert(b[3] == bytes::byte_at(low, 3));
}

/// A WAV file made of PCM of any length is a header of 44 bytes, which says what the
/// PCM is, and the PCM behind it, byte for byte.
pub proof fn law_wav_file_holds_the_pcm(pcm: Vec<u8>, file: Vec<u8>)
    requires
        call_ensures(wav::create_wav, (pcm,), file) || call_ensures(
            CdReader::create_wav,
            (pcm,),
            file,
        ),
    ensures
        file@.len() == 44 + pcm@.len(),
        file@.skip(44) == pcm@,
        starts_as_wav(file@, pcm@.len() as int),
{
    let header = wav::wav_header(pcm@.len() as int);
    assert(header.len() == 44);
    assert(file@.skip(44) =~= pcm@);
    assert(file@.take(44) =~= header);
    lemma_header_starts_as_wav(file@, pcm@.len() as int);
}

/// The header alone is these 44 bytes.
pub proof fn law_wav_header_describes_the_pcm(size: u32, header: Vec<u8>)
    requires
        call_ensures(wav::create_wav_header, (size,), header),
    ensures
        header@.len() == 44,
        starts_as_wav(header@, size as int),
{
    assert(wav::wav_header(size as int).len() == 44);
    assert(header@.take(44) =~= header@);
    lemma_header_starts_as_wav(header@, size as int);
}

} // verus!
