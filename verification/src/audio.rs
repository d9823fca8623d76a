//! The playing time of MP3 data.

use vstd::prelude::*;
use crate::span::Span;
use crate::voice::{VoiceError, VoiceErrorModel};

verus! {

/// Whether the four bytes from position `i` on spell `Xing` or `Info`, the
/// marks in front of a frame count.
pub open spec fn count_mark_at(bytes: Seq<u8>, i: int) -> bool {
    ||| bytes[i] == 0x58 && bytes[i + 1] == 0x69 && bytes[i + 2] == 0x6e && bytes[i + 3] == 0x67
    ||| bytes[i] == 0x49 && bytes[i + 1] == 0x6e && bytes[i + 2] == 0x66 && bytes[i + 3] == 0x6f
}

/// Whether the eight bytes from position `i` on spell `APETAGEX`, the mark
/// in front of a tag's size.
pub open spec fn tag_mark_at(bytes: Seq<u8>, i: int) -> bool {
    &&& bytes[i] == 0x41 && bytes[i + 1] == 0x50 && bytes[i + 2] == 0x45 && bytes[i + 3] == 0x54
    &&& bytes[i + 4] == 0x41 && bytes[i + 5] == 0x47 && bytes[i + 6] == 0x45 && bytes[i + 7]
        == 0x58
}

/// The size that a tag marked at position `i` declares: four bytes, the
/// lowest first, twelve bytes behind the start of the mark.
pub open spec fn declared_tag_size(bytes: Seq<u8>, i: int) -> nat {
    (bytes[i + 12] as nat) + (bytes[i + 13] as nat) * 0x100 + (bytes[i + 14] as nat) * 0x1_0000 + (
    bytes[i + 15] as nat) * 0x100_0000
}

/// Whether the two bytes from position `j` on start a frame: eleven bits
/// that are all set.
pub open spec fn frame_starts_at(bytes: Seq<u8>, j: int) -> bool {
    0 <= j && j + 2 <= bytes.len() && bytes[j] == 0xff && bytes[j + 1] >= 0xe0
}

/// Whether position `i` is one where a frame keeps its count mark: behind
/// the four bytes of a frame's header and the 9, 17 or 32 bytes that
/// follow them.
pub open spec fn behind_frame_start(bytes: Seq<u8>, i: int) -> bool {
    ||| frame_starts_at(bytes, i - 13)
    ||| frame_starts_at(bytes, i - 21)
    ||| frame_starts_at(bytes, i - 36)
}

/// Whether position `i` holds a frame count that is too large to work
/// with: a count mark where a frame keeps it, flagged as followed by a
/// count, and a count of 2^23 or more.
pub open spec fn oversized_count_at(bytes: Seq<u8>, i: int) -> bool {
    &&& i + 12 <= bytes.len()
    &&& count_mark_at(bytes, i)
    &&& behind_frame_start(bytes, i)
    &&& bytes[i + 7] % 2 == 1
    &&& (bytes[i + 8] != 0 || bytes[i + 9] >= 0x80)
}

/// Whether position `i` holds a tag size that is too large to work with:
/// behind a tag mark, a size that with 16 added is no machine-sized number.
pub open spec fn oversized_tag_at(bytes: Seq<u8>, i: int) -> bool {
    i + 16 <= bytes.len() && tag_mark_at(bytes, i) && declared_tag_size(bytes, i) + 16 > usize::MAX
}

/// Whether position `i` holds a number that is too large to work with.
pub open spec fn oversized_at(bytes: Seq<u8>, i: int) -> bool {
    oversized_count_at(bytes, i) || oversized_tag_at(bytes, i)
}

/// Whether the length of the data can be measured: it holds no oversized
/// number at any position.
pub open spec fn measurable(bytes: Seq<u8>) -> bool {
    forall|i: int| 0 <= i < bytes.len() ==> !oversized_at(bytes, i)
}

/// What measuring MP3 data gives: the whole seconds and the nanoseconds
/// beyond them, or the description of what is wrong with the data.
pub uninterp spec fn mp3_measured(bytes: Seq<u8>) -> Result<(u64, u32), Seq<char>>;

/// The view of what measuring gave.
pub open spec fn measured_view(measured: Result<(u64, u32), String>) -> Result<
    (u64, u32),
    Seq<char>,
> {
    match measured {
        Ok(parts) => Ok(parts),
        Err(message) => Err(message@),
    }
}

/// `mp3_duration::from_read` on a cursor over the bytes. It reads the frame
/// headers one after the other and adds up the frames' lengths, or takes
/// the length from the frame count where the first frame holds one; data
/// that it cannot follow gives an error, handed on in its debug form. The
/// outcome depends on the bytes alone. Left out are the data on which its
/// arithmetic leaves the machine's numbers: a frame count of 2^23 or more
/// (which it reads behind a frame's header, 9, 17 or 32 further bytes and
/// the mark `Xing` or `Info`, where the lowest bit of the fourth byte
/// behind the mark is set), and the size of an `APETAGEX` tag that does not
/// fit with 16 added.
#[verifier::external_body]
fn measure(bytes: &[u8]) -> (out: Result<(u64, u32), String>)
    requires
        measurable(bytes@),
    ensures
        measured_view(out) == mp3_measured(bytes@),
{
    match mp3_duration::from_read(&mut std::io::Cursor::new(bytes)) {
        Ok(length) => Ok((length.as_secs(), length.subsec_nanos())),
        Err(error) => Err(format!("{error:?}")),
    }
}

/// Whether a frame starts at position `j` of the data.
pub fn starts_frame(bytes: &[u8], j: usize) -> (out: bool)
    ensures
        out == frame_starts_at(bytes@, j as int),
{
    j < bytes.len() && bytes.len() - j >= 2 && bytes[j] == 0xff && bytes[j + 1] >= 0xe0
}

/// Whether position `i` of the data holds an oversized number.
pub fn is_oversized_at(bytes: &[u8], i: usize) -> (out: bool)
    requires
        i < bytes.len(),
    ensures
        out == oversized_at(bytes@, i as int),
{
    let left: usize = bytes.len() - i;
    if left >= 12 {
        let xing = bytes[i] == 0x58 && bytes[i + 1] == 0x69 && bytes[i + 2] == 0x6e && bytes[i + 3]
            == 0x67;
        let info = bytes[i] == 0x49 && bytes[i + 1] == 0x6e && bytes[i + 2] == 0x66 && bytes[i + 3]
            == 0x6f;
        let framed = (i >= 13 && starts_frame(bytes, i - 13)) || (i >= 21 && starts_frame(
            bytes,
            i - 21,
        )) || (i >= 36 && starts_frame(bytes, i - 36));
        let counted = bytes[i + 7] % 2 == 1;
        if (xing || info) && framed && counted && (bytes[i + 8] != 0 || bytes[i + 9] >= 0x80) {
            return true;
        }
    }
    if left >= 16 {
        let marked = bytes[i] == 0x41 && bytes[i + 1] == 0x50 && bytes[i + 2] == 0x45 && bytes[i
            + 3] == 0x54 && bytes[i + 4] == 0x41 && bytes[i + 5] == 0x47 && bytes[i + 6] == 0x45
            && bytes[i + 7] == 0x58;
        if marked {
            let size: u64 = (bytes[i + 12] as u64) + (bytes[i + 13] as u64) * 0x100 + (bytes[i
                + 14] as u64) * 0x1_0000 + (bytes[i + 15] as u64) * 0x100_0000;
            if size + 16 > usize::MAX as u64 {
                return true;
            }
        }
    }
    false
}

/// Whether the length of the data can be measured.
pub fn is_measurable(bytes: &[u8]) -> (out: bool)
    ensures
        out == measurable(bytes@),
{
    let mut i: usize = 0;
    while i < bytes.len()
        invariant
            i <= bytes.len(),
            forall|k: int| 0 <= k < i ==> !oversized_at(bytes@, k),
        decreases bytes.len() - i,
    {
        if is_oversized_at(bytes, i) {
            return false;
        }
        i += 1;
    }
    true
}

/// The length that measuring gave, or the error that stands for its
/// failure.
pub open spec fn measured_length(measured: Result<(u64, u32), Seq<char>>) -> Result<
    nat,
    VoiceErrorModel,
> {
    match measured {
        Ok(parts) => Ok((parts.0 as nat) * 1_000_000_000 + (parts.1 as nat)),
        Err(message) => Err(VoiceErrorModel::Decode(message)),
    }
}

/// The view of the outcome of measuring.
pub open spec fn length_view(outcome: Result<Span, VoiceError>) -> Result<nat, VoiceErrorModel> {
    match outcome {
        Ok(length) => Ok(length@),
        Err(error) => Err(error@),
    }
}

/// Turns what the measuring gave into a length or a decode error.
pub fn length_from_parts(measured: Result<(u64, u32), String>) -> (out: Result<Span, VoiceError>)
    ensures
        length_view(out) == measured_length(measured_view(measured)),
{
    match measured {
        Ok(parts) => Ok(Span::new(parts.0, parts.1)),
        Err(message) => Err(VoiceError::Decode(message)),
    }
}

/// Measures how long MP3 data plays, from its frame headers.
pub fn get_audio_duration(bytes: &[u8]) -> (out: Result<Span, VoiceError>)
    requires
        measurable(bytes@),
    ensures
        length_view(out) == measured_length(mp3_measured(bytes@)),
{
    length_from_parts(measure(bytes))
}

/// The message of the error for data that holds an oversized number.
pub open spec fn oversized_message() -> Seq<char> {
    "frame count or tag size out of range"@
}

/// The length of MP3 data, or why it cannot be told: the data holds an
/// oversized number, or measuring fails.
pub open spec fn probed_length(bytes: Seq<u8>) -> Result<nat, VoiceErrorModel> {
    if measurable(bytes) {
        measured_length(mp3_measured(bytes))
    } else {
        Err(VoiceErrorModel::Decode(oversized_message()))
    }
}

/// Measures how long MP3 data plays, where it can be measured.
pub fn probe_audio_duration(bytes: &[u8]) -> (out: Result<Span, VoiceError>)
    ensures
        length_view(out) == probed_length(bytes@),
{
    if is_measurable(bytes) {
        get_audio_duration(bytes)
    } else {
        Err(VoiceError::Decode("frame count or tag size out of range".to_owned()))
    }
}

} // verus!
