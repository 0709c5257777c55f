//! The canonical container form of a sound: interleaved 16-bit integer PCM in
//! a RIFF WAVE file, produced by the `hound` encoder.

use vstd::prelude::*;

verus! {

/// Bits per sample of the canonical encoding.
pub const PCM_BITS: u16 = 16;

/// Why a sample buffer could not be turned into a WAVE file.
#[derive(Clone, Copy, Debug, PartialEq, Eq, Structural)]
pub enum EncodeError {
    /// A sound needs at least one channel.
    ZeroChannels,
    /// The buffer length is no multiple of the channel count.
    Misaligned,
}

/// `hound::Error`, the error of the encoder; nothing is known of a value.
#[verifier::external_type_specification]
#[verifier::external_body]
pub struct ExHoundError(hound::Error);

/// The bytes of the WAVE file that `hound` writes for integer PCM samples of
/// `bits` bits each, at `sample_rate` frames per second over `channels`
/// interleaved channels.
pub uninterp spec fn wav_file_bytes(sample_rate: u32, channels: u16, bits: u16, samples: Seq<i16>) -> Seq<u8>;

/// Length in bytes of the RIFF header fields that follow the file-size field
/// and precede the sample data.
pub open spec fn wav_header_tail(channels: u16) -> int {
    if channels > 2 { 60 } else { 36 }
}

/// The inputs for which every size field of a 16-bit WAVE file fits its
/// 32-bit slot and the block alignment is defined.
pub open spec fn wav_encodable(sample_rate: u32, channels: u16, len: nat) -> bool {
    &&& sample_rate > 0
    &&& sample_rate * 2 * channels <= u32::MAX
    &&& 2 * len + wav_header_tail(channels) <= u32::MAX
}

/// Runs `hound::WavWriter` over an in-memory cursor: `WavWriter::new` with an
/// integer format of `bits` bits, `write_sample` for each sample in order, then
/// `finalize`. On success the result is the finished file; the encoder's own
/// error is handed back otherwise. The preconditions exclude the inputs on
/// which the encoder's header arithmetic overflows or divides by zero; within
/// them the encoder refuses nothing but a last frame that is not whole.
#[verifier::external_body]
fn hound_write_pcm(sample_rate: u32, channels: u16, bits: u16, samples: &Vec<i16>) -> (r: Result<Vec<u8>, hound::Error>)
    requires
        bits == 16,
        channels > 0,
        wav_encodable(sample_rate, channels, samples@.len()),
    ensures
        r matches Ok(bytes) ==> bytes@ == wav_file_bytes(sample_rate, channels, bits, samples@),
        samples@.len() % (channels as nat) == 0 ==> r is Ok,
{
    let spec = hound::WavSpec { channels, sample_rate, bits_per_sample: bits, sample_format: hound::SampleFormat::Int };
    let mut out = std::io::Cursor::new(Vec::new());
    let mut writer = hound::WavWriter::new(&mut out, spec)?;
    for s in samples.iter() {
        writer.write_sample(*s)?;
    }
    writer.finalize()?;
    Ok(out.into_inner())
}

/// Whether a buffer of `len` samples over `channels` channels is accepted for
/// encoding, and the error it is refused with otherwise.
pub open spec fn encode_precheck(channels: u16, len: nat) -> Option<EncodeError> {
    if channels == 0 {
        Some(EncodeError::ZeroChannels)
    } else if len % (channels as nat) != 0 {
        Some(EncodeError::Misaligned)
    } else {
        None
    }
}

/// What encoding comes to: a buffer without channels or with a partial last
/// frame is refused, and any other gives the encoder's file.
pub open spec fn encoded(sample_rate: u32, channels: u16, samples: Seq<i16>) -> Result<Seq<u8>, EncodeError> {
    match encode_precheck(channels, samples.len()) {
        Some(e) => Err(e),
        None => Ok(wav_file_bytes(sample_rate, channels, PCM_BITS, samples)),
    }
}

/// Encodes interleaved 16-bit samples as a WAVE file.
///
/// A buffer without channels or with a partial last frame is refused before
/// the encoder is asked. Every other buffer is encoded.
pub fn encode_wav_bytes(sample_rate: u32, channels: u16, samples: &Vec<i16>) -> (r: Result<Vec<u8>, EncodeError>)
    requires
        encode_precheck(channels, samples@.len()) is None ==> wav_encodable(sample_rate, channels, samples@.len()),
    ensures
        match r {
            Ok(bytes) => encoded(sample_rate, channels, samples@) == Ok::<Seq<u8>, EncodeError>(bytes@),
            Err(e) => encoded(sample_rate, channels, samples@) == Err::<Seq<u8>, EncodeError>(e),
        },
{
    if channels == 0 {
        return Err(EncodeError::ZeroChannels);
    }
    if samples.len() % (channels as usize) != 0 {
        return Err(EncodeError::Misaligned);
    }
    match hound_write_pcm(sample_rate, channels, PCM_BITS, samples) {
        Ok(bytes) => Ok(bytes),
        // the encoder refuses nothing but a last frame that is not whole
        Err(_) => Err(EncodeError::Misaligned),
    }
}

} // verus!
