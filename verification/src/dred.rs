//! Deep redundancy: the calls that read redundancy from a packet and that decode it, and
//! the checks on their buffers.

use vstd::prelude::*;
use crate::constants::{max_frame_samples, max_frame_samples_for};
use crate::decoder::Decoder;
use crate::error::Error;
use crate::types::SampleRate;

verus! {

/// What the frame size of a buffer of `len` samples for `channel_count` channels is:
/// an invalid state without channels; refused where the buffer is empty, holds no whole
/// number of frames, or lasts more than 120 ms; else the samples per channel.
pub open spec fn pcm_frame_len(len: int, channel_count: int, sample_rate: SampleRate) -> Result<
    i32,
    Error,
> {
    if channel_count == 0 {
        Err(Error::InvalidState)
    } else if len == 0 || len % channel_count != 0 || len / channel_count > max_frame_samples(
        sample_rate,
    ) {
        Err(Error::BadArg)
    } else {
        Ok((len / channel_count) as i32)
    }
}

/// Checks that a buffer of samples holds whole frames of `channel_count` channels, lasting
/// 120 ms at most, and returns the number of samples per channel.
pub fn validate_pcm_frame_len<T>(pcm: &[T], channel_count: usize, sample_rate: SampleRate) -> (r:
    Result<i32, Error>)
    ensures
        r == pcm_frame_len(pcm@.len() as int, channel_count as int, sample_rate),
{
    check_pcm_frame_len(pcm.len(), channel_count, sample_rate)
}

/// Checks that `len` samples are whole frames of `channel_count` channels, lasting 120 ms
/// at most, and returns the number of samples per channel.
pub fn check_pcm_frame_len(len: usize, channel_count: usize, sample_rate: SampleRate) -> (r:
    Result<i32, Error>)
    ensures
        r == pcm_frame_len(len as int, channel_count as int, sample_rate),
{
    if channel_count == 0 {
        return Err(Error::InvalidState);
    }
    if len == 0 {
        return Err(Error::BadArg);
    }
    if len % channel_count != 0 {
        return Err(Error::BadArg);
    }
    let frame_size_per_ch: usize = len / channel_count;
    assert(frame_size_per_ch > 0) by (nonlinear_arith)
        requires
            len > 0,
            channel_count > 0,
            len % channel_count == 0,
            frame_size_per_ch == len / channel_count,
    ;
    if frame_size_per_ch > max_frame_samples_for(sample_rate) {
        return Err(Error::BadArg);
    }
    Ok(frame_size_per_ch as i32)
}

/// The arguments of one call that reads the redundancy of a packet, as the codec takes
/// them.
#[derive(Debug, Clone, Copy, PartialEq, Eq, Structural)]
pub struct DredParseCall {
    /// The number of bytes of the packet.
    pub len: i32,
    /// The largest number of samples of redundancy that may be needed.
    pub max_dred_samples: i32,
    /// The sample rate of the decoder, in samples per second.
    pub sampling_rate: i32,
    /// Whether the processing of the redundancy is put off.
    pub defer_processing: bool,
}

/// The arguments of one call that decodes redundancy, as the codec takes them.
#[derive(Debug, Clone, Copy, PartialEq, Eq, Structural)]
pub struct DredDecodeCall {
    /// The position of the redundancy to decode, in samples before the packet.
    pub dred_offset: i32,
    /// The number of samples per channel to decode.
    pub frame_size: i32,
}

/// What `parse` answers for a packet of `len` bytes: the call to make, or a refusal
/// where the codec cannot count the packet or the samples.
pub open spec fn dred_parse_plan(
    len: int,
    max_dred_samples: int,
    sampling_rate: SampleRate,
    defer_processing: bool,
) -> Result<DredParseCall, Error> {
    if len > i32::MAX || max_dred_samples > i32::MAX {
        Err(Error::BadArg)
    } else {
        Ok(
            DredParseCall {
                len: len as i32,
                max_dred_samples: max_dred_samples as i32,
                sampling_rate: sampling_rate.hertz() as i32,
                defer_processing,
            },
        )
    }
}

/// What decoding redundancy into a buffer of `samples` samples answers: the call to make,
/// or the refusal of the buffer.
pub open spec fn dred_decode_plan(
    samples: int,
    channel_count: int,
    sample_rate: SampleRate,
    dred_offset: i32,
) -> Result<DredDecodeCall, Error> {
    match pcm_frame_len(samples, channel_count, sample_rate) {
        Ok(frame_size) => Ok(DredDecodeCall { dred_offset, frame_size }),
        Err(e) => Err(e),
    }
}

/// The protocol of a decoder of deep redundancy: the checks before its calls.
pub struct DredDecoder {}

impl DredDecoder {
    /// A decoder of deep redundancy.
    pub fn new() -> (r: Result<Self, Error>)
        ensures
            r is Ok,
    {
        Ok(DredDecoder {  })
    }

    /// Parse the redundancy of a packet.
    ///
    /// Checks the sizes and returns the call to make on the codec.
    pub fn parse(
        &self,
        data: &[u8],
        max_dred_samples: usize,
        sampling_rate: SampleRate,
        defer_processing: bool,
    ) -> (r: Result<DredParseCall, Error>)
        ensures
            r == dred_parse_plan(
                data@.len() as int,
                max_dred_samples as int,
                sampling_rate,
                defer_processing,
            ),
    {
        if data.len() > i32::MAX as usize || max_dred_samples > i32::MAX as usize {
            return Err(Error::BadArg);
        }
        Ok(
            DredParseCall {
                len: data.len() as i32,
                max_dred_samples: max_dred_samples as i32,
                sampling_rate: sampling_rate.as_i32(),
                defer_processing,
            },
        )
    }

    /// Decode redundancy into i16 PCM using a normal decoder.
    ///
    /// Checks the buffer against the decoder's channels and sample rate and returns the
    /// call to make on the codec.
    pub fn decode_into_i16(&self, decoder: &Decoder, dred_offset: i32, pcm: &[i16]) -> (r: Result<
        DredDecodeCall,
        Error,
    >)
        ensures
            r == dred_decode_plan(
                pcm@.len() as int,
                decoder.layout().count(),
                decoder.rate(),
                dred_offset,
            ),
    {
        self.decode_into_f32(decoder, dred_offset, pcm.len())
    }

    /// Decode redundancy into PCM in floating point using a normal decoder: `samples` is
    /// the number of samples the buffer holds, over all channels.
    ///
    /// Checks the size against the decoder's channels and sample rate and returns the call
    /// to make on the codec.
    pub fn decode_into_f32(&self, decoder: &Decoder, dred_offset: i32, samples: usize) -> (r:
        Result<DredDecodeCall, Error>)
        ensures
            r == dred_decode_plan(
                samples as int,
                decoder.layout().count(),
                decoder.rate(),
                dred_offset,
            ),
    {
        let channel_count: usize = decoder.channels().as_usize();
        match check_pcm_frame_len(samples, channel_count, decoder.sample_rate()) {
            Ok(frame_size) => Ok(DredDecodeCall { dred_offset, frame_size }),
            Err(e) => Err(e),
        }
    }
}

} // verus!
