//! The decoder's side of the control protocol: what to ask of a decoder, and what its
//! answers mean.

use vstd::prelude::*;
use crate::constants::{max_frame_samples, max_frame_samples_for};
use crate::ctl::{
    bool_answer, bool_reply, flag, int_answer, int_reply, set_flag, CodecCall, CtlReply,
    CtlRequest, OPUS_GET_DRED_DURATION_REQUEST, OPUS_GET_FINAL_RANGE_REQUEST,
    OPUS_GET_GAIN_REQUEST, OPUS_GET_LAST_PACKET_DURATION_REQUEST,
    OPUS_GET_PHASE_INVERSION_DISABLED_REQUEST, OPUS_GET_PITCH_REQUEST,
    OPUS_GET_SAMPLE_RATE_REQUEST, OPUS_RESET_STATE, OPUS_SET_DRED_DURATION_REQUEST,
    OPUS_SET_GAIN_REQUEST, OPUS_SET_PHASE_INVERSION_DISABLED_REQUEST,
};
use crate::error::Error;
use crate::packet::{
    bandwidth_of, channels_of, packet_bandwidth, packet_channels, packet_nb_samples, samples_in,
};
use crate::types::{Bandwidth, Channels, SampleRate};

verus! {

/// What `decode` answers for a packet of `packet_len` bytes and an output buffer for
/// `samples` samples in all: the call to make, or a refusal. The packet must not be larger
/// than the codec can count; the buffer must hold whole frames of all channels, at least
/// one and at most 120 ms of them. An empty packet stands for a lost one.
pub open spec fn decode_plan(
    sample_rate: SampleRate,
    channels: int,
    packet_len: int,
    samples: int,
    fec: bool,
) -> Result<CodecCall, Error> {
    if packet_len > i32::MAX || samples == 0 || samples % channels != 0 || samples / channels
        > max_frame_samples(sample_rate) {
        Err(Error::BadArg)
    } else {
        Ok(
            CodecCall {
                packet_len: packet_len as i32,
                frame_size: (samples / channels) as i32,
                fec,
            },
        )
    }
}

/// Plans one call that decodes a packet into `samples` samples of `channels` interleaved
/// channels.
fn plan_decode(
    sample_rate: SampleRate,
    channels: usize,
    packet_len: usize,
    samples: usize,
    fec: bool,
) -> (r: Result<CodecCall, Error>)
    requires
        1 <= channels <= 255,
    ensures
        r == decode_plan(sample_rate, channels as int, packet_len as int, samples as int, fec),
{
    if packet_len > i32::MAX as usize {
        return Err(Error::BadArg);
    }
    if samples == 0 || samples % channels != 0 {
        return Err(Error::BadArg);
    }
    let frame_size: usize = samples / channels;
    if frame_size > max_frame_samples_for(sample_rate) {
        return Err(Error::BadArg);
    }
    Ok(CodecCall { packet_len: packet_len as i32, frame_size: frame_size as i32, fec })
}

/// The settings under which a decoder was made, and the protocol for controlling it.
pub struct Decoder {
    sample_rate: SampleRate,
    channels: Channels,
}

impl Decoder {
    /// The sample rate the decoder was made for.
    pub closed spec fn rate(&self) -> SampleRate {
        self.sample_rate
    }

    /// The channel layout the decoder was made for.
    pub closed spec fn layout(&self) -> Channels {
        self.channels
    }

    /// Create a new decoder for a given sample rate and channel layout.
    ///
    /// Every combination of the two settings is one the codec accepts.
    pub fn new(sample_rate: SampleRate, channels: Channels) -> (r: Result<Self, Error>)
        ensures
            r is Ok,
            r.unwrap().rate() == sample_rate,
            r.unwrap().layout() == channels,
    {
        if !sample_rate.is_valid() {
            return Err(Error::BadArg);
        }
        Ok(Decoder { sample_rate, channels })
    }

    /// Decode a packet into 16-bit PCM.
    ///
    /// - `input`: packet bytes; an empty slice stands for a lost packet.
    /// - `output`: interleaved output buffer sized to `frame_size * channels`.
    /// - `fec`: decode in-band forward error correction data if available.
    ///
    /// Checks the buffers and returns the call to make on the codec.
    pub fn decode(&self, input: &[u8], output: &[i16], fec: bool) -> (r: Result<CodecCall, Error>)
        ensures
            r == decode_plan(
                self.rate(),
                self.layout().count(),
                input@.len() as int,
                output@.len() as int,
                fec,
            ),
    {
        plan_decode(self.sample_rate, self.channels.as_usize(), input.len(), output.len(), fec)
    }

    /// Decode a packet into PCM in floating point: `samples` is the number of samples the
    /// output buffer holds, over all channels.
    ///
    /// Checks the sizes and returns the call to make on the codec.
    pub fn decode_float(&self, input: &[u8], samples: usize, fec: bool) -> (r: Result<
        CodecCall,
        Error,
    >)
        ensures
            r == decode_plan(
                self.rate(),
                self.layout().count(),
                input@.len() as int,
                samples as int,
                fec,
            ),
    {
        plan_decode(self.sample_rate, self.channels.as_usize(), input.len(), samples, fec)
    }

    /// Return the number of samples (per channel) in a `packet` at this decoder's rate.
    pub fn packet_samples(&self, packet: &[u8]) -> (r: Result<usize, Error>)
        ensures
            r == samples_in(packet@, self.rate()),
    {
        packet_nb_samples(packet, self.sample_rate)
    }

    /// Return the bandwidth encoded in a `packet`.
    pub fn packet_bandwidth(&self, packet: &[u8]) -> (r: Result<Bandwidth, Error>)
        ensures
            r == (if packet@.len() == 0 {
                Err::<Bandwidth, Error>(Error::BadArg)
            } else {
                Ok(bandwidth_of(packet@[0]))
            }),
    {
        packet_bandwidth(packet)
    }

    /// Return the number of channels described by a `packet`.
    pub fn packet_channels(&self, packet: &[u8]) -> (r: Result<Channels, Error>)
        ensures
            r == (if packet@.len() == 0 {
                Err::<Channels, Error>(Error::BadArg)
            } else {
                Ok(channels_of(packet@[0]))
            }),
    {
        packet_channels(packet)
    }

    /// Reset the decoder to its initial state.
    ///
    /// Returns the request to send to the decoder.
    pub fn reset(&self) -> (r: Result<CtlRequest, Error>)
        ensures
            r == Ok::<CtlRequest, Error>(CtlRequest::Plain { request: OPUS_RESET_STATE }),
    {
        Ok(CtlRequest::Plain { request: OPUS_RESET_STATE })
    }

    /// The decoder's configured sample rate.
    pub fn sample_rate(&self) -> (r: SampleRate)
        ensures
            r == self.rate(),
    {
        self.sample_rate
    }

    /// The decoder's channel configuration.
    pub fn channels(&self) -> (c: Channels)
        ensures
            c == self.layout(),
    {
        self.channels
    }

    /// Query decoder output sample rate.
    ///
    /// Reads the reply to the query `OPUS_GET_SAMPLE_RATE_REQUEST`.
    pub fn get_sample_rate(&self, reply: CtlReply) -> (r: Result<i32, Error>)
        ensures
            r == int_answer(OPUS_GET_SAMPLE_RATE_REQUEST, reply),
    {
        int_reply(OPUS_GET_SAMPLE_RATE_REQUEST, reply)
    }

    /// Query pitch (fundamental period) of the last decoded frame (in samples at 48 kHz
    /// domain).
    ///
    /// Reads the reply to the query `OPUS_GET_PITCH_REQUEST`.
    pub fn get_pitch(&self, reply: CtlReply) -> (r: Result<i32, Error>)
        ensures
            r == int_answer(OPUS_GET_PITCH_REQUEST, reply),
    {
        int_reply(OPUS_GET_PITCH_REQUEST, reply)
    }

    /// Duration (per channel) of the last decoded packet.
    ///
    /// Reads the reply to the query `OPUS_GET_LAST_PACKET_DURATION_REQUEST`.
    pub fn get_last_packet_duration(&self, reply: CtlReply) -> (r: Result<i32, Error>)
        ensures
            r == int_answer(OPUS_GET_LAST_PACKET_DURATION_REQUEST, reply),
    {
        int_reply(OPUS_GET_LAST_PACKET_DURATION_REQUEST, reply)
    }

    /// Final RNG state after the last decode.
    ///
    /// Reads the reply to the query `OPUS_GET_FINAL_RANGE_REQUEST`; the state is the value
    /// of the reply read as an unsigned number.
    pub fn final_range(&self, reply: CtlReply) -> (r: Result<u32, Error>)
        ensures
            r == (match int_answer(OPUS_GET_FINAL_RANGE_REQUEST, reply) {
                Ok(v) => Ok::<u32, Error>(v as u32),
                Err(e) => Err(e),
            }),
    {
        match int_reply(OPUS_GET_FINAL_RANGE_REQUEST, reply) {
            Ok(v) => Ok(v as u32),
            Err(e) => Err(e),
        }
    }

    /// Set post-decode gain in Q8 dB units.
    ///
    /// Returns the request to send to the decoder.
    pub fn set_gain(&self, q8_db: i32) -> (r: Result<CtlRequest, Error>)
        ensures
            r == Ok::<CtlRequest, Error>(
                CtlRequest::Assign { request: OPUS_SET_GAIN_REQUEST, value: q8_db },
            ),
    {
        Ok(CtlRequest::Assign { request: OPUS_SET_GAIN_REQUEST, value: q8_db })
    }

    /// Query post-decode gain in Q8 dB units.
    ///
    /// Reads the reply to the query `OPUS_GET_GAIN_REQUEST`.
    pub fn gain(&self, reply: CtlReply) -> (r: Result<i32, Error>)
        ensures
            r == int_answer(OPUS_GET_GAIN_REQUEST, reply),
    {
        int_reply(OPUS_GET_GAIN_REQUEST, reply)
    }

    /// Returns true if phase inversion is disabled (CELT stereo decorrelation).
    ///
    /// Reads the reply to the query `OPUS_GET_PHASE_INVERSION_DISABLED_REQUEST`.
    pub fn phase_inversion_disabled(&self, reply: CtlReply) -> (r: Result<bool, Error>)
        ensures
            r == bool_answer(OPUS_GET_PHASE_INVERSION_DISABLED_REQUEST, reply),
    {
        bool_reply(OPUS_GET_PHASE_INVERSION_DISABLED_REQUEST, reply)
    }

    /// Disable/enable phase inversion (CELT stereo decorrelation).
    ///
    /// Returns the request to send to the decoder.
    pub fn set_phase_inversion_disabled(&self, disabled: bool) -> (r: Result<CtlRequest, Error>)
        ensures
            r == Ok::<CtlRequest, Error>(
                CtlRequest::Assign {
                    request: OPUS_SET_PHASE_INVERSION_DISABLED_REQUEST,
                    value: flag(disabled),
                },
            ),
    {
        Ok(set_flag(OPUS_SET_PHASE_INVERSION_DISABLED_REQUEST, disabled))
    }

    /// Set the duration of deep redundancy in ms.
    ///
    /// Returns the request to send to the decoder.
    pub fn set_dred_duration(&self, ms: i32) -> (r: Result<CtlRequest, Error>)
        ensures
            r == Ok::<CtlRequest, Error>(
                CtlRequest::Assign { request: OPUS_SET_DRED_DURATION_REQUEST, value: ms },
            ),
    {
        Ok(CtlRequest::Assign { request: OPUS_SET_DRED_DURATION_REQUEST, value: ms })
    }

    /// Query the duration of deep redundancy in ms.
    ///
    /// Reads the reply to the query `OPUS_GET_DRED_DURATION_REQUEST`.
    pub fn dred_duration(&self, reply: CtlReply) -> (r: Result<i32, Error>)
        ensures
            r == int_answer(OPUS_GET_DRED_DURATION_REQUEST, reply),
    {
        int_reply(OPUS_GET_DRED_DURATION_REQUEST, reply)
    }
}

} // verus!
