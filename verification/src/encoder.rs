//! The encoder's side of the control protocol: what to ask of an encoder, and what its
//! answers mean.

use vstd::prelude::*;
use crate::constants::{max_frame_samples, max_frame_samples_for};
use crate::ctl::{
    bandwidth_answer, bandwidth_reply, bitrate_answer, bitrate_reply, bool_answer, bool_reply,
    channels_answer, channels_reply, complexity_answer, complexity_reply, duration_answer,
    duration_reply, flag, int_answer, int_reply, set_flag, signal_answer, signal_reply,
    CodecCall, CtlReply, CtlRequest, OPUS_GET_BANDWIDTH_REQUEST, OPUS_GET_BITRATE_REQUEST,
    OPUS_GET_COMPLEXITY_REQUEST, OPUS_GET_DTX_REQUEST, OPUS_GET_EXPERT_FRAME_DURATION_REQUEST,
    OPUS_GET_FINAL_RANGE_REQUEST, OPUS_GET_FORCE_CHANNELS_REQUEST, OPUS_GET_INBAND_FEC_REQUEST,
    OPUS_GET_IN_DTX_REQUEST, OPUS_GET_LOOKAHEAD_REQUEST, OPUS_GET_LSB_DEPTH_REQUEST,
    OPUS_GET_MAX_BANDWIDTH_REQUEST, OPUS_GET_PACKET_LOSS_PERC_REQUEST,
    OPUS_GET_PHASE_INVERSION_DISABLED_REQUEST, OPUS_GET_PREDICTION_DISABLED_REQUEST,
    OPUS_GET_SIGNAL_REQUEST, OPUS_GET_VBR_CONSTRAINT_REQUEST, OPUS_GET_VBR_REQUEST,
    OPUS_RESET_STATE, OPUS_SET_BANDWIDTH_REQUEST, OPUS_SET_BITRATE_REQUEST,
    OPUS_SET_COMPLEXITY_REQUEST, OPUS_SET_DTX_REQUEST, OPUS_SET_EXPERT_FRAME_DURATION_REQUEST,
    OPUS_SET_FORCE_CHANNELS_REQUEST, OPUS_SET_INBAND_FEC_REQUEST, OPUS_SET_LSB_DEPTH_REQUEST,
    OPUS_SET_MAX_BANDWIDTH_REQUEST, OPUS_SET_PACKET_LOSS_PERC_REQUEST,
    OPUS_SET_PHASE_INVERSION_DISABLED_REQUEST, OPUS_SET_PREDICTION_DISABLED_REQUEST,
    OPUS_SET_SIGNAL_REQUEST, OPUS_SET_VBR_CONSTRAINT_REQUEST, OPUS_SET_VBR_REQUEST,
};
use crate::error::Error;
use crate::types::{
    Application, Bandwidth, Bitrate, Channels, Complexity, ExpertFrameDuration, SampleRate,
    Signal, OPUS_AUTO,
};

verus! {

/// What `encode` and `encode_limited` answer for an input of `samples` samples in all, an
/// output buffer of `room` bytes and a limit of `limit` bytes on the packet: the call to
/// make, or a refusal. The samples must be whole frames of all channels, at least one and
/// at most 120 ms of them; the buffer must not be empty nor larger than the codec can
/// count; the limit must not be zero nor above the buffer.
pub open spec fn encode_plan(
    sample_rate: SampleRate,
    channels: int,
    samples: int,
    room: int,
    limit: int,
) -> Result<CodecCall, Error> {
    if samples == 0 || samples % channels != 0 || samples / channels > max_frame_samples(
        sample_rate,
    ) || room == 0 || room > i32::MAX || limit == 0 || limit > room {
        Err(Error::BadArg)
    } else {
        Ok(
            CodecCall {
                packet_len: limit as i32,
                frame_size: (samples / channels) as i32,
                fec: false,
            },
        )
    }
}

/// Plans one call that encodes `samples` samples of `channels` interleaved channels.
fn plan_encode(
    sample_rate: SampleRate,
    channels: usize,
    samples: usize,
    room: usize,
    limit: usize,
) -> (r: Result<CodecCall, Error>)
    requires
        1 <= channels <= 255,
    ensures
        r == encode_plan(sample_rate, channels as int, samples as int, room as int, limit as int),
{
    if samples == 0 || samples % channels != 0 {
        return Err(Error::BadArg);
    }
    let frame_size: usize = samples / channels;
    if frame_size > max_frame_samples_for(sample_rate) {
        return Err(Error::BadArg);
    }
    if room == 0 || room > i32::MAX as usize || limit == 0 || limit > room {
        return Err(Error::BadArg);
    }
    Ok(CodecCall { packet_len: limit as i32, frame_size: frame_size as i32, fec: false })
}

/// The settings under which an encoder was made, and the protocol for controlling it.
pub struct Encoder {
    sample_rate: SampleRate,
    channels: Channels,
    application: Application,
}

impl Encoder {
    /// The sample rate the encoder was made for.
    pub closed spec fn rate(&self) -> SampleRate {
        self.sample_rate
    }

    /// The channel layout the encoder was made for.
    pub closed spec fn layout(&self) -> Channels {
        self.channels
    }

    /// The application mode the encoder was made for.
    pub closed spec fn mode(&self) -> Application {
        self.application
    }

    /// Create a new encoder.
    ///
    /// Every combination of the three settings is one the codec accepts.
    pub fn new(sample_rate: SampleRate, channels: Channels, application: Application) -> (r:
        Result<Self, Error>)
        ensures
            r is Ok,
            r.unwrap().rate() == sample_rate,
            r.unwrap().layout() == channels,
            r.unwrap().mode() == application,
    {
        if !sample_rate.is_valid() {
            return Err(Error::BadArg);
        }
        Ok(Encoder { sample_rate, channels, application })
    }

    /// Encode 16-bit PCM into a packet.
    ///
    /// Checks the buffers and returns the call to make on the codec: the frame size in
    /// samples per channel and the room for the packet.
    pub fn encode(&self, input: &[i16], output: &[u8]) -> (r: Result<CodecCall, Error>)
        ensures
            r == encode_plan(
                self.rate(),
                self.layout().count(),
                input@.len() as int,
                output@.len() as int,
                output@.len() as int,
            ),
    {
        plan_encode(
            self.sample_rate,
            self.channels.as_usize(),
            input.len(),
            output.len(),
            output.len(),
        )
    }

    /// Encode 16-bit PCM, capping output to `max_data_bytes`.
    ///
    /// Checks the buffers and the cap and returns the call to make on the codec.
    pub fn encode_limited(&self, input: &[i16], output: &[u8], max_data_bytes: usize) -> (r:
        Result<CodecCall, Error>)
        ensures
            r == encode_plan(
                self.rate(),
                self.layout().count(),
                input@.len() as int,
                output@.len() as int,
                max_data_bytes as int,
            ),
    {
        plan_encode(
            self.sample_rate,
            self.channels.as_usize(),
            input.len(),
            output.len(),
            max_data_bytes,
        )
    }

    /// The former name of `encode_limited`.
    pub fn encode_with_fec(&self, input: &[i16], output: &[u8], max_data_bytes: usize) -> (r:
        Result<CodecCall, Error>)
        ensures
            r == encode_plan(
                self.rate(),
                self.layout().count(),
                input@.len() as int,
                output@.len() as int,
                max_data_bytes as int,
            ),
    {
        self.encode_limited(input, output, max_data_bytes)
    }

    /// Encode PCM in floating point into a packet: `samples` is the number of samples in
    /// the input, over all channels.
    ///
    /// Checks the sizes and returns the call to make on the codec.
    pub fn encode_float(&self, samples: usize, output: &[u8]) -> (r: Result<CodecCall, Error>)
        ensures
            r == encode_plan(
                self.rate(),
                self.layout().count(),
                samples as int,
                output@.len() as int,
                output@.len() as int,
            ),
    {
        plan_encode(
            self.sample_rate,
            self.channels.as_usize(),
            samples,
            output.len(),
            output.len(),
        )
    }

    /// Enable/disable in-band FEC generation (decoder can recover from losses).
    ///
    /// Returns the request to send to the encoder.
    pub fn set_inband_fec(&self, enabled: bool) -> (r: Result<CtlRequest, Error>)
        ensures
            r == Ok::<CtlRequest, Error>(
                CtlRequest::Assign { request: OPUS_SET_INBAND_FEC_REQUEST, value: flag(enabled) },
            ),
    {
        Ok(set_flag(OPUS_SET_INBAND_FEC_REQUEST, enabled))
    }

    /// Query in-band FEC setting.
    ///
    /// Reads the reply to the query `OPUS_GET_INBAND_FEC_REQUEST`.
    pub fn inband_fec(&self, reply: CtlReply) -> (r: Result<bool, Error>)
        ensures
            r == bool_answer(OPUS_GET_INBAND_FEC_REQUEST, reply),
    {
        bool_reply(OPUS_GET_INBAND_FEC_REQUEST, reply)
    }

    /// Hint expected packet loss percentage [0..=100].
    ///
    /// Returns the request to send to the encoder, or [`Error::BadArg`] for a percentage
    /// outside that range.
    pub fn set_packet_loss_perc(&self, perc: i32) -> (r: Result<CtlRequest, Error>)
        ensures
            r == (if 0 <= perc <= 100 {
                Ok::<CtlRequest, Error>(
                    CtlRequest::Assign { request: OPUS_SET_PACKET_LOSS_PERC_REQUEST, value: perc },
                )
            } else {
                Err(Error::BadArg)
            }),
    {
        if perc < 0 || perc > 100 {
            return Err(Error::BadArg);
        }
        Ok(CtlRequest::Assign { request: OPUS_SET_PACKET_LOSS_PERC_REQUEST, value: perc })
    }

    /// Query packet loss percentage hint.
    ///
    /// Reads the reply to the query `OPUS_GET_PACKET_LOSS_PERC_REQUEST`.
    pub fn packet_loss_perc(&self, reply: CtlReply) -> (r: Result<i32, Error>)
        ensures
            r == int_answer(OPUS_GET_PACKET_LOSS_PERC_REQUEST, reply),
    {
        int_reply(OPUS_GET_PACKET_LOSS_PERC_REQUEST, reply)
    }

    /// Enable/disable DTX (discontinuous transmission).
    ///
    /// Returns the request to send to the encoder.
    pub fn set_dtx(&self, enabled: bool) -> (r: Result<CtlRequest, Error>)
        ensures
            r == Ok::<CtlRequest, Error>(
                CtlRequest::Assign { request: OPUS_SET_DTX_REQUEST, value: flag(enabled) },
            ),
    {
        Ok(set_flag(OPUS_SET_DTX_REQUEST, enabled))
    }

    /// Query DTX setting.
    ///
    /// Reads the reply to the query `OPUS_GET_DTX_REQUEST`.
    pub fn dtx(&self, reply: CtlReply) -> (r: Result<bool, Error>)
        ensures
            r == bool_answer(OPUS_GET_DTX_REQUEST, reply),
    {
        bool_reply(OPUS_GET_DTX_REQUEST, reply)
    }

    /// Returns true if encoder is currently in DTX.
    ///
    /// Reads the reply to the query `OPUS_GET_IN_DTX_REQUEST`.
    pub fn in_dtx(&self, reply: CtlReply) -> (r: Result<bool, Error>)
        ensures
            r == bool_answer(OPUS_GET_IN_DTX_REQUEST, reply),
    {
        bool_reply(OPUS_GET_IN_DTX_REQUEST, reply)
    }

    /// Constrain VBR to reduce instant bitrate swings.
    ///
    /// Returns the request to send to the encoder.
    pub fn set_vbr_constraint(&self, constrained: bool) -> (r: Result<CtlRequest, Error>)
        ensures
            r == Ok::<CtlRequest, Error>(
                CtlRequest::Assign {
                    request: OPUS_SET_VBR_CONSTRAINT_REQUEST,
                    value: flag(constrained),
                },
            ),
    {
        Ok(set_flag(OPUS_SET_VBR_CONSTRAINT_REQUEST, constrained))
    }

    /// Query VBR constraint setting.
    ///
    /// Reads the reply to the query `OPUS_GET_VBR_CONSTRAINT_REQUEST`.
    pub fn vbr_constraint(&self, reply: CtlReply) -> (r: Result<bool, Error>)
        ensures
            r == bool_answer(OPUS_GET_VBR_CONSTRAINT_REQUEST, reply),
    {
        bool_reply(OPUS_GET_VBR_CONSTRAINT_REQUEST, reply)
    }

    /// Set maximum audio bandwidth the encoder may use.
    ///
    /// Returns the request to send to the encoder.
    pub fn set_max_bandwidth(&self, bw: Bandwidth) -> (r: Result<CtlRequest, Error>)
        ensures
            r == Ok::<CtlRequest, Error>(
                CtlRequest::Assign {
                    request: OPUS_SET_MAX_BANDWIDTH_REQUEST,
                    value: bw.code() as i32,
                },
            ),
    {
        Ok(CtlRequest::Assign { request: OPUS_SET_MAX_BANDWIDTH_REQUEST, value: bw.as_i32() })
    }

    /// Query max bandwidth.
    ///
    /// Reads the reply to the query `OPUS_GET_MAX_BANDWIDTH_REQUEST`.
    pub fn max_bandwidth(&self, reply: CtlReply) -> (r: Result<Bandwidth, Error>)
        ensures
            r == bandwidth_answer(OPUS_GET_MAX_BANDWIDTH_REQUEST, reply),
    {
        bandwidth_reply(OPUS_GET_MAX_BANDWIDTH_REQUEST, reply)
    }

    /// Force a specific bandwidth (overrides automatic).
    ///
    /// Returns the request to send to the encoder.
    pub fn set_bandwidth(&self, bw: Bandwidth) -> (r: Result<CtlRequest, Error>)
        ensures
            r == Ok::<CtlRequest, Error>(
                CtlRequest::Assign { request: OPUS_SET_BANDWIDTH_REQUEST, value: bw.code() as i32 },
            ),
    {
        Ok(CtlRequest::Assign { request: OPUS_SET_BANDWIDTH_REQUEST, value: bw.as_i32() })
    }

    /// Query current forced bandwidth.
    ///
    /// Reads the reply to the query `OPUS_GET_BANDWIDTH_REQUEST`.
    pub fn bandwidth(&self, reply: CtlReply) -> (r: Result<Bandwidth, Error>)
        ensures
            r == bandwidth_answer(OPUS_GET_BANDWIDTH_REQUEST, reply),
    {
        bandwidth_reply(OPUS_GET_BANDWIDTH_REQUEST, reply)
    }

    /// Force mono/stereo output, or None for automatic.
    ///
    /// Returns the request to send to the encoder.
    pub fn set_force_channels(&self, channels: Option<Channels>) -> (r: Result<CtlRequest, Error>)
        ensures
            r == Ok::<CtlRequest, Error>(
                CtlRequest::Assign {
                    request: OPUS_SET_FORCE_CHANNELS_REQUEST,
                    value: match channels {
                        Some(c) => c.count() as i32,
                        None => OPUS_AUTO,
                    },
                },
            ),
    {
        let value: i32 = match channels {
            Some(Channels::Mono) => 1,
            Some(Channels::Stereo) => 2,
            None => OPUS_AUTO,
        };
        Ok(CtlRequest::Assign { request: OPUS_SET_FORCE_CHANNELS_REQUEST, value })
    }

    /// Query forced channels.
    ///
    /// Reads the reply to the query `OPUS_GET_FORCE_CHANNELS_REQUEST`.
    pub fn force_channels(&self, reply: CtlReply) -> (r: Result<Option<Channels>, Error>)
        ensures
            r == channels_answer(OPUS_GET_FORCE_CHANNELS_REQUEST, reply),
    {
        channels_reply(OPUS_GET_FORCE_CHANNELS_REQUEST, reply)
    }

    /// Hint content type (voice or music).
    ///
    /// Returns the request to send to the encoder.
    pub fn set_signal(&self, signal: Signal) -> (r: Result<CtlRequest, Error>)
        ensures
            r == Ok::<CtlRequest, Error>(
                CtlRequest::Assign {
                    request: OPUS_SET_SIGNAL_REQUEST,
                    value: signal.code() as i32,
                },
            ),
    {
        Ok(CtlRequest::Assign { request: OPUS_SET_SIGNAL_REQUEST, value: signal.as_i32() })
    }

    /// Query current signal hint.
    ///
    /// Reads the reply to the query `OPUS_GET_SIGNAL_REQUEST`.
    pub fn signal(&self, reply: CtlReply) -> (r: Result<Signal, Error>)
        ensures
            r == signal_answer(OPUS_GET_SIGNAL_REQUEST, reply),
    {
        signal_reply(OPUS_GET_SIGNAL_REQUEST, reply)
    }

    /// Encoder algorithmic lookahead (in samples at 48 kHz domain).
    ///
    /// Reads the reply to the query `OPUS_GET_LOOKAHEAD_REQUEST`.
    pub fn lookahead(&self, reply: CtlReply) -> (r: Result<i32, Error>)
        ensures
            r == int_answer(OPUS_GET_LOOKAHEAD_REQUEST, reply),
    {
        int_reply(OPUS_GET_LOOKAHEAD_REQUEST, reply)
    }

    /// Final RNG state from the last encode (debugging/bitstream id).
    ///
    /// Reads the reply to the query `OPUS_GET_FINAL_RANGE_REQUEST`; the state is the value
    /// of the reply read as an unsigned number.
    pub fn final_range(&self, reply: CtlReply) -> (r: Result<u32, Error>)
        ensures
            r == (match int_answer(OPUS_GET_FINAL_RANGE_REQUEST, reply) {
                Ok(v) => Ok::<u32, Error>(v as u32),
                Err(e) => Err(e),
            }),
    {
        match int_reply(OPUS_GET_FINAL_RANGE_REQUEST, reply) {
            Ok(v) => Ok(v as u32),
            Err(e) => Err(e),
        }
    }

    /// Set input LSB depth (typically 16-24 bits).
    ///
    /// Returns the request to send to the encoder, or [`Error::BadArg`] for a depth
    /// outside 8..=24.
    pub fn set_lsb_depth(&self, bits: i32) -> (r: Result<CtlRequest, Error>)
        ensures
            r == (if 8 <= bits <= 24 {
                Ok::<CtlRequest, Error>(
                    CtlRequest::Assign { request: OPUS_SET_LSB_DEPTH_REQUEST, value: bits },
                )
            } else {
                Err(Error::BadArg)
            }),
    {
        if bits < 8 || bits > 24 {
            return Err(Error::BadArg);
        }
        Ok(CtlRequest::Assign { request: OPUS_SET_LSB_DEPTH_REQUEST, value: bits })
    }

    /// Query input LSB depth.
    ///
    /// Reads the reply to the query `OPUS_GET_LSB_DEPTH_REQUEST`.
    pub fn lsb_depth(&self, reply: CtlReply) -> (r: Result<i32, Error>)
        ensures
            r == int_answer(OPUS_GET_LSB_DEPTH_REQUEST, reply),
    {
        int_reply(OPUS_GET_LSB_DEPTH_REQUEST, reply)
    }

    /// Set expert frame duration choice.
    ///
    /// Returns the request to send to the encoder.
    pub fn set_expert_frame_duration(&self, dur: ExpertFrameDuration) -> (r: Result<
        CtlRequest,
        Error,
    >)
        ensures
            r == Ok::<CtlRequest, Error>(
                CtlRequest::Assign {
                    request: OPUS_SET_EXPERT_FRAME_DURATION_REQUEST,
                    value: dur.code() as i32,
                },
            ),
    {
        Ok(
            CtlRequest::Assign {
                request: OPUS_SET_EXPERT_FRAME_DURATION_REQUEST,
                value: dur.as_i32(),
            },
        )
    }

    /// Query expert frame duration.
    ///
    /// Reads the reply to the query `OPUS_GET_EXPERT_FRAME_DURATION_REQUEST`.
    pub fn expert_frame_duration(&self, reply: CtlReply) -> (r: Result<ExpertFrameDuration, Error>)
        ensures
            r == duration_answer(OPUS_GET_EXPERT_FRAME_DURATION_REQUEST, reply),
    {
        duration_reply(OPUS_GET_EXPERT_FRAME_DURATION_REQUEST, reply)
    }

    /// Disable/enable inter-frame prediction (expert option).
    ///
    /// Returns the request to send to the encoder.
    pub fn set_prediction_disabled(&self, disabled: bool) -> (r: Result<CtlRequest, Error>)
        ensures
            r == Ok::<CtlRequest, Error>(
                CtlRequest::Assign {
                    request: OPUS_SET_PREDICTION_DISABLED_REQUEST,
                    value: flag(disabled),
                },
            ),
    {
        Ok(set_flag(OPUS_SET_PREDICTION_DISABLED_REQUEST, disabled))
    }

    /// Query prediction disabled flag.
    ///
    /// Reads the reply to the query `OPUS_GET_PREDICTION_DISABLED_REQUEST`.
    pub fn prediction_disabled(&self, reply: CtlReply) -> (r: Result<bool, Error>)
        ensures
            r == bool_answer(OPUS_GET_PREDICTION_DISABLED_REQUEST, reply),
    {
        bool_reply(OPUS_GET_PREDICTION_DISABLED_REQUEST, reply)
    }

    /// Disable/enable phase inversion (stereo decorrelation) in CELT (expert option).
    ///
    /// Returns the request to send to the encoder.
    pub fn set_phase_inversion_disabled(&self, disabled: bool) -> (r: Result<CtlRequest, Error>)
        ensures
            r == Ok::<CtlRequest, Error>(
                CtlRequest::Assign {
                    request: OPUS_SET_PHASE_INVERSION_DISABLED_REQUEST,
                    value: flag(disabled),
                },
            ),
    {
        Ok(set_flag(OPUS_SET_PHASE_INVERSION_DISABLED_REQUEST, disabled))
    }

    /// Query phase inversion disabled flag.
    ///
    /// Reads the reply to the query `OPUS_GET_PHASE_INVERSION_DISABLED_REQUEST`.
    pub fn phase_inversion_disabled(&self, reply: CtlReply) -> (r: Result<bool, Error>)
        ensures
            r == bool_answer(OPUS_GET_PHASE_INVERSION_DISABLED_REQUEST, reply),
    {
        bool_reply(OPUS_GET_PHASE_INVERSION_DISABLED_REQUEST, reply)
    }

    /// Set target bitrate.
    ///
    /// Returns the request to send to the encoder.
    pub fn set_bitrate(&self, bitrate: Bitrate) -> (r: Result<CtlRequest, Error>)
        ensures
            r == Ok::<CtlRequest, Error>(
                CtlRequest::Assign {
                    request: OPUS_SET_BITRATE_REQUEST,
                    value: bitrate.code() as i32,
                },
            ),
    {
        Ok(CtlRequest::Assign { request: OPUS_SET_BITRATE_REQUEST, value: bitrate.value() })
    }

    /// Query current bitrate.
    ///
    /// Reads the reply to the query `OPUS_GET_BITRATE_REQUEST`.
    pub fn bitrate(&self, reply: CtlReply) -> (r: Result<Bitrate, Error>)
        ensures
            r == bitrate_answer(OPUS_GET_BITRATE_REQUEST, reply),
    {
        bitrate_reply(OPUS_GET_BITRATE_REQUEST, reply)
    }

    /// Set encoder complexity [0..=10].
    ///
    /// Returns the request to send to the encoder.
    pub fn set_complexity(&self, complexity: Complexity) -> (r: Result<CtlRequest, Error>)
        ensures
            r == Ok::<CtlRequest, Error>(
                CtlRequest::Assign {
                    request: OPUS_SET_COMPLEXITY_REQUEST,
                    value: complexity.level() as i32,
                },
            ),
    {
        Ok(
            CtlRequest::Assign {
                request: OPUS_SET_COMPLEXITY_REQUEST,
                value: complexity.value() as i32,
            },
        )
    }

    /// Query encoder complexity.
    ///
    /// Reads the reply to the query `OPUS_GET_COMPLEXITY_REQUEST`; a level outside 0..=10
    /// is an internal error.
    pub fn complexity(&self, reply: CtlReply) -> (r: Result<Complexity, Error>)
        ensures
            match complexity_answer(OPUS_GET_COMPLEXITY_REQUEST, reply) {
                Ok(level) => r is Ok && r.unwrap().level() == level,
                Err(e) => r == Err::<Complexity, Error>(e),
            },
    {
        complexity_reply(OPUS_GET_COMPLEXITY_REQUEST, reply)
    }

    /// Enable or disable VBR.
    ///
    /// Returns the request to send to the encoder.
    pub fn set_vbr(&self, enabled: bool) -> (r: Result<CtlRequest, Error>)
        ensures
            r == Ok::<CtlRequest, Error>(
                CtlRequest::Assign { request: OPUS_SET_VBR_REQUEST, value: flag(enabled) },
            ),
    {
        Ok(set_flag(OPUS_SET_VBR_REQUEST, enabled))
    }

    /// Query VBR status.
    ///
    /// Reads the reply to the query `OPUS_GET_VBR_REQUEST`.
    pub fn vbr(&self, reply: CtlReply) -> (r: Result<bool, Error>)
        ensures
            r == bool_answer(OPUS_GET_VBR_REQUEST, reply),
    {
        bool_reply(OPUS_GET_VBR_REQUEST, reply)
    }

    /// The encoder's configured sample rate.
    pub fn sample_rate(&self) -> (r: SampleRate)
        ensures
            r == self.rate(),
    {
        self.sample_rate
    }

    /// The encoder's channel configuration.
    pub fn channels(&self) -> (c: Channels)
        ensures
            c == self.layout(),
    {
        self.channels
    }

    /// The encoder's application mode.
    pub fn application(&self) -> (a: Application)
        ensures
            a == self.mode(),
    {
        self.application
    }

    /// Reset the encoder to its initial state (same config, cleared history).
    ///
    /// Returns the request to send to the encoder.
    pub fn reset(&self) -> (r: Result<CtlRequest, Error>)
        ensures
            r == Ok::<CtlRequest, Error>(CtlRequest::Plain { request: OPUS_RESET_STATE }),
    {
        Ok(CtlRequest::Plain { request: OPUS_RESET_STATE })
    }
}

} // verus!
