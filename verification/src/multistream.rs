//! Multistream coding: the mapping of channels to streams, and the control protocol of
//! multistream encoders and decoders.

use vstd::prelude::*;
use crate::ctl::{
    bandwidth_answer, bandwidth_reply, bitrate_answer, bitrate_reply, bool_answer, bool_reply,
    channels_answer, channels_reply, complexity_answer, complexity_reply, flag, int_answer,
    int_reply, set_flag, signal_answer, signal_reply, CodecCall, CtlReply, CtlRequest,
    OPUS_GET_BANDWIDTH_REQUEST, OPUS_GET_BITRATE_REQUEST, OPUS_GET_COMPLEXITY_REQUEST,
    OPUS_GET_DTX_REQUEST, OPUS_GET_FINAL_RANGE_REQUEST, OPUS_GET_FORCE_CHANNELS_REQUEST,
    OPUS_GET_GAIN_REQUEST, OPUS_GET_INBAND_FEC_REQUEST, OPUS_GET_IN_DTX_REQUEST,
    OPUS_GET_LAST_PACKET_DURATION_REQUEST, OPUS_GET_LOOKAHEAD_REQUEST,
    OPUS_GET_MAX_BANDWIDTH_REQUEST, OPUS_GET_PACKET_LOSS_PERC_REQUEST,
    OPUS_GET_PHASE_INVERSION_DISABLED_REQUEST, OPUS_GET_PITCH_REQUEST,
    OPUS_GET_SAMPLE_RATE_REQUEST, OPUS_GET_SIGNAL_REQUEST, OPUS_GET_VBR_CONSTRAINT_REQUEST,
    OPUS_GET_VBR_REQUEST, OPUS_RESET_STATE, OPUS_SET_BANDWIDTH_REQUEST, OPUS_SET_BITRATE_REQUEST,
    OPUS_SET_COMPLEXITY_REQUEST, OPUS_SET_DTX_REQUEST, OPUS_SET_FORCE_CHANNELS_REQUEST,
    OPUS_SET_GAIN_REQUEST, OPUS_SET_INBAND_FEC_REQUEST, OPUS_SET_MAX_BANDWIDTH_REQUEST,
    OPUS_SET_PACKET_LOSS_PERC_REQUEST, OPUS_SET_PHASE_INVERSION_DISABLED_REQUEST,
    OPUS_SET_SIGNAL_REQUEST, OPUS_SET_VBR_CONSTRAINT_REQUEST, OPUS_SET_VBR_REQUEST,
};
use crate::error::Error;
use crate::types::{
    Application, Bandwidth, Bitrate, Channels, Complexity, SampleRate, Signal, OPUS_AUTO,
};

verus! {

/// Describes the multistream mapping configuration.
#[derive(Debug, Clone, Copy)]
pub struct Mapping<'a> {
    /// Total input/output channels.
    pub channels: u8,
    /// Number of uncoupled mono streams.
    pub streams: u8,
    /// Number of coupled stereo streams (each counts as 2 channels).
    pub coupled_streams: u8,
    /// Channel-to-stream mapping table (length == channels).
    pub mapping: &'a [u8],
}

/// The number of channels that a mapping table assigns to `stream`. An entry of 255 drops
/// its channel and assigns it to no stream.
pub open spec fn assigned(table: Seq<u8>, stream: int) -> int
    decreases table.len(),
{
    if table.len() == 0 {
        0
    } else {
        assigned(table.drop_last(), stream) + (if table.last() == stream && table.last() != 255 {
            1int
        } else {
            0
        })
    }
}

/// The number of channels that one stream may take: one for each of the first `streams`
/// streams, two for each of those behind them.
pub open spec fn stream_room(streams: int, stream: int) -> int {
    if stream < streams {
        1
    } else {
        2
    }
}

/// Whether a mapping is consistent: there is at least one channel and one stream; the
/// table has one entry for each channel; there are no more streams than channels, nor more
/// coupled streams than pairs of channels; every entry names a stream or is 255, which
/// drops the channel; and no stream is given more channels than it may take.
pub open spec fn mapping_is_valid(
    channels: int,
    streams: int,
    coupled: int,
    table: Seq<u8>,
) -> bool {
    &&& channels != 0
    &&& table.len() == channels
    &&& streams + coupled != 0
    &&& streams <= channels
    &&& coupled <= channels / 2
    &&& forall|i: int| 0 <= i < table.len() && table[i] != 255 ==> table[i] < streams + coupled
    &&& forall|s: int|
        0 <= s < streams + coupled ==> #[trigger] assigned(table, s) <= stream_room(streams, s)
}

/// A table assigns to a stream at least what each of its prefixes assigns.
pub proof fn assigned_grows(table: Seq<u8>, i: int, stream: int)
    requires
        0 <= i <= table.len(),
    ensures
        0 <= assigned(table.take(i), stream) <= assigned(table, stream),
    decreases table.len() - i,
{
    if i == table.len() {
        assert(table.take(i) =~= table);
        assigned_nonnegative(table, stream);
    } else {
        assigned_grows(table, i + 1, stream);
        assert(table.take(i + 1).drop_last() =~= table.take(i));
        assigned_nonnegative(table.take(i), stream);
    }
}

/// The number of channels assigned to a stream is not negative.
pub proof fn assigned_nonnegative(table: Seq<u8>, stream: int)
    ensures
        0 <= assigned(table, stream),
    decreases table.len(),
{
    if table.len() > 0 {
        assigned_nonnegative(table.drop_last(), stream);
    }
}

impl Mapping<'_> {
    /// Whether the mapping is consistent.
    pub open spec fn is_valid(&self) -> bool {
        mapping_is_valid(
            self.channels as int,
            self.streams as int,
            self.coupled_streams as int,
            self.mapping@,
        )
    }

    /// Validate the mapping: `Ok` where it is consistent, [`Error::BadArg`] where not.
    pub fn validate(&self) -> (r: Result<(), Error>)
        ensures
            r == (if self.is_valid() {
                Ok::<(), Error>(())
            } else {
                Err(Error::BadArg)
            }),
    {
        let channel_count: usize = self.channels as usize;
        if channel_count == 0 {
            return Err(Error::BadArg);
        }
        if self.mapping.len() != channel_count {
            return Err(Error::BadArg);
        }
        let streams: usize = self.streams as usize;
        let coupled: usize = self.coupled_streams as usize;
        if streams + coupled == 0 {
            return Err(Error::BadArg);
        }
        if streams > channel_count {
            return Err(Error::BadArg);
        }
        if coupled > channel_count / 2 {
            return Err(Error::BadArg);
        }
        let total_streams: usize = streams + coupled;
        let ghost table = self.mapping@;
        let mut assignments: Vec<usize> = Vec::new();
        let mut k: usize = 0;
        while k < total_streams
            invariant
                k <= total_streams,
                assignments@.len() == k,
                forall|s: int| 0 <= s < k ==> assignments@[s] == 0,
            decreases total_streams - k,
        {
            assignments.push(0);
            k = k + 1;
        }
        let mut i: usize = 0;
        proof {
            assert(table.take(0) =~= Seq::<u8>::empty());
        }
        while i < channel_count
            invariant
                table == self.mapping@,
                table.len() == channel_count,
                total_streams == streams + coupled,
                streams == self.streams,
                coupled == self.coupled_streams,
                i <= channel_count,
                assignments@.len() == total_streams,
                forall|j: int| 0 <= j < i && table[j] != 255 ==> table[j] < total_streams,
                forall|s: int|
                    0 <= s < total_streams ==> assignments@[s] == #[trigger] assigned(
                        table.take(i as int),
                        s,
                    ),
                forall|s: int|
                    0 <= s < total_streams ==> #[trigger] assigned(table.take(i as int), s)
                        <= stream_room(streams as int, s),
            decreases channel_count - i,
        {
            let entry: u8 = self.mapping[i];
            proof {
                assert(table.take(i as int + 1).drop_last() =~= table.take(i as int));
                assert(table.take(i as int + 1).last() == entry);
            }
            if entry != u8::MAX {
                let idx: usize = entry as usize;
                if idx >= total_streams {
                    return Err(Error::BadArg);
                }
                proof {
                    assert(assignments@[idx as int] == assigned(
                        table.take(i as int),
                        idx as int,
                    ));
                }
                let seen: usize = assignments[idx] + 1;
                assignments.set(idx, seen);
                if (idx < streams && seen > 1) || seen > 2 {
                    proof {
                        assigned_grows(table, i as int + 1, idx as int);
                        assert(assigned(table, idx as int) > stream_room(
                            streams as int,
                            idx as int,
                        ));
                    }
                    return Err(Error::BadArg);
                }
            }
            proof {
                assert forall|s: int| 0 <= s < total_streams implies assignments@[s]
                    == #[trigger] assigned(table.take(i as int + 1), s) && assigned(
                    table.take(i as int + 1),
                    s,
                ) <= stream_room(streams as int, s) by {
                    assert(assigned(table.take(i as int), s) <= stream_room(streams as int, s));
                }
            }
            i = i + 1;
        }
        proof {
            assert(table.take(channel_count as int) =~= table);
        }
        Ok(())
    }
}

/// What a multistream `encode` answers for `samples` samples of input in all, a frame of
/// `frame_size` samples per channel and an output buffer of `room` bytes: the call to
/// make, or a refusal. The input must hold exactly one frame of every channel; the buffer
/// must not be empty; and the codec must be able to count both.
pub open spec fn stream_encode_plan(
    channels: int,
    samples: int,
    frame_size: int,
    room: int,
) -> Result<CodecCall, Error> {
    if samples != frame_size * channels || room == 0 || room > i32::MAX || frame_size
        > i32::MAX {
        Err(Error::BadArg)
    } else {
        Ok(CodecCall { packet_len: room as i32, frame_size: frame_size as i32, fec: false })
    }
}

/// What a multistream `decode` answers for a packet of `packet_len` bytes, an output
/// buffer for `samples` samples in all and a frame of `frame_size` samples per channel:
/// the call to make, or a refusal. The buffer must hold exactly one frame of every
/// channel, and the codec must be able to count packet and frame. An empty packet stands
/// for a lost one.
pub open spec fn stream_decode_plan(
    channels: int,
    packet_len: int,
    samples: int,
    frame_size: int,
    fec: bool,
) -> Result<CodecCall, Error> {
    if samples != frame_size * channels || packet_len > i32::MAX || frame_size > i32::MAX {
        Err(Error::BadArg)
    } else {
        Ok(CodecCall { packet_len: packet_len as i32, frame_size: frame_size as i32, fec })
    }
}

/// Whether `samples` is `frame_size` samples for each of `channels` channels.
pub fn is_whole_frame(channels: u8, samples: usize, frame_size: usize) -> (whole: bool)
    ensures
        whole == (samples == frame_size * channels),
{
    if channels == 0 {
        samples == 0
    } else {
        let each: usize = channels as usize;
        assert(samples == frame_size * each <==> (samples % each == 0 && samples / each
            == frame_size)) by (nonlinear_arith)
            requires
                each > 0,
        ;
        samples % each == 0 && samples / each == frame_size
    }
}

/// Plans one call that encodes a frame of several streams.
fn plan_stream_encode(channels: u8, samples: usize, frame_size: usize, room: usize) -> (r:
    Result<CodecCall, Error>)
    ensures
        r == stream_encode_plan(channels as int, samples as int, frame_size as int, room as int),
{
    if !is_whole_frame(channels, samples, frame_size) {
        return Err(Error::BadArg);
    }
    if room == 0 || room > i32::MAX as usize || frame_size > i32::MAX as usize {
        return Err(Error::BadArg);
    }
    Ok(CodecCall { packet_len: room as i32, frame_size: frame_size as i32, fec: false })
}

/// Plans one call that decodes a frame of several streams.
fn plan_stream_decode(
    channels: u8,
    packet_len: usize,
    samples: usize,
    frame_size: usize,
    fec: bool,
) -> (r: Result<CodecCall, Error>)
    ensures
        r == stream_decode_plan(
            channels as int,
            packet_len as int,
            samples as int,
            frame_size as int,
            fec,
        ),
{
    if !is_whole_frame(channels, samples, frame_size) {
        return Err(Error::BadArg);
    }
    if packet_len > i32::MAX as usize || frame_size > i32::MAX as usize {
        return Err(Error::BadArg);
    }
    Ok(CodecCall { packet_len: packet_len as i32, frame_size: frame_size as i32, fec })
}

/// The layout of streams that the codec chose for a surround encoder.
pub struct SurroundLayout {
    /// The number of streams.
    pub streams: i32,
    /// The number of coupled streams among them.
    pub coupled_streams: i32,
    /// The mapping table: one entry for each channel.
    pub mapping: Vec<u8>,
}

/// The settings under which a multistream encoder was made, and the protocol for
/// controlling it.
pub struct MSEncoder {
    sample_rate: SampleRate,
    channels: u8,
    streams: u8,
    coupled_streams: u8,
}

impl MSEncoder {
    /// The sample rate the encoder was made for.
    pub closed spec fn rate(&self) -> SampleRate {
        self.sample_rate
    }

    /// The number of interleaved input channels.
    pub closed spec fn channel_count(&self) -> u8 {
        self.channels
    }

    /// The number of streams.
    pub closed spec fn stream_count(&self) -> u8 {
        self.streams
    }

    /// The number of coupled streams.
    pub closed spec fn coupled_count(&self) -> u8 {
        self.coupled_streams
    }

    /// Create a new multistream encoder.
    ///
    /// The `mapping.mapping` array describes how input channels are assigned to streams.
    /// Fails with [`Error::BadArg`] where the mapping is not consistent; succeeds on every
    /// other input.
    pub fn new(sr: SampleRate, app: Application, mapping: Mapping<'_>) -> (r: Result<Self, Error>)
        ensures
            match r {
                Ok(encoder) => {
                    &&& mapping.is_valid()
                    &&& encoder.rate() == sr
                    &&& encoder.channel_count() == mapping.channels
                    &&& encoder.stream_count() == mapping.streams
                    &&& encoder.coupled_count() == mapping.coupled_streams
                },
                Err(e) => e == Error::BadArg && !mapping.is_valid(),
            },
    {
        match mapping.validate() {
            Err(e) => Err(e),
            Ok(()) => Ok(
                MSEncoder {
                    sample_rate: sr,
                    channels: mapping.channels,
                    streams: mapping.streams,
                    coupled_streams: mapping.coupled_streams,
                },
            ),
        }
    }

    /// Create a multistream encoder from the layout that the codec chose for `channels`
    /// channels of surround sound.
    ///
    /// Fails with [`Error::BadArg`] where there is no channel or where the numbers of
    /// streams that the codec reports do not fit into a byte; succeeds on every other
    /// input, and hands the mapping table on.
    pub fn new_surround(sr: SampleRate, channels: u8, layout: SurroundLayout) -> (r: Result<
        (Self, Vec<u8>),
        Error,
    >)
        ensures
            match r {
                Ok((encoder, table)) => {
                    &&& channels != 0
                    &&& encoder.rate() == sr
                    &&& encoder.channel_count() == channels
                    &&& encoder.stream_count() == layout.streams
                    &&& encoder.coupled_count() == layout.coupled_streams
                    &&& table == layout.mapping
                },
                Err(e) => e == Error::BadArg && (channels == 0 || !(0 <= layout.streams <= 255)
                    || !(0 <= layout.coupled_streams <= 255)),
            },
    {
        if channels == 0 {
            return Err(Error::BadArg);
        }
        if layout.streams < 0 || layout.streams > 255 {
            return Err(Error::BadArg);
        }
        if layout.coupled_streams < 0 || layout.coupled_streams > 255 {
            return Err(Error::BadArg);
        }
        Ok(
            (
                MSEncoder {
                    sample_rate: sr,
                    channels,
                    streams: layout.streams as u8,
                    coupled_streams: layout.coupled_streams as u8,
                },
                layout.mapping,
            ),
        )
    }

    /// Encode interleaved i16 PCM into a multistream packet.
    ///
    /// Checks the buffers and returns the call to make on the codec.
    pub fn encode(&self, pcm: &[i16], frame_size_per_ch: usize, out: &[u8]) -> (r: Result<
        CodecCall,
        Error,
    >)
        ensures
            r == stream_encode_plan(
                self.channel_count() as int,
                pcm@.len() as int,
                frame_size_per_ch as int,
                out@.len() as int,
            ),
    {
        plan_stream_encode(self.channels, pcm.len(), frame_size_per_ch, out.len())
    }

    /// Encode interleaved PCM in floating point into a multistream packet: `samples` is
    /// the number of samples in the input, over all channels.
    ///
    /// Checks the sizes and returns the call to make on the codec.
    pub fn encode_float(&self, samples: usize, frame_size_per_ch: usize, out: &[u8]) -> (r:
        Result<CodecCall, Error>)
        ensures
            r == stream_encode_plan(
                self.channel_count() as int,
                samples as int,
                frame_size_per_ch as int,
                out@.len() as int,
            ),
    {
        plan_stream_encode(self.channels, samples, frame_size_per_ch, out.len())
    }

    /// Final RNG state from the last call.
    ///
    /// Reads the reply to the query `OPUS_GET_FINAL_RANGE_REQUEST`; the state is the value
    /// of the reply read as an unsigned number.
    pub fn final_range(&self, reply: CtlReply) -> (r: Result<u32, Error>)
        ensures
            r == (match int_answer(OPUS_GET_FINAL_RANGE_REQUEST, reply) {
                Ok(v) => Ok::<u32, Error>(v as u32),
                Err(e) => Err(e),
            }),
    {
        match int_reply(OPUS_GET_FINAL_RANGE_REQUEST, reply) {
            Ok(v) => Ok(v as u32),
            Err(e) => Err(e),
        }
    }

    /// Set target bitrate for the encoder.
    ///
    /// Returns the request to send to the encoder.
    pub fn set_bitrate(&self, bitrate: Bitrate) -> (r: Result<CtlRequest, Error>)
        ensures
            r == Ok::<CtlRequest, Error>(
                CtlRequest::Assign {
                    request: OPUS_SET_BITRATE_REQUEST,
                    value: bitrate.code() as i32,
                },
            ),
    {
        Ok(CtlRequest::Assign { request: OPUS_SET_BITRATE_REQUEST, value: bitrate.value() })
    }

    /// Query the current bitrate target.
    ///
    /// Reads the reply to the query `OPUS_GET_BITRATE_REQUEST`.
    pub fn bitrate(&self, reply: CtlReply) -> (r: Result<Bitrate, Error>)
        ensures
            r == bitrate_answer(OPUS_GET_BITRATE_REQUEST, reply),
    {
        bitrate_reply(OPUS_GET_BITRATE_REQUEST, reply)
    }

    /// Set encoder complexity in the range 0..=10.
    ///
    /// Returns the request to send to the encoder.
    pub fn set_complexity(&self, complexity: Complexity) -> (r: Result<CtlRequest, Error>)
        ensures
            r == Ok::<CtlRequest, Error>(
                CtlRequest::Assign {
                    request: OPUS_SET_COMPLEXITY_REQUEST,
                    value: complexity.level() as i32,
                },
            ),
    {
        Ok(
            CtlRequest::Assign {
                request: OPUS_SET_COMPLEXITY_REQUEST,
                value: complexity.value() as i32,
            },
        )
    }

    /// Query encoder complexity.
    ///
    /// Reads the reply to the query `OPUS_GET_COMPLEXITY_REQUEST`; a level outside 0..=10
    /// is an internal error.
    pub fn complexity(&self, reply: CtlReply) -> (r: Result<Complexity, Error>)
        ensures
            match complexity_answer(OPUS_GET_COMPLEXITY_REQUEST, reply) {
                Ok(level) => r is Ok && r.unwrap().level() == level,
                Err(e) => r == Err::<Complexity, Error>(e),
            },
    {
        complexity_reply(OPUS_GET_COMPLEXITY_REQUEST, reply)
    }

    /// Enable/disable discontinuous transmission (DTX).
    ///
    /// Returns the request to send to the encoder.
    pub fn set_dtx(&self, enabled: bool) -> (r: Result<CtlRequest, Error>)
        ensures
            r == Ok::<CtlRequest, Error>(
                CtlRequest::Assign { request: OPUS_SET_DTX_REQUEST, value: flag(enabled) },
            ),
    {
        Ok(set_flag(OPUS_SET_DTX_REQUEST, enabled))
    }

    /// Query DTX state.
    ///
    /// Reads the reply to the query `OPUS_GET_DTX_REQUEST`.
    pub fn dtx(&self, reply: CtlReply) -> (r: Result<bool, Error>)
        ensures
            r == bool_answer(OPUS_GET_DTX_REQUEST, reply),
    {
        bool_reply(OPUS_GET_DTX_REQUEST, reply)
    }

    /// Query whether the encoder is currently in DTX.
    ///
    /// Reads the reply to the query `OPUS_GET_IN_DTX_REQUEST`.
    pub fn in_dtx(&self, reply: CtlReply) -> (r: Result<bool, Error>)
        ensures
            r == bool_answer(OPUS_GET_IN_DTX_REQUEST, reply),
    {
        bool_reply(OPUS_GET_IN_DTX_REQUEST, reply)
    }

    /// Enable/disable in-band forward error correction.
    ///
    /// Returns the request to send to the encoder.
    pub fn set_inband_fec(&self, enabled: bool) -> (r: Result<CtlRequest, Error>)
        ensures
            r == Ok::<CtlRequest, Error>(
                CtlRequest::Assign { request: OPUS_SET_INBAND_FEC_REQUEST, value: flag(enabled) },
            ),
    {
        Ok(set_flag(OPUS_SET_INBAND_FEC_REQUEST, enabled))
    }

    /// Query in-band forward error correction.
    ///
    /// Reads the reply to the query `OPUS_GET_INBAND_FEC_REQUEST`.
    pub fn inband_fec(&self, reply: CtlReply) -> (r: Result<bool, Error>)
        ensures
            r == bool_answer(OPUS_GET_INBAND_FEC_REQUEST, reply),
    {
        bool_reply(OPUS_GET_INBAND_FEC_REQUEST, reply)
    }

    /// Set expected packet loss percentage (0..=100).
    ///
    /// Returns the request to send to the encoder, or [`Error::BadArg`] for a percentage
    /// outside that range.
    pub fn set_packet_loss_perc(&self, perc: i32) -> (r: Result<CtlRequest, Error>)
        ensures
            r == (if 0 <= perc <= 100 {
                Ok::<CtlRequest, Error>(
                    CtlRequest::Assign { request: OPUS_SET_PACKET_LOSS_PERC_REQUEST, value: perc },
                )
            } else {
                Err(Error::BadArg)
            }),
    {
        if perc < 0 || perc > 100 {
            return Err(Error::BadArg);
        }
        Ok(CtlRequest::Assign { request: OPUS_SET_PACKET_LOSS_PERC_REQUEST, value: perc })
    }

    /// Query expected packet loss percentage.
    ///
    /// Reads the reply to the query `OPUS_GET_PACKET_LOSS_PERC_REQUEST`.
    pub fn packet_loss_perc(&self, reply: CtlReply) -> (r: Result<i32, Error>)
        ensures
            r == int_answer(OPUS_GET_PACKET_LOSS_PERC_REQUEST, reply),
    {
        int_reply(OPUS_GET_PACKET_LOSS_PERC_REQUEST, reply)
    }

    /// Enable/disable variable bitrate.
    ///
    /// Returns the request to send to the encoder.
    pub fn set_vbr(&self, enabled: bool) -> (r: Result<CtlRequest, Error>)
        ensures
            r == Ok::<CtlRequest, Error>(
                CtlRequest::Assign { request: OPUS_SET_VBR_REQUEST, value: flag(enabled) },
            ),
    {
        Ok(set_flag(OPUS_SET_VBR_REQUEST, enabled))
    }

    /// Query VBR status.
    ///
    /// Reads the reply to the query `OPUS_GET_VBR_REQUEST`.
    pub fn vbr(&self, reply: CtlReply) -> (r: Result<bool, Error>)
        ensures
            r == bool_answer(OPUS_GET_VBR_REQUEST, reply),
    {
        bool_reply(OPUS_GET_VBR_REQUEST, reply)
    }

    /// Constrain VBR to reduce instantaneous bitrate swings.
    ///
    /// Returns the request to send to the encoder.
    pub fn set_vbr_constraint(&self, constrained: bool) -> (r: Result<CtlRequest, Error>)
        ensures
            r == Ok::<CtlRequest, Error>(
                CtlRequest::Assign {
                    request: OPUS_SET_VBR_CONSTRAINT_REQUEST,
                    value: flag(constrained),
                },
            ),
    {
        Ok(set_flag(OPUS_SET_VBR_CONSTRAINT_REQUEST, constrained))
    }

    /// Query the VBR constraint.
    ///
    /// Reads the reply to the query `OPUS_GET_VBR_CONSTRAINT_REQUEST`.
    pub fn vbr_constraint(&self, reply: CtlReply) -> (r: Result<bool, Error>)
        ensures
            r == bool_answer(OPUS_GET_VBR_CONSTRAINT_REQUEST, reply),
    {
        bool_reply(OPUS_GET_VBR_CONSTRAINT_REQUEST, reply)
    }

    /// Set the maximum bandwidth the encoder may use.
    ///
    /// Returns the request to send to the encoder.
    pub fn set_max_bandwidth(&self, bw: Bandwidth) -> (r: Result<CtlRequest, Error>)
        ensures
            r == Ok::<CtlRequest, Error>(
                CtlRequest::Assign {
                    request: OPUS_SET_MAX_BANDWIDTH_REQUEST,
                    value: bw.code() as i32,
                },
            ),
    {
        Ok(CtlRequest::Assign { request: OPUS_SET_MAX_BANDWIDTH_REQUEST, value: bw.as_i32() })
    }

    /// Query the maximum bandwidth.
    ///
    /// Reads the reply to the query `OPUS_GET_MAX_BANDWIDTH_REQUEST`.
    pub fn max_bandwidth(&self, reply: CtlReply) -> (r: Result<Bandwidth, Error>)
        ensures
            r == bandwidth_answer(OPUS_GET_MAX_BANDWIDTH_REQUEST, reply),
    {
        bandwidth_reply(OPUS_GET_MAX_BANDWIDTH_REQUEST, reply)
    }

    /// Force a specific bandwidth (overrides automatic).
    ///
    /// Returns the request to send to the encoder.
    pub fn set_bandwidth(&self, bw: Bandwidth) -> (r: Result<CtlRequest, Error>)
        ensures
            r == Ok::<CtlRequest, Error>(
                CtlRequest::Assign { request: OPUS_SET_BANDWIDTH_REQUEST, value: bw.code() as i32 },
            ),
    {
        Ok(CtlRequest::Assign { request: OPUS_SET_BANDWIDTH_REQUEST, value: bw.as_i32() })
    }

    /// Query the current forced bandwidth.
    ///
    /// Reads the reply to the query `OPUS_GET_BANDWIDTH_REQUEST`.
    pub fn bandwidth(&self, reply: CtlReply) -> (r: Result<Bandwidth, Error>)
        ensures
            r == bandwidth_answer(OPUS_GET_BANDWIDTH_REQUEST, reply),
    {
        bandwidth_reply(OPUS_GET_BANDWIDTH_REQUEST, reply)
    }

    /// Force mono/stereo output for coupled streams, or `None` for automatic.
    ///
    /// Returns the request to send to the encoder.
    pub fn set_force_channels(&self, channels: Option<Channels>) -> (r: Result<CtlRequest, Error>)
        ensures
            r == Ok::<CtlRequest, Error>(
                CtlRequest::Assign {
                    request: OPUS_SET_FORCE_CHANNELS_REQUEST,
                    value: match channels {
                        Some(c) => c.count() as i32,
                        None => OPUS_AUTO,
                    },
                },
            ),
    {
        let value: i32 = match channels {
            Some(Channels::Mono) => 1,
            Some(Channels::Stereo) => 2,
            None => OPUS_AUTO,
        };
        Ok(CtlRequest::Assign { request: OPUS_SET_FORCE_CHANNELS_REQUEST, value })
    }

    /// Query forced channel configuration (if any).
    ///
    /// Reads the reply to the query `OPUS_GET_FORCE_CHANNELS_REQUEST`.
    pub fn force_channels(&self, reply: CtlReply) -> (r: Result<Option<Channels>, Error>)
        ensures
            r == channels_answer(OPUS_GET_FORCE_CHANNELS_REQUEST, reply),
    {
        channels_reply(OPUS_GET_FORCE_CHANNELS_REQUEST, reply)
    }

    /// Hint the type of content being encoded (voice/music).
    ///
    /// Returns the request to send to the encoder.
    pub fn set_signal(&self, signal: Signal) -> (r: Result<CtlRequest, Error>)
        ensures
            r == Ok::<CtlRequest, Error>(
                CtlRequest::Assign {
                    request: OPUS_SET_SIGNAL_REQUEST,
                    value: signal.code() as i32,
                },
            ),
    {
        Ok(CtlRequest::Assign { request: OPUS_SET_SIGNAL_REQUEST, value: signal.as_i32() })
    }

    /// Query the current signal hint.
    ///
    /// Reads the reply to the query `OPUS_GET_SIGNAL_REQUEST`.
    pub fn signal(&self, reply: CtlReply) -> (r: Result<Signal, Error>)
        ensures
            r == signal_answer(OPUS_GET_SIGNAL_REQUEST, reply),
    {
        signal_reply(OPUS_GET_SIGNAL_REQUEST, reply)
    }

    /// Query the algorithmic lookahead in samples at 48 kHz.
    ///
    /// Reads the reply to the query `OPUS_GET_LOOKAHEAD_REQUEST`.
    pub fn lookahead(&self, reply: CtlReply) -> (r: Result<i32, Error>)
        ensures
            r == int_answer(OPUS_GET_LOOKAHEAD_REQUEST, reply),
    {
        int_reply(OPUS_GET_LOOKAHEAD_REQUEST, reply)
    }

    /// Reset the encoder state (retaining configuration).
    ///
    /// Returns the request to send to the encoder.
    pub fn reset(&self) -> (r: Result<CtlRequest, Error>)
        ensures
            r == Ok::<CtlRequest, Error>(CtlRequest::Plain { request: OPUS_RESET_STATE }),
    {
        Ok(CtlRequest::Plain { request: OPUS_RESET_STATE })
    }

    /// Channels of this encoder (interleaved input).
    pub fn channels(&self) -> (n: u8)
        ensures
            n == self.channel_count(),
    {
        self.channels
    }

    /// Input sampling rate.
    pub fn sample_rate(&self) -> (r: SampleRate)
        ensures
            r == self.rate(),
    {
        self.sample_rate
    }

    /// Number of mono streams.
    pub fn streams(&self) -> (n: u8)
        ensures
            n == self.stream_count(),
    {
        self.streams
    }

    /// Number of coupled streams.
    pub fn coupled_streams(&self) -> (n: u8)
        ensures
            n == self.coupled_count(),
    {
        self.coupled_streams
    }
}

/// The settings under which a multistream decoder was made, and the protocol for
/// controlling it.
pub struct MSDecoder {
    sample_rate: SampleRate,
    channels: u8,
}

impl MSDecoder {
    /// The sample rate the decoder was made for.
    pub closed spec fn rate(&self) -> SampleRate {
        self.sample_rate
    }

    /// The number of interleaved output channels.
    pub closed spec fn channel_count(&self) -> u8 {
        self.channels
    }

    /// Create a new multistream decoder.
    ///
    /// Fails with [`Error::BadArg`] where the mapping is not consistent; succeeds on every
    /// other input.
    pub fn new(sr: SampleRate, mapping: Mapping<'_>) -> (r: Result<Self, Error>)
        ensures
            match r {
                Ok(decoder) => {
                    &&& mapping.is_valid()
                    &&& decoder.rate() == sr
                    &&& decoder.channel_count() == mapping.channels
                },
                Err(e) => e == Error::BadArg && !mapping.is_valid(),
            },
    {
        match mapping.validate() {
            Err(e) => Err(e),
            Ok(()) => Ok(MSDecoder { sample_rate: sr, channels: mapping.channels }),
        }
    }

    /// Create a multistream decoder from the layout that the codec chose for `channels`
    /// channels of surround sound.
    ///
    /// Fails with [`Error::BadArg`] where there is no channel or where the numbers of
    /// streams that the codec reports do not fit into a byte; succeeds on every other
    /// input, and hands on the mapping table and the two numbers.
    pub fn new_surround(sr: SampleRate, channels: u8, layout: SurroundLayout) -> (r: Result<
        (Self, Vec<u8>, u8, u8),
        Error,
    >)
        ensures
            match r {
                Ok((decoder, table, streams, coupled)) => {
                    &&& channels != 0
                    &&& decoder.rate() == sr
                    &&& decoder.channel_count() == channels
                    &&& streams == layout.streams
                    &&& coupled == layout.coupled_streams
                    &&& table == layout.mapping
                },
                Err(e) => e == Error::BadArg && (channels == 0 || !(0 <= layout.streams <= 255)
                    || !(0 <= layout.coupled_streams <= 255)),
            },
    {
        if channels == 0 {
            return Err(Error::BadArg);
        }
        if layout.streams < 0 || layout.streams > 255 {
            return Err(Error::BadArg);
        }
        if layout.coupled_streams < 0 || layout.coupled_streams > 255 {
            return Err(Error::BadArg);
        }
        Ok(
            (
                MSDecoder { sample_rate: sr, channels },
                layout.mapping,
                layout.streams as u8,
                layout.coupled_streams as u8,
            ),
        )
    }

    /// Decode into interleaved i16 PCM (`frame_size` is per-channel).
    ///
    /// Checks the buffers and returns the call to make on the codec.
    pub fn decode(&self, packet: &[u8], out: &[i16], frame_size_per_ch: usize, fec: bool) -> (r:
        Result<CodecCall, Error>)
        ensures
            r == stream_decode_plan(
                self.channel_count() as int,
                packet@.len() as int,
                out@.len() as int,
                frame_size_per_ch as int,
                fec,
            ),
    {
        plan_stream_decode(self.channels, packet.len(), out.len(), frame_size_per_ch, fec)
    }

    /// Decode into interleaved PCM in floating point: `samples` is the number of samples
    /// the output buffer holds, over all channels.
    ///
    /// Checks the sizes and returns the call to make on the codec.
    pub fn decode_float(
        &self,
        packet: &[u8],
        samples: usize,
        frame_size_per_ch: usize,
        fec: bool,
    ) -> (r: Result<CodecCall, Error>)
        ensures
            r == stream_decode_plan(
                self.channel_count() as int,
                packet@.len() as int,
                samples as int,
                frame_size_per_ch as int,
                fec,
            ),
    {
        plan_stream_decode(self.channels, packet.len(), samples, frame_size_per_ch, fec)
    }

    /// Final RNG state from the last call.
    ///
    /// Reads the reply to the query `OPUS_GET_FINAL_RANGE_REQUEST`; the state is the value
    /// of the reply read as an unsigned number.
    pub fn final_range(&self, reply: CtlReply) -> (r: Result<u32, Error>)
        ensures
            r == (match int_answer(OPUS_GET_FINAL_RANGE_REQUEST, reply) {
                Ok(v) => Ok::<u32, Error>(v as u32),
                Err(e) => Err(e),
            }),
    {
        match int_reply(OPUS_GET_FINAL_RANGE_REQUEST, reply) {
            Ok(v) => Ok(v as u32),
            Err(e) => Err(e),
        }
    }

    /// Reset the decoder state (retaining configuration).
    ///
    /// Returns the request to send to the decoder.
    pub fn reset(&self) -> (r: Result<CtlRequest, Error>)
        ensures
            r == Ok::<CtlRequest, Error>(CtlRequest::Plain { request: OPUS_RESET_STATE }),
    {
        Ok(CtlRequest::Plain { request: OPUS_RESET_STATE })
    }

    /// Set post-decode gain in Q8 dB units.
    ///
    /// Returns the request to send to the decoder.
    pub fn set_gain(&self, q8_db: i32) -> (r: Result<CtlRequest, Error>)
        ensures
            r == Ok::<CtlRequest, Error>(
                CtlRequest::Assign { request: OPUS_SET_GAIN_REQUEST, value: q8_db },
            ),
    {
        Ok(CtlRequest::Assign { request: OPUS_SET_GAIN_REQUEST, value: q8_db })
    }

    /// Query post-decode gain in Q8 dB units.
    ///
    /// Reads the reply to the query `OPUS_GET_GAIN_REQUEST`.
    pub fn gain(&self, reply: CtlReply) -> (r: Result<i32, Error>)
        ensures
            r == int_answer(OPUS_GET_GAIN_REQUEST, reply),
    {
        int_reply(OPUS_GET_GAIN_REQUEST, reply)
    }

    /// Disable/enable phase inversion (CELT stereo decorrelation).
    ///
    /// Returns the request to send to the decoder.
    pub fn set_phase_inversion_disabled(&self, disabled: bool) -> (r: Result<CtlRequest, Error>)
        ensures
            r == Ok::<CtlRequest, Error>(
                CtlRequest::Assign {
                    request: OPUS_SET_PHASE_INVERSION_DISABLED_REQUEST,
                    value: flag(disabled),
                },
            ),
    {
        Ok(set_flag(OPUS_SET_PHASE_INVERSION_DISABLED_REQUEST, disabled))
    }

    /// Query the phase inversion disabled flag.
    ///
    /// Reads the reply to the query `OPUS_GET_PHASE_INVERSION_DISABLED_REQUEST`.
    pub fn phase_inversion_disabled(&self, reply: CtlReply) -> (r: Result<bool, Error>)
        ensures
            r == bool_answer(OPUS_GET_PHASE_INVERSION_DISABLED_REQUEST, reply),
    {
        bool_reply(OPUS_GET_PHASE_INVERSION_DISABLED_REQUEST, reply)
    }

    /// Query the decoder output sample rate.
    ///
    /// Reads the reply to the query `OPUS_GET_SAMPLE_RATE_REQUEST`.
    pub fn get_sample_rate(&self, reply: CtlReply) -> (r: Result<i32, Error>)
        ensures
            r == int_answer(OPUS_GET_SAMPLE_RATE_REQUEST, reply),
    {
        int_reply(OPUS_GET_SAMPLE_RATE_REQUEST, reply)
    }

    /// Query the pitch (fundamental period) of the last decoded frame.
    ///
    /// Reads the reply to the query `OPUS_GET_PITCH_REQUEST`.
    pub fn get_pitch(&self, reply: CtlReply) -> (r: Result<i32, Error>)
        ensures
            r == int_answer(OPUS_GET_PITCH_REQUEST, reply),
    {
        int_reply(OPUS_GET_PITCH_REQUEST, reply)
    }

    /// Duration (per channel) of the last decoded packet.
    ///
    /// Reads the reply to the query `OPUS_GET_LAST_PACKET_DURATION_REQUEST`.
    pub fn get_last_packet_duration(&self, reply: CtlReply) -> (r: Result<i32, Error>)
        ensures
            r == int_answer(OPUS_GET_LAST_PACKET_DURATION_REQUEST, reply),
    {
        int_reply(OPUS_GET_LAST_PACKET_DURATION_REQUEST, reply)
    }

    /// Output channels (interleaved).
    pub fn channels(&self) -> (n: u8)
        ensures
            n == self.channel_count(),
    {
        self.channels
    }

    /// Output sampling rate.
    pub fn sample_rate(&self) -> (r: SampleRate)
        ensures
            r == self.rate(),
    {
        self.sample_rate
    }
}

} // verus!
