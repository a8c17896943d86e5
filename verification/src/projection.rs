//! Projection (ambisonics) coding: the control protocol of projection encoders and
//! decoders.

use vstd::prelude::*;
use crate::constants::{max_frame_samples, max_frame_samples_for};
use crate::ctl::{
    bitrate_answer, bitrate_reply, int_answer, int_reply, CodecCall, CtlReply, CtlRequest,
    OPUS_GET_BITRATE_REQUEST, OPUS_PROJECTION_GET_DEMIXING_MATRIX_GAIN_REQUEST,
    OPUS_PROJECTION_GET_DEMIXING_MATRIX_REQUEST,
    OPUS_PROJECTION_GET_DEMIXING_MATRIX_SIZE_REQUEST, OPUS_SET_BITRATE_REQUEST,
};
use crate::error::Error;
use crate::multistream::is_whole_frame;
use crate::types::{Bitrate, SampleRate};

verus! {

/// What a frame size is as the codec takes it: refused where it is zero or above 120 ms of
/// samples.
pub open spec fn frame_size_checked(sample_rate: SampleRate, frame_size: int) -> Result<
    i32,
    Error,
> {
    if frame_size == 0 || frame_size > max_frame_samples(sample_rate) {
        Err(Error::BadArg)
    } else {
        Ok(frame_size as i32)
    }
}

/// What a projection `encode` answers for `samples` samples of input in all, a frame of
/// `frame_size` samples per channel and an output buffer of `room` bytes: the call to
/// make, or a refusal. The buffer must not be empty nor larger than the codec can count;
/// the input must hold exactly one frame of every channel; and the frame must last
/// 120 ms at most.
pub open spec fn projection_encode_plan(
    sample_rate: SampleRate,
    channels: int,
    samples: int,
    frame_size: int,
    room: int,
) -> Result<CodecCall, Error> {
    if room == 0 || room > i32::MAX || samples != frame_size * channels || frame_size == 0
        || frame_size > max_frame_samples(sample_rate) {
        Err(Error::BadArg)
    } else {
        Ok(CodecCall { packet_len: room as i32, frame_size: frame_size as i32, fec: false })
    }
}

/// What a projection `decode` answers: the call to make, or a refusal. The output buffer
/// must hold exactly one frame of every channel; the frame must last 120 ms at most; and
/// the packet must not be larger than the codec can count. An empty packet stands for a
/// lost one.
pub open spec fn projection_decode_plan(
    sample_rate: SampleRate,
    channels: int,
    packet_len: int,
    samples: int,
    frame_size: int,
    fec: bool,
) -> Result<CodecCall, Error> {
    if samples != frame_size * channels || frame_size == 0 || frame_size > max_frame_samples(
        sample_rate,
    ) || packet_len > i32::MAX {
        Err(Error::BadArg)
    } else {
        Ok(CodecCall { packet_len: packet_len as i32, frame_size: frame_size as i32, fec })
    }
}

/// What the size of the demixing matrix is, as a query reports it: an internal error where
/// the size is not positive.
pub open spec fn matrix_size(reply: CtlReply) -> Result<usize, Error> {
    match int_answer(OPUS_PROJECTION_GET_DEMIXING_MATRIX_SIZE_REQUEST, reply) {
        Ok(size) => if size <= 0 {
            Err(Error::InternalError)
        } else {
            Ok(size as usize)
        },
        Err(e) => Err(e),
    }
}

/// Checks a frame size against the limit of 120 ms.
fn check_frame_size(sample_rate: SampleRate, frame_size_per_ch: usize) -> (r: Result<i32, Error>)
    ensures
        r == frame_size_checked(sample_rate, frame_size_per_ch as int),
{
    if frame_size_per_ch == 0 || frame_size_per_ch > max_frame_samples_for(sample_rate) {
        return Err(Error::BadArg);
    }
    Ok(frame_size_per_ch as i32)
}

/// Reads the size of the demixing matrix from the reply to its query.
fn read_matrix_size(reply: CtlReply) -> (r: Result<usize, Error>)
    ensures
        r == matrix_size(reply),
        r is Ok ==> r.unwrap() <= i32::MAX,
{
    match int_reply(OPUS_PROJECTION_GET_DEMIXING_MATRIX_SIZE_REQUEST, reply) {
        Ok(size) => if size <= 0 {
            Err(Error::InternalError)
        } else {
            Ok(size as usize)
        },
        Err(e) => Err(e),
    }
}

/// The settings under which a projection encoder was made, and the protocol for
/// controlling it.
pub struct ProjectionEncoder {
    sample_rate: SampleRate,
    channels: u8,
    streams: u8,
    coupled_streams: u8,
}

impl ProjectionEncoder {
    /// The sample rate the encoder was made for.
    pub closed spec fn rate(&self) -> SampleRate {
        self.sample_rate
    }

    /// The number of interleaved input channels.
    pub closed spec fn channel_count(&self) -> u8 {
        self.channels
    }

    /// The number of coded streams.
    pub closed spec fn stream_count(&self) -> u8 {
        self.streams
    }

    /// The number of coupled streams.
    pub closed spec fn coupled_count(&self) -> u8 {
        self.coupled_streams
    }

    /// Create a new projection encoder from the numbers of streams that the codec chose
    /// for `channels` channels.
    ///
    /// Fails with [`Error::BadArg`] where either number does not fit into a byte; succeeds
    /// on every other input.
    pub fn new(sample_rate: SampleRate, channels: u8, streams: i32, coupled_streams: i32) -> (r:
        Result<Self, Error>)
        ensures
            match r {
                Ok(encoder) => {
                    &&& encoder.rate() == sample_rate
                    &&& encoder.channel_count() == channels
                    &&& encoder.stream_count() == streams
                    &&& encoder.coupled_count() == coupled_streams
                },
                Err(e) => e == Error::BadArg && (!(0 <= streams <= 255) || !(0
                    <= coupled_streams <= 255)),
            },
    {
        if streams < 0 || streams > 255 {
            return Err(Error::BadArg);
        }
        if coupled_streams < 0 || coupled_streams > 255 {
            return Err(Error::BadArg);
        }
        Ok(
            ProjectionEncoder {
                sample_rate,
                channels,
                streams: streams as u8,
                coupled_streams: coupled_streams as u8,
            },
        )
    }

    /// Checks that a frame holds at least one sample per channel and lasts 120 ms at most.
    pub fn validate_frame_size(&self, frame_size_per_ch: usize) -> (r: Result<i32, Error>)
        ensures
            r == frame_size_checked(self.rate(), frame_size_per_ch as int),
    {
        check_frame_size(self.sample_rate, frame_size_per_ch)
    }

    /// Checks that `len` samples are exactly one frame of every channel.
    pub fn ensure_pcm_layout(&self, len: usize, frame_size_per_ch: usize) -> (r: Result<
        (),
        Error,
    >)
        ensures
            r == (if len == frame_size_per_ch * self.channel_count() {
                Ok::<(), Error>(())
            } else {
                Err(Error::BadArg)
            }),
    {
        if !is_whole_frame(self.channels, len, frame_size_per_ch) {
            return Err(Error::BadArg);
        }
        Ok(())
    }

    /// Encode interleaved `i16` PCM.
    ///
    /// Checks the buffers and returns the call to make on the codec.
    pub fn encode(&self, pcm: &[i16], frame_size_per_ch: usize, out: &[u8]) -> (r: Result<
        CodecCall,
        Error,
    >)
        ensures
            r == projection_encode_plan(
                self.rate(),
                self.channel_count() as int,
                pcm@.len() as int,
                frame_size_per_ch as int,
                out@.len() as int,
            ),
    {
        self.encode_float(pcm.len(), frame_size_per_ch, out)
    }

    /// Encode interleaved PCM in floating point: `samples` is the number of samples in the
    /// input, over all channels.
    ///
    /// Checks the sizes and returns the call to make on the codec.
    pub fn encode_float(&self, samples: usize, frame_size_per_ch: usize, out: &[u8]) -> (r:
        Result<CodecCall, Error>)
        ensures
            r == projection_encode_plan(
                self.rate(),
                self.channel_count() as int,
                samples as int,
                frame_size_per_ch as int,
                out@.len() as int,
            ),
    {
        if out.len() == 0 || out.len() > i32::MAX as usize {
            return Err(Error::BadArg);
        }
        match self.ensure_pcm_layout(samples, frame_size_per_ch) {
            Err(e) => {
                return Err(e);
            },
            Ok(()) => {},
        }
        let frame_size: i32 = match self.validate_frame_size(frame_size_per_ch) {
            Err(e) => {
                return Err(e);
            },
            Ok(frame_size) => frame_size,
        };
        Ok(CodecCall { packet_len: out.len() as i32, frame_size, fec: false })
    }

    /// Set target bitrate for the encoder.
    ///
    /// Returns the request to send to the encoder.
    pub fn set_bitrate(&self, bitrate: Bitrate) -> (r: Result<CtlRequest, Error>)
        ensures
            r == Ok::<CtlRequest, Error>(
                CtlRequest::Assign {
                    request: OPUS_SET_BITRATE_REQUEST,
                    value: bitrate.code() as i32,
                },
            ),
    {
        Ok(CtlRequest::Assign { request: OPUS_SET_BITRATE_REQUEST, value: bitrate.value() })
    }

    /// Query current bitrate configuration.
    ///
    /// Reads the reply to the query `OPUS_GET_BITRATE_REQUEST`.
    pub fn bitrate(&self, reply: CtlReply) -> (r: Result<Bitrate, Error>)
        ensures
            r == bitrate_answer(OPUS_GET_BITRATE_REQUEST, reply),
    {
        bitrate_reply(OPUS_GET_BITRATE_REQUEST, reply)
    }

    /// Size in bytes of the current demixing matrix.
    ///
    /// Reads the reply to the query `OPUS_PROJECTION_GET_DEMIXING_MATRIX_SIZE_REQUEST`.
    pub fn demixing_matrix_size(&self, reply: CtlReply) -> (r: Result<i32, Error>)
        ensures
            r == int_answer(OPUS_PROJECTION_GET_DEMIXING_MATRIX_SIZE_REQUEST, reply),
    {
        int_reply(OPUS_PROJECTION_GET_DEMIXING_MATRIX_SIZE_REQUEST, reply)
    }

    /// Gain (in Q8 dB) of the demixing matrix.
    ///
    /// Reads the reply to the query `OPUS_PROJECTION_GET_DEMIXING_MATRIX_GAIN_REQUEST`.
    pub fn demixing_matrix_gain(&self, reply: CtlReply) -> (r: Result<i32, Error>)
        ensures
            r == int_answer(OPUS_PROJECTION_GET_DEMIXING_MATRIX_GAIN_REQUEST, reply),
    {
        int_reply(OPUS_PROJECTION_GET_DEMIXING_MATRIX_GAIN_REQUEST, reply)
    }

    /// Copy the demixing matrix into `out`.
    ///
    /// Takes the reply to the query for the size of the matrix and returns the request
    /// that has the codec fill `out`. Fails as the reply says; with
    /// [`Error::InternalError`] where the size is not positive; and with
    /// [`Error::BufferTooSmall`] where `out` cannot hold the matrix.
    pub fn write_demixing_matrix(&self, size: CtlReply, out: &[u8]) -> (r: Result<
        CtlRequest,
        Error,
    >)
        ensures
            r == (match matrix_size(size) {
                Ok(needed) => if out@.len() < needed {
                    Err::<CtlRequest, Error>(Error::BufferTooSmall)
                } else {
                    Ok(
                        CtlRequest::Fill {
                            request: OPUS_PROJECTION_GET_DEMIXING_MATRIX_REQUEST,
                            len: needed as i32,
                        },
                    )
                },
                Err(e) => Err(e),
            }),
    {
        let needed: usize = match read_matrix_size(size) {
            Err(e) => {
                return Err(e);
            },
            Ok(needed) => needed,
        };
        if out.len() < needed {
            return Err(Error::BufferTooSmall);
        }
        Ok(
            CtlRequest::Fill {
                request: OPUS_PROJECTION_GET_DEMIXING_MATRIX_REQUEST,
                len: needed as i32,
            },
        )
    }

    /// A buffer for the demixing matrix, of the size that the reply to the query for the
    /// size of the matrix states, filled with zeros.
    ///
    /// Fails as the reply says, and with [`Error::InternalError`] where the size is not
    /// positive.
    pub fn demixing_matrix_bytes(&self, size: CtlReply) -> (r: Result<Vec<u8>, Error>)
        ensures
            match matrix_size(size) {
                Ok(needed) => r is Ok && r.unwrap()@.len() == needed && forall|i: int|
                    0 <= i < needed ==> r.unwrap()@[i] == 0,
                Err(e) => r == Err::<Vec<u8>, Error>(e),
            },
    {
        let needed: usize = match read_matrix_size(size) {
            Err(e) => {
                return Err(e);
            },
            Ok(needed) => needed,
        };
        Ok(vec![0u8; needed])
    }

    /// Number of coded streams.
    pub fn streams(&self) -> (n: u8)
        ensures
            n == self.stream_count(),
    {
        self.streams
    }

    /// Number of coupled (stereo) coded streams.
    pub fn coupled_streams(&self) -> (n: u8)
        ensures
            n == self.coupled_count(),
    {
        self.coupled_streams
    }

    /// Input channels passed to the encoder.
    pub fn channels(&self) -> (n: u8)
        ensures
            n == self.channel_count(),
    {
        self.channels
    }

    /// Encoder sample rate.
    pub fn sample_rate(&self) -> (r: SampleRate)
        ensures
            r == self.rate(),
    {
        self.sample_rate
    }
}

/// The settings under which a projection decoder was made, and the protocol for
/// controlling it.
pub struct ProjectionDecoder {
    sample_rate: SampleRate,
    channels: u8,
    streams: u8,
    coupled_streams: u8,
}

impl ProjectionDecoder {
    /// The sample rate the decoder was made for.
    pub closed spec fn rate(&self) -> SampleRate {
        self.sample_rate
    }

    /// The number of interleaved output channels.
    pub closed spec fn channel_count(&self) -> u8 {
        self.channels
    }

    /// The number of coded streams.
    pub closed spec fn stream_count(&self) -> u8 {
        self.streams
    }

    /// The number of coupled streams.
    pub closed spec fn coupled_count(&self) -> u8 {
        self.coupled_streams
    }

    /// Create a projection decoder given the demixing matrix provided by the encoder.
    ///
    /// Fails with [`Error::BadArg`] where the matrix is empty or larger than the codec can
    /// count; succeeds on every other input.
    pub fn new(
        sample_rate: SampleRate,
        channels: u8,
        streams: u8,
        coupled_streams: u8,
        demixing_matrix: &[u8],
    ) -> (r: Result<Self, Error>)
        ensures
            match r {
                Ok(decoder) => {
                    &&& 0 < demixing_matrix@.len() <= i32::MAX
                    &&& decoder.rate() == sample_rate
                    &&& decoder.channel_count() == channels
                    &&& decoder.stream_count() == streams
                    &&& decoder.coupled_count() == coupled_streams
                },
                Err(e) => e == Error::BadArg && !(0 < demixing_matrix@.len() <= i32::MAX),
            },
    {
        if demixing_matrix.len() == 0 || demixing_matrix.len() > i32::MAX as usize {
            return Err(Error::BadArg);
        }
        Ok(ProjectionDecoder { sample_rate, channels, streams, coupled_streams })
    }

    /// Checks that a frame holds at least one sample per channel and lasts 120 ms at most.
    pub fn validate_frame_size(&self, frame_size_per_ch: usize) -> (r: Result<i32, Error>)
        ensures
            r == frame_size_checked(self.rate(), frame_size_per_ch as int),
    {
        check_frame_size(self.sample_rate, frame_size_per_ch)
    }

    /// Checks that `len` samples are exactly one frame of every channel.
    pub fn ensure_output_layout(&self, len: usize, frame_size_per_ch: usize) -> (r: Result<
        (),
        Error,
    >)
        ensures
            r == (if len == frame_size_per_ch * self.channel_count() {
                Ok::<(), Error>(())
            } else {
                Err(Error::BadArg)
            }),
    {
        if !is_whole_frame(self.channels, len, frame_size_per_ch) {
            return Err(Error::BadArg);
        }
        Ok(())
    }

    /// Decode into interleaved `i16` PCM.
    ///
    /// Checks the buffers and returns the call to make on the codec.
    pub fn decode(&self, packet: &[u8], out: &[i16], frame_size_per_ch: usize, fec: bool) -> (r:
        Result<CodecCall, Error>)
        ensures
            r == projection_decode_plan(
                self.rate(),
                self.channel_count() as int,
                packet@.len() as int,
                out@.len() as int,
                frame_size_per_ch as int,
                fec,
            ),
    {
        self.decode_float(packet, out.len(), frame_size_per_ch, fec)
    }

    /// Decode into interleaved PCM in floating point: `samples` is the number of samples
    /// the output buffer holds, over all channels.
    ///
    /// Checks the sizes and returns the call to make on the codec.
    pub fn decode_float(
        &self,
        packet: &[u8],
        samples: usize,
        frame_size_per_ch: usize,
        fec: bool,
    ) -> (r: Result<CodecCall, Error>)
        ensures
            r == projection_decode_plan(
                self.rate(),
                self.channel_count() as int,
                packet@.len() as int,
                samples as int,
                frame_size_per_ch as int,
                fec,
            ),
    {
        match self.ensure_output_layout(samples, frame_size_per_ch) {
            Err(e) => {
                return Err(e);
            },
            Ok(()) => {},
        }
        let frame_size: i32 = match self.validate_frame_size(frame_size_per_ch) {
            Err(e) => {
                return Err(e);
            },
            Ok(frame_size) => frame_size,
        };
        if packet.len() > i32::MAX as usize {
            return Err(Error::BadArg);
        }
        Ok(CodecCall { packet_len: packet.len() as i32, frame_size, fec })
    }

    /// Output channel count.
    pub fn channels(&self) -> (n: u8)
        ensures
            n == self.channel_count(),
    {
        self.channels
    }

    /// Number of coded streams expected in the input bitstream.
    pub fn streams(&self) -> (n: u8)
        ensures
            n == self.stream_count(),
    {
        self.streams
    }

    /// Number of coupled coded streams expected in the input bitstream.
    pub fn coupled_streams(&self) -> (n: u8)
        ensures
            n == self.coupled_count(),
    {
        self.coupled_streams
    }

    /// Decoder sample rate.
    pub fn sample_rate(&self) -> (r: SampleRate)
        ensures
            r == self.rate(),
    {
        self.sample_rate
    }
}

} // verus!
