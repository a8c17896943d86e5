//! The control protocol of the codec's objects: the requests that a caller sends to an
//! encoder or decoder, and the reading of what comes back.
//!
//! Nothing here talks to a codec. A setter of an encoder or decoder returns the request to
//! send; a getter takes the reply to its query and returns the typed value it holds. The
//! program that owns the codec object carries the one to it and brings the other back.

use vstd::prelude::*;
use crate::error::Error;
use crate::types::{
    Bandwidth, Bitrate, Channels, Complexity, ExpertFrameDuration, Signal, OPUS_AUTO,
    OPUS_BITRATE_MAX,
};

verus! {

/// Request number: set the target bitrate.
pub const OPUS_SET_BITRATE_REQUEST: i32 = 4002;

/// Request number: query the target bitrate.
pub const OPUS_GET_BITRATE_REQUEST: i32 = 4003;

/// Request number: set the widest bandwidth the encoder may choose.
pub const OPUS_SET_MAX_BANDWIDTH_REQUEST: i32 = 4004;

/// Request number: query the widest bandwidth the encoder may choose.
pub const OPUS_GET_MAX_BANDWIDTH_REQUEST: i32 = 4005;

/// Request number: switch variable bitrate on or off.
pub const OPUS_SET_VBR_REQUEST: i32 = 4006;

/// Request number: query whether variable bitrate is on.
pub const OPUS_GET_VBR_REQUEST: i32 = 4007;

/// Request number: set the bandwidth.
pub const OPUS_SET_BANDWIDTH_REQUEST: i32 = 4008;

/// Request number: query the bandwidth.
pub const OPUS_GET_BANDWIDTH_REQUEST: i32 = 4009;

/// Request number: set the computational complexity.
pub const OPUS_SET_COMPLEXITY_REQUEST: i32 = 4010;

/// Request number: query the computational complexity.
pub const OPUS_GET_COMPLEXITY_REQUEST: i32 = 4011;

/// Request number: switch in-band forward error correction on or off.
pub const OPUS_SET_INBAND_FEC_REQUEST: i32 = 4012;

/// Request number: query in-band forward error correction.
pub const OPUS_GET_INBAND_FEC_REQUEST: i32 = 4013;

/// Request number: set the expected packet loss in percent.
pub const OPUS_SET_PACKET_LOSS_PERC_REQUEST: i32 = 4014;

/// Request number: query the expected packet loss in percent.
pub const OPUS_GET_PACKET_LOSS_PERC_REQUEST: i32 = 4015;

/// Request number: switch discontinuous transmission on or off.
pub const OPUS_SET_DTX_REQUEST: i32 = 4016;

/// Request number: query discontinuous transmission.
pub const OPUS_GET_DTX_REQUEST: i32 = 4017;

/// Request number: switch the constraint on variable bitrate on or off.
pub const OPUS_SET_VBR_CONSTRAINT_REQUEST: i32 = 4020;

/// Request number: query the constraint on variable bitrate.
pub const OPUS_GET_VBR_CONSTRAINT_REQUEST: i32 = 4021;

/// Request number: force mono or stereo coding, or leave the choice to the encoder.
pub const OPUS_SET_FORCE_CHANNELS_REQUEST: i32 = 4022;

/// Request number: query forced channels.
pub const OPUS_GET_FORCE_CHANNELS_REQUEST: i32 = 4023;

/// Request number: set the signal hint.
pub const OPUS_SET_SIGNAL_REQUEST: i32 = 4024;

/// Request number: query the signal hint.
pub const OPUS_GET_SIGNAL_REQUEST: i32 = 4025;

/// Request number: query the encoder's lookahead.
pub const OPUS_GET_LOOKAHEAD_REQUEST: i32 = 4027;

/// Request number: reset the codec state.
pub const OPUS_RESET_STATE: i32 = 4028;

/// Request number: query the sample rate.
pub const OPUS_GET_SAMPLE_RATE_REQUEST: i32 = 4029;

/// Request number: query the final state of the range coder.
pub const OPUS_GET_FINAL_RANGE_REQUEST: i32 = 4031;

/// Request number: query the pitch of the last decoded frame.
pub const OPUS_GET_PITCH_REQUEST: i32 = 4033;

/// Request number: set the decoder gain.
pub const OPUS_SET_GAIN_REQUEST: i32 = 4034;

/// Request number: set the depth of the input signal in bits.
pub const OPUS_SET_LSB_DEPTH_REQUEST: i32 = 4036;

/// Request number: query the depth of the input signal in bits.
pub const OPUS_GET_LSB_DEPTH_REQUEST: i32 = 4037;

/// Request number: query the duration of the last decoded packet.
pub const OPUS_GET_LAST_PACKET_DURATION_REQUEST: i32 = 4039;

/// Request number: set the expert frame duration.
pub const OPUS_SET_EXPERT_FRAME_DURATION_REQUEST: i32 = 4040;

/// Request number: query the expert frame duration.
pub const OPUS_GET_EXPERT_FRAME_DURATION_REQUEST: i32 = 4041;

/// Request number: switch prediction off or on.
pub const OPUS_SET_PREDICTION_DISABLED_REQUEST: i32 = 4042;

/// Request number: query whether prediction is off.
pub const OPUS_GET_PREDICTION_DISABLED_REQUEST: i32 = 4043;

/// Request number: query the decoder gain.
pub const OPUS_GET_GAIN_REQUEST: i32 = 4045;

/// Request number: switch phase inversion off or on.
pub const OPUS_SET_PHASE_INVERSION_DISABLED_REQUEST: i32 = 4046;

/// Request number: query whether phase inversion is off.
pub const OPUS_GET_PHASE_INVERSION_DISABLED_REQUEST: i32 = 4047;

/// Request number: query whether the encoder is in discontinuous transmission.
pub const OPUS_GET_IN_DTX_REQUEST: i32 = 4049;

/// Request number: set the duration of deep redundancy.
pub const OPUS_SET_DRED_DURATION_REQUEST: i32 = 4050;

/// Request number: query the duration of deep redundancy.
pub const OPUS_GET_DRED_DURATION_REQUEST: i32 = 4051;

/// Request number: query the gain of the demixing matrix.
pub const OPUS_PROJECTION_GET_DEMIXING_MATRIX_GAIN_REQUEST: i32 = 6001;

/// Request number: query the size of the demixing matrix.
pub const OPUS_PROJECTION_GET_DEMIXING_MATRIX_SIZE_REQUEST: i32 = 6003;

/// Request number: copy the demixing matrix.
pub const OPUS_PROJECTION_GET_DEMIXING_MATRIX_REQUEST: i32 = 6005;

/// What a caller sends to a codec object.
#[derive(Debug, Clone, Copy, PartialEq, Eq, Structural)]
pub enum CtlRequest {
    /// Set the parameter that `request` names to `value`.
    Assign {
        /// The request number.
        request: i32,
        /// The new value.
        value: i32,
    },
    /// Ask for the value of the parameter that `request` names.
    Query {
        /// The request number.
        request: i32,
    },
    /// Ask the codec to fill a buffer of `len` bytes.
    Fill {
        /// The request number.
        request: i32,
        /// The number of bytes asked for.
        len: i32,
    },
    /// A request without an argument.
    Plain {
        /// The request number.
        request: i32,
    },
}

/// What a codec object answers to a query.
#[derive(Debug, Clone, Copy, PartialEq, Eq, Structural)]
pub struct CtlReply {
    /// The request number of the query that this answers.
    pub request: i32,
    /// The status code of the call: zero for success.
    pub status: i32,
    /// The value reported; it means something only where the status is zero.
    pub value: i32,
}

/// The arguments of one call that encodes or decodes a frame, as the codec takes them.
#[derive(Debug, Clone, Copy, PartialEq, Eq, Structural)]
pub struct CodecCall {
    /// The number of bytes of the packet: the room for the packet to write when encoding,
    /// the length of the packet to read when decoding, zero for a lost packet.
    pub packet_len: i32,
    /// The number of samples per channel.
    pub frame_size: i32,
    /// Whether forward error correction data is to be decoded.
    pub fec: bool,
}

/// The number that stands for a switch: one for on, zero for off.
pub open spec fn flag(on: bool) -> i32 {
    if on {
        1
    } else {
        0
    }
}

/// What a status code means for a call that returns no value: success for zero, else the
/// error that the code stands for.
pub open spec fn status_meaning(status: i32) -> Result<(), Error> {
    if status == 0 {
        Ok(())
    } else {
        Err(Error::of_code(status as int))
    }
}

/// What a returned length means: the error that a negative number stands for, else the
/// length.
pub open spec fn length_meaning(n: i32) -> Result<usize, Error> {
    if n < 0 {
        Err(Error::of_code(n as int))
    } else {
        Ok(n as usize)
    }
}

/// The number that a reply holds for the query `request`: refused where the reply answers
/// another request, the error of the status where the call failed, else the value.
pub open spec fn int_answer(request: i32, reply: CtlReply) -> Result<i32, Error> {
    if reply.request != request {
        Err(Error::BadArg)
    } else if reply.status != 0 {
        Err(Error::of_code(reply.status as int))
    } else {
        Ok(reply.value)
    }
}

/// The switch that a reply holds: on for every value but zero.
pub open spec fn bool_answer(request: i32, reply: CtlReply) -> Result<bool, Error> {
    match int_answer(request, reply) {
        Ok(v) => Ok(v != 0),
        Err(e) => Err(e),
    }
}

/// The bandwidth that a reply holds; a value that is no bandwidth is an internal error.
pub open spec fn bandwidth_answer(request: i32, reply: CtlReply) -> Result<Bandwidth, Error> {
    match int_answer(request, reply) {
        Ok(v) => match Bandwidth::of_code(v as int) {
            Some(bw) => Ok(bw),
            None => Err(Error::InternalError),
        },
        Err(e) => Err(e),
    }
}

/// The bitrate choice that a reply holds.
pub open spec fn bitrate_answer(request: i32, reply: CtlReply) -> Result<Bitrate, Error> {
    match int_answer(request, reply) {
        Ok(v) => Ok(Bitrate::of_code(v as int)),
        Err(e) => Err(e),
    }
}

/// The forced channel layout that a reply holds: mono for one, stereo for two, none for
/// every other value.
pub open spec fn channels_answer(request: i32, reply: CtlReply) -> Result<
    Option<Channels>,
    Error,
> {
    match int_answer(request, reply) {
        Ok(v) => Ok(
            if v == 1 {
                Some(Channels::Mono)
            } else if v == 2 {
                Some(Channels::Stereo)
            } else {
                None
            },
        ),
        Err(e) => Err(e),
    }
}

/// The signal hint that a reply holds; a value that is no hint is an internal error.
pub open spec fn signal_answer(request: i32, reply: CtlReply) -> Result<Signal, Error> {
    match int_answer(request, reply) {
        Ok(v) => if v == 3001 {
            Ok(Signal::Voice)
        } else if v == 3002 {
            Ok(Signal::Music)
        } else {
            Err(Error::InternalError)
        },
        Err(e) => Err(e),
    }
}

/// The complexity that a reply holds; a value outside 0..=10 is an internal error.
pub open spec fn complexity_answer(request: i32, reply: CtlReply) -> Result<int, Error> {
    match int_answer(request, reply) {
        Ok(v) => if 0 <= v <= 10 {
            Ok(v as int)
        } else {
            Err(Error::InternalError)
        },
        Err(e) => Err(e),
    }
}

/// The frame duration that a number of the codec stands for: the named durations for
/// 5001 to 5008, and 120 ms for every other number.
pub open spec fn duration_of_code(v: int) -> ExpertFrameDuration {
    if v == 5001 {
        ExpertFrameDuration::Ms2_5
    } else if v == 5002 {
        ExpertFrameDuration::Ms5
    } else if v == 5003 {
        ExpertFrameDuration::Ms10
    } else if v == 5004 {
        ExpertFrameDuration::Ms20
    } else if v == 5005 {
        ExpertFrameDuration::Ms40
    } else if v == 5006 {
        ExpertFrameDuration::Ms60
    } else if v == 5007 {
        ExpertFrameDuration::Ms80
    } else if v == 5008 {
        ExpertFrameDuration::Ms100
    } else {
        ExpertFrameDuration::Ms120
    }
}

/// The frame duration that a reply holds; a negative value is an internal error.
pub open spec fn duration_answer(request: i32, reply: CtlReply) -> Result<
    ExpertFrameDuration,
    Error,
> {
    match int_answer(request, reply) {
        Ok(v) => if v < 0 {
            Err(Error::InternalError)
        } else {
            Ok(duration_of_code(v as int))
        },
        Err(e) => Err(e),
    }
}

/// The reply of a codec that reports `value` for the query `request`.
pub open spec fn echo(request: i32, value: i32) -> CtlReply {
    CtlReply { request, status: 0, value }
}

/// Reads the status code of a call that returns no value.
pub fn status_result(status: i32) -> (r: Result<(), Error>)
    ensures
        r == status_meaning(status),
{
    if status == 0 {
        Ok(())
    } else {
        Err(Error::from_code(status))
    }
}

/// Reads the number that an encode or decode call returned: a length, or a negative
/// status code.
pub fn length_result(n: i32) -> (r: Result<usize, Error>)
    ensures
        r == length_meaning(n),
{
    if n < 0 {
        Err(Error::from_code(n))
    } else {
        Ok(n as usize)
    }
}

/// Reads a number from the reply to the query `request`.
pub fn int_reply(request: i32, reply: CtlReply) -> (r: Result<i32, Error>)
    ensures
        r == int_answer(request, reply),
{
    if reply.request != request {
        Err(Error::BadArg)
    } else if reply.status != 0 {
        Err(Error::from_code(reply.status))
    } else {
        Ok(reply.value)
    }
}

/// Reads a switch from the reply to the query `request`.
pub fn bool_reply(request: i32, reply: CtlReply) -> (r: Result<bool, Error>)
    ensures
        r == bool_answer(request, reply),
{
    match int_reply(request, reply) {
        Ok(v) => Ok(v != 0),
        Err(e) => Err(e),
    }
}

/// Reads a bandwidth from the reply to the query `request`.
pub fn bandwidth_reply(request: i32, reply: CtlReply) -> (r: Result<Bandwidth, Error>)
    ensures
        r == bandwidth_answer(request, reply),
{
    match int_reply(request, reply) {
        Ok(v) => match Bandwidth::from_i32(v) {
            Some(bw) => Ok(bw),
            None => Err(Error::InternalError),
        },
        Err(e) => Err(e),
    }
}

/// Reads a bitrate choice from the reply to the query `request`.
pub fn bitrate_reply(request: i32, reply: CtlReply) -> (r: Result<Bitrate, Error>)
    ensures
        r == bitrate_answer(request, reply),
{
    match int_reply(request, reply) {
        Ok(v) => Ok(Bitrate::from_i32(v)),
        Err(e) => Err(e),
    }
}

/// Reads a forced channel layout from the reply to the query `request`.
pub fn channels_reply(request: i32, reply: CtlReply) -> (r: Result<Option<Channels>, Error>)
    ensures
        r == channels_answer(request, reply),
{
    match int_reply(request, reply) {
        Ok(v) => Ok(
            if v == 1 {
                Some(Channels::Mono)
            } else if v == 2 {
                Some(Channels::Stereo)
            } else {
                None
            },
        ),
        Err(e) => Err(e),
    }
}

/// Reads a signal hint from the reply to the query `request`.
pub fn signal_reply(request: i32, reply: CtlReply) -> (r: Result<Signal, Error>)
    ensures
        r == signal_answer(request, reply),
{
    match int_reply(request, reply) {
        Ok(v) => if v == 3001 {
            Ok(Signal::Voice)
        } else if v == 3002 {
            Ok(Signal::Music)
        } else {
            Err(Error::InternalError)
        },
        Err(e) => Err(e),
    }
}

/// Reads a complexity from the reply to the query `request`.
pub fn complexity_reply(request: i32, reply: CtlReply) -> (r: Result<Complexity, Error>)
    ensures
        match complexity_answer(request, reply) {
            Ok(level) => r is Ok && r.unwrap().level() == level,
            Err(e) => r == Err::<Complexity, Error>(e),
        },
{
    match int_reply(request, reply) {
        Ok(v) => if 0 <= v && v <= 10 {
            Ok(Complexity::new(v as u32))
        } else {
            Err(Error::InternalError)
        },
        Err(e) => Err(e),
    }
}

/// Reads a frame duration from the reply to the query `request`.
pub fn duration_reply(request: i32, reply: CtlReply) -> (r: Result<ExpertFrameDuration, Error>)
    ensures
        r == duration_answer(request, reply),
{
    match int_reply(request, reply) {
        Ok(v) => if v < 0 {
            Err(Error::InternalError)
        } else if v == 5001 {
            Ok(ExpertFrameDuration::Ms2_5)
        } else if v == 5002 {
            Ok(ExpertFrameDuration::Ms5)
        } else if v == 5003 {
            Ok(ExpertFrameDuration::Ms10)
        } else if v == 5004 {
            Ok(ExpertFrameDuration::Ms20)
        } else if v == 5005 {
            Ok(ExpertFrameDuration::Ms40)
        } else if v == 5006 {
            Ok(ExpertFrameDuration::Ms60)
        } else if v == 5007 {
            Ok(ExpertFrameDuration::Ms80)
        } else if v == 5008 {
            Ok(ExpertFrameDuration::Ms100)
        } else {
            Ok(ExpertFrameDuration::Ms120)
        },
        Err(e) => Err(e),
    }
}

/// The request that sets a switch.
pub fn set_flag(request: i32, on: bool) -> (r: CtlRequest)
    ensures
        r == (CtlRequest::Assign { request, value: flag(on) }),
{
    CtlRequest::Assign { request, value: if on { 1 } else { 0 } }
}

/// A codec that reports back what it was told reports values that read as what was
/// set: for every bandwidth, signal hint, channel choice, frame duration and switch, and
/// for every bitrate but an explicit rate of -1 or -1000, the two numbers that stand for
/// the other choices.
pub proof fn settings_read_back(
    request: i32,
    bandwidth: Bandwidth,
    signal: Signal,
    channels: Channels,
    duration: ExpertFrameDuration,
    bitrate: Bitrate,
    on: bool,
)
    ensures
        bandwidth_answer(request, echo(request, bandwidth.code() as i32)) == Ok::<
            Bandwidth,
            Error,
        >(bandwidth),
        signal_answer(request, echo(request, signal.code() as i32)) == Ok::<Signal, Error>(
            signal,
        ),
        channels_answer(request, echo(request, channels.count() as i32)) == Ok::<
            Option<Channels>,
            Error,
        >(Some(channels)),
        channels_answer(request, echo(request, OPUS_AUTO)) == Ok::<Option<Channels>, Error>(None),
        duration_answer(request, echo(request, duration.code() as i32)) == Ok::<
            ExpertFrameDuration,
            Error,
        >(duration),
        bool_answer(request, echo(request, flag(on))) == Ok::<bool, Error>(on),
        bitrate != Bitrate::Custom(OPUS_BITRATE_MAX) && bitrate != Bitrate::Custom(OPUS_AUTO)
            ==> bitrate_answer(
            request,
            echo(request, bitrate.code() as i32),
        ) == Ok::<Bitrate, Error>(bitrate),
{
}

} // verus!
