//! Packet framing, padding and repacketization for Opus audio packets, together with the
//! typed control protocol of the codec's encoder and decoder objects.

use vstd::prelude::*;

pub mod constants;
pub mod ctl;
pub mod decoder;
pub mod dred;
pub mod encoder;
pub mod encoding;
pub mod error;
pub mod framing;
pub mod multistream;
pub mod packet;
pub mod padding;
pub mod projection;
pub mod repacketizer;
pub mod types;
pub mod writer;

pub use constants::{max_frame_samples_for, MAX_FRAME_SAMPLES_48KHZ, MAX_PACKET_DURATION_MS};
pub use ctl::{CodecCall, CtlReply, CtlRequest};
pub use decoder::Decoder;
pub use encoder::Encoder;
pub use error::Error;
pub use multistream::{MSDecoder, MSEncoder, Mapping};
pub use packet::{
    packet_bandwidth, packet_channels, packet_has_lbrr, packet_nb_frames, packet_nb_samples,
    packet_parse, packet_samples_per_frame, soft_clip,
};
pub use padding::{
    multistream_packet_pad, multistream_packet_unpad, packet_pad, packet_unpad,
};
pub use projection::{ProjectionDecoder, ProjectionEncoder};
pub use repacketizer::Repacketizer;
pub use types::{
    Application, Bandwidth, Bitrate, Channels, Complexity, ExpertFrameDuration, FrameSize,
    SampleRate, Signal,
};

verus! {

/// The version string of the codec release whose interface this crate follows.
pub fn version() -> (v: &'static str)
    ensures
        v@ == "1.5.2"@,
{
    "1.5.2"
}

} // verus!
