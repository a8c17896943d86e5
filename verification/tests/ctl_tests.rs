use opus_codec::ctl::{
    length_result, status_result, CodecCall, CtlReply, CtlRequest, OPUS_GET_BANDWIDTH_REQUEST,
    OPUS_GET_BITRATE_REQUEST, OPUS_GET_COMPLEXITY_REQUEST, OPUS_GET_DTX_REQUEST,
    OPUS_GET_EXPERT_FRAME_DURATION_REQUEST, OPUS_GET_FINAL_RANGE_REQUEST,
    OPUS_GET_FORCE_CHANNELS_REQUEST, OPUS_GET_GAIN_REQUEST, OPUS_GET_INBAND_FEC_REQUEST,
    OPUS_GET_LAST_PACKET_DURATION_REQUEST, OPUS_GET_LSB_DEPTH_REQUEST,
    OPUS_GET_MAX_BANDWIDTH_REQUEST, OPUS_GET_PACKET_LOSS_PERC_REQUEST,
    OPUS_GET_PHASE_INVERSION_DISABLED_REQUEST, OPUS_GET_SAMPLE_RATE_REQUEST,
    OPUS_GET_SIGNAL_REQUEST, OPUS_GET_VBR_CONSTRAINT_REQUEST, OPUS_GET_VBR_REQUEST,
    OPUS_PROJECTION_GET_DEMIXING_MATRIX_REQUEST, OPUS_PROJECTION_GET_DEMIXING_MATRIX_SIZE_REQUEST,
    OPUS_RESET_STATE, OPUS_SET_BITRATE_REQUEST, OPUS_SET_GAIN_REQUEST,
};
use opus_codec::{
    Application, Bandwidth, Bitrate, Channels, Complexity, Decoder, Encoder, Error,
    ExpertFrameDuration, MSDecoder, MSEncoder, Mapping, ProjectionDecoder, ProjectionEncoder,
    SampleRate, Signal,
};

fn assert_send_sync<T: Send + Sync>() {}

/// The reply of a codec that stores what it is told: to the query `query` it reports the
/// value that `request` set.
fn stored(query: i32, request: CtlRequest) -> CtlReply {
    match request {
        CtlRequest::Assign { value, .. } => CtlReply { request: query, status: 0, value },
        other => panic!("not a request that sets a value: {other:?}"),
    }
}

/// The reply of a codec that reports `value` to the query `query`.
fn reported(query: i32, value: i32) -> CtlReply {
    CtlReply { request: query, status: 0, value }
}

#[test]
fn decoder_control_roundtrip() {
    let sr = SampleRate::Hz48000;
    let decoder = Decoder::new(sr, Channels::Stereo).expect("create decoder");

    let set = decoder.set_gain(256).expect("set gain");
    assert_eq!(set, CtlRequest::Assign { request: OPUS_SET_GAIN_REQUEST, value: 256 });
    assert_eq!(decoder.gain(stored(OPUS_GET_GAIN_REQUEST, set)).expect("get gain"), 256);

    let set = decoder
        .set_phase_inversion_disabled(true)
        .expect("disable phase inversion");
    assert!(
        decoder
            .phase_inversion_disabled(stored(OPUS_GET_PHASE_INVERSION_DISABLED_REQUEST, set))
            .expect("phase inversion flag")
    );

    let set = decoder
        .set_phase_inversion_disabled(false)
        .expect("enable phase inversion");
    assert!(
        !decoder
            .phase_inversion_disabled(stored(OPUS_GET_PHASE_INVERSION_DISABLED_REQUEST, set))
            .expect("phase inversion flag")
    );

    assert_eq!(
        decoder
            .get_sample_rate(reported(OPUS_GET_SAMPLE_RATE_REQUEST, decoder.sample_rate().as_i32()))
            .expect("sample rate"),
        sr.as_i32()
    );

    assert_eq!(
        decoder
            .get_last_packet_duration(reported(OPUS_GET_LAST_PACKET_DURATION_REQUEST, 0))
            .expect("last packet duration"),
        0
    );
}

#[test]
fn encoder_control_roundtrip() {
    let sr = SampleRate::Hz48000;
    let encoder = Encoder::new(sr, Channels::Stereo, Application::Audio).expect("create encoder");

    let set = encoder
        .set_bitrate(Bitrate::Custom(96_000))
        .expect("set bitrate");
    assert_eq!(set, CtlRequest::Assign { request: OPUS_SET_BITRATE_REQUEST, value: 96_000 });
    match encoder.bitrate(stored(OPUS_GET_BITRATE_REQUEST, set)).expect("get bitrate") {
        Bitrate::Custom(bps) => assert_eq!(bps, 96_000),
        other => panic!("unexpected bitrate variant: {other:?}"),
    }

    let set = encoder
        .set_complexity(Complexity::new(4))
        .expect("set complexity");
    assert_eq!(
        encoder
            .complexity(stored(OPUS_GET_COMPLEXITY_REQUEST, set))
            .expect("get complexity")
            .value(),
        4
    );

    let set = encoder.set_vbr(false).expect("disable vbr");
    assert!(!encoder.vbr(stored(OPUS_GET_VBR_REQUEST, set)).expect("get vbr"));

    let set = encoder
        .set_vbr_constraint(true)
        .expect("set vbr constraint");
    assert!(encoder
        .vbr_constraint(stored(OPUS_GET_VBR_CONSTRAINT_REQUEST, set))
        .expect("get vbr constraint"));

    let set = encoder.set_inband_fec(true).expect("enable fec");
    assert!(encoder.inband_fec(stored(OPUS_GET_INBAND_FEC_REQUEST, set)).expect("get fec"));

    let set = encoder.set_packet_loss_perc(15).expect("set packet loss");
    assert_eq!(
        encoder
            .packet_loss_perc(stored(OPUS_GET_PACKET_LOSS_PERC_REQUEST, set))
            .expect("get packet loss"),
        15
    );

    let set = encoder.set_signal(Signal::Music).expect("set signal");
    assert_eq!(
        encoder.signal(stored(OPUS_GET_SIGNAL_REQUEST, set)).expect("get signal"),
        Signal::Music
    );

    let set = encoder
        .set_max_bandwidth(Bandwidth::Wideband)
        .expect("set max bandwidth");
    assert_eq!(
        encoder
            .max_bandwidth(stored(OPUS_GET_MAX_BANDWIDTH_REQUEST, set))
            .expect("get max bandwidth"),
        Bandwidth::Wideband
    );

    let set = encoder
        .set_force_channels(Some(Channels::Mono))
        .expect("force mono");
    assert_eq!(
        encoder
            .force_channels(stored(OPUS_GET_FORCE_CHANNELS_REQUEST, set))
            .expect("get forced channels"),
        Some(Channels::Mono)
    );

    let set = encoder
        .set_force_channels(None)
        .expect("clear force channels");
    assert_eq!(
        encoder
            .force_channels(stored(OPUS_GET_FORCE_CHANNELS_REQUEST, set))
            .expect("get forced channels"),
        None
    );
}

#[test]
fn encoder_is_send_sync() {
    assert_send_sync::<Encoder>();
}

#[test]
fn decoder_is_send_sync() {
    assert_send_sync::<Decoder>();
}

#[test]
fn test_buffer_empty() {
    let encoder = Encoder::new(SampleRate::Hz48000, Channels::Mono, Application::Voip).unwrap();
    let pcm = vec![0i16; 960];
    let empty_buf = [0u8; 0];

    let result = encoder.encode(&pcm, &empty_buf);
    assert_eq!(result, Err(Error::BadArg));
}

#[test]
fn encode_plans_the_call() {
    let encoder = Encoder::new(SampleRate::Hz48000, Channels::Stereo, Application::Audio).unwrap();
    assert_eq!(encoder.sample_rate(), SampleRate::Hz48000);
    assert_eq!(encoder.channels(), Channels::Stereo);
    assert_eq!(encoder.application(), Application::Audio);
    let pcm = vec![0i16; 960 * 2];
    let out = [0u8; 100];
    assert_eq!(
        encoder.encode(&pcm, &out),
        Ok(CodecCall { packet_len: 100, frame_size: 960, fec: false })
    );
    assert_eq!(
        encoder.encode_limited(&pcm, &out, 40),
        Ok(CodecCall { packet_len: 40, frame_size: 960, fec: false })
    );
    assert_eq!(
        encoder.encode_with_fec(&pcm, &out, 100),
        Ok(CodecCall { packet_len: 100, frame_size: 960, fec: false })
    );
    assert_eq!(
        encoder.encode_float(480 * 2, &out),
        Ok(CodecCall { packet_len: 100, frame_size: 480, fec: false })
    );
    assert_eq!(encoder.encode_limited(&pcm, &out, 0), Err(Error::BadArg));
    assert_eq!(encoder.encode_limited(&pcm, &out, 101), Err(Error::BadArg));
    assert_eq!(encoder.encode(&pcm[..961], &out), Err(Error::BadArg));
    assert_eq!(encoder.encode(&[], &out), Err(Error::BadArg));
    let long = vec![0i16; 5761 * 2];
    assert_eq!(encoder.encode(&long, &out), Err(Error::BadArg));
    let longest = vec![0i16; 5760 * 2];
    assert_eq!(
        encoder.encode(&longest, &out),
        Ok(CodecCall { packet_len: 100, frame_size: 5760, fec: false })
    );
}

#[test]
fn decode_plans_the_call() {
    let decoder = Decoder::new(SampleRate::Hz16000, Channels::Mono).unwrap();
    assert_eq!(decoder.sample_rate(), SampleRate::Hz16000);
    assert_eq!(decoder.channels(), Channels::Mono);
    let packet = [0x08u8, 1, 2, 3];
    let out = vec![0i16; 320];
    assert_eq!(
        decoder.decode(&packet, &out, false),
        Ok(CodecCall { packet_len: 4, frame_size: 320, fec: false })
    );
    assert_eq!(
        decoder.decode(&[], &out, true),
        Ok(CodecCall { packet_len: 0, frame_size: 320, fec: true })
    );
    assert_eq!(
        decoder.decode_float(&packet, 160, false),
        Ok(CodecCall { packet_len: 4, frame_size: 160, fec: false })
    );
    assert_eq!(decoder.decode(&packet, &[], false), Err(Error::BadArg));
    let long = vec![0i16; 1921];
    assert_eq!(decoder.decode(&packet, &long, false), Err(Error::BadArg));
    let stereo = Decoder::new(SampleRate::Hz48000, Channels::Stereo).unwrap();
    assert_eq!(stereo.decode(&packet, &out[..3], false), Err(Error::BadArg));
}

#[test]
fn decoder_reads_packets() {
    let decoder = Decoder::new(SampleRate::Hz48000, Channels::Stereo).unwrap();
    let packet = [0xFCu8, 0xFF, 0xFE];
    assert_eq!(decoder.packet_samples(&packet), Ok(960));
    assert_eq!(decoder.packet_bandwidth(&packet), Ok(Bandwidth::Fullband));
    assert_eq!(decoder.packet_channels(&packet), Ok(Channels::Stereo));
    assert_eq!(decoder.packet_samples(&[]), Err(Error::BadArg));
    assert_eq!(decoder.packet_bandwidth(&[]), Err(Error::BadArg));
    assert_eq!(decoder.packet_channels(&[]), Err(Error::BadArg));
}

#[test]
fn setters_check_their_ranges() {
    let encoder = Encoder::new(SampleRate::Hz48000, Channels::Mono, Application::Voip).unwrap();
    assert_eq!(encoder.set_packet_loss_perc(-1), Err(Error::BadArg));
    assert_eq!(encoder.set_packet_loss_perc(101), Err(Error::BadArg));
    assert!(encoder.set_packet_loss_perc(0).is_ok());
    assert!(encoder.set_packet_loss_perc(100).is_ok());
    assert_eq!(encoder.set_lsb_depth(7), Err(Error::BadArg));
    assert_eq!(encoder.set_lsb_depth(25), Err(Error::BadArg));
    let set = encoder.set_lsb_depth(16).unwrap();
    assert_eq!(encoder.lsb_depth(stored(OPUS_GET_LSB_DEPTH_REQUEST, set)), Ok(16));
    assert_eq!(encoder.reset(), Ok(CtlRequest::Plain { request: OPUS_RESET_STATE }));
}

#[test]
fn getters_read_the_status_and_the_request() {
    let encoder = Encoder::new(SampleRate::Hz48000, Channels::Mono, Application::Voip).unwrap();
    let failed = CtlReply { request: OPUS_GET_DTX_REQUEST, status: -5, value: 0 };
    assert_eq!(encoder.dtx(failed), Err(Error::Unimplemented));
    let other = CtlReply { request: OPUS_GET_VBR_REQUEST, status: 0, value: 1 };
    assert_eq!(encoder.dtx(other), Err(Error::BadArg));
    assert_eq!(encoder.dtx(reported(OPUS_GET_DTX_REQUEST, 1)), Ok(true));
    assert_eq!(encoder.dtx(reported(OPUS_GET_DTX_REQUEST, 0)), Ok(false));
    assert_eq!(encoder.signal(reported(OPUS_GET_SIGNAL_REQUEST, -1000)), Err(Error::InternalError));
    assert_eq!(
        encoder.bandwidth(reported(OPUS_GET_BANDWIDTH_REQUEST, 1105)),
        Ok(Bandwidth::Fullband)
    );
    assert_eq!(
        encoder.bandwidth(reported(OPUS_GET_BANDWIDTH_REQUEST, -1000)),
        Err(Error::InternalError)
    );
    assert_eq!(encoder.bitrate(reported(OPUS_GET_BITRATE_REQUEST, -1000)), Ok(Bitrate::Auto));
    assert_eq!(encoder.bitrate(reported(OPUS_GET_BITRATE_REQUEST, -1)), Ok(Bitrate::Max));
    assert!(encoder.complexity(reported(OPUS_GET_COMPLEXITY_REQUEST, 11)).is_err());
    assert!(encoder.complexity(reported(OPUS_GET_COMPLEXITY_REQUEST, -1)).is_err());
    assert_eq!(
        encoder.expert_frame_duration(reported(OPUS_GET_EXPERT_FRAME_DURATION_REQUEST, 5004)),
        Ok(ExpertFrameDuration::Ms20)
    );
    assert_eq!(
        encoder.expert_frame_duration(reported(OPUS_GET_EXPERT_FRAME_DURATION_REQUEST, 5000)),
        Ok(ExpertFrameDuration::Ms120)
    );
    assert_eq!(
        encoder.expert_frame_duration(reported(OPUS_GET_EXPERT_FRAME_DURATION_REQUEST, -1)),
        Err(Error::InternalError)
    );
    assert_eq!(encoder.final_range(reported(OPUS_GET_FINAL_RANGE_REQUEST, -1)), Ok(u32::MAX));
}

#[test]
fn status_and_length_results() {
    assert_eq!(status_result(0), Ok(()));
    assert_eq!(status_result(-1), Err(Error::BadArg));
    assert_eq!(status_result(-7), Err(Error::AllocFail));
    assert_eq!(status_result(3), Err(Error::Unknown(3)));
    assert_eq!(length_result(0), Ok(0));
    assert_eq!(length_result(127), Ok(127));
    assert_eq!(length_result(-2), Err(Error::BufferTooSmall));
    assert_eq!(length_result(-4), Err(Error::InvalidPacket));
}

#[test]
fn multistream_calls_need_whole_frames() {
    let table = [0u8, 1, 1];
    let mapping = Mapping { channels: 3, streams: 1, coupled_streams: 1, mapping: &table };
    let encoder = MSEncoder::new(SampleRate::Hz48000, Application::Audio, mapping).unwrap();
    let pcm = vec![0i16; 960 * 3];
    let out = [0u8; 1500];
    assert_eq!(
        encoder.encode(&pcm, 960, &out),
        Ok(CodecCall { packet_len: 1500, frame_size: 960, fec: false })
    );
    assert_eq!(encoder.encode(&pcm, 959, &out), Err(Error::BadArg));
    assert_eq!(encoder.encode(&pcm, 960, &[]), Err(Error::BadArg));
    assert_eq!(
        encoder.encode_float(480 * 3, 480, &out),
        Ok(CodecCall { packet_len: 1500, frame_size: 480, fec: false })
    );
    let decoder = MSDecoder::new(SampleRate::Hz48000, mapping).unwrap();
    assert_eq!(
        decoder.decode(&out[..10], &pcm, 960, true),
        Ok(CodecCall { packet_len: 10, frame_size: 960, fec: true })
    );
    assert_eq!(decoder.decode(&out[..10], &pcm, 961, false), Err(Error::BadArg));
    assert_eq!(
        decoder.decode_float(&[], 960 * 3, 960, false),
        Ok(CodecCall { packet_len: 0, frame_size: 960, fec: false })
    );
    assert_eq!(encoder.set_packet_loss_perc(101), Err(Error::BadArg));
    let set = encoder.set_bitrate(Bitrate::Max).unwrap();
    assert_eq!(encoder.bitrate(stored(OPUS_GET_BITRATE_REQUEST, set)), Ok(Bitrate::Max));
    let set = decoder.set_gain(-512).unwrap();
    assert_eq!(decoder.gain(stored(OPUS_GET_GAIN_REQUEST, set)), Ok(-512));
}

#[test]
fn projection_checks_layout_and_matrix() {
    let encoder = ProjectionEncoder::new(SampleRate::Hz48000, 4, 2, 2).unwrap();
    assert_eq!(encoder.channels(), 4);
    assert_eq!(encoder.streams(), 2);
    assert_eq!(encoder.coupled_streams(), 2);
    assert_eq!(encoder.sample_rate(), SampleRate::Hz48000);
    assert!(ProjectionEncoder::new(SampleRate::Hz48000, 4, 256, 0).is_err());
    assert!(ProjectionEncoder::new(SampleRate::Hz48000, 4, 1, -1).is_err());
    assert_eq!(encoder.validate_frame_size(960), Ok(960));
    assert_eq!(encoder.validate_frame_size(0), Err(Error::BadArg));
    assert_eq!(encoder.validate_frame_size(5761), Err(Error::BadArg));
    assert_eq!(encoder.ensure_pcm_layout(3840, 960), Ok(()));
    assert_eq!(encoder.ensure_pcm_layout(3839, 960), Err(Error::BadArg));
    let pcm = vec![0i16; 960 * 4];
    let out = [0u8; 1500];
    assert_eq!(
        encoder.encode(&pcm, 960, &out),
        Ok(CodecCall { packet_len: 1500, frame_size: 960, fec: false })
    );
    assert_eq!(encoder.encode(&pcm, 960, &[]), Err(Error::BadArg));
    assert_eq!(encoder.encode(&pcm[..8], 2, &out), Ok(CodecCall {
        packet_len: 1500,
        frame_size: 2,
        fec: false
    }));

    let size = reported(OPUS_PROJECTION_GET_DEMIXING_MATRIX_SIZE_REQUEST, 32);
    assert_eq!(encoder.demixing_matrix_size(size), Ok(32));
    assert_eq!(encoder.demixing_matrix_bytes(size), Ok(vec![0u8; 32]));
    assert_eq!(
        encoder.write_demixing_matrix(size, &out),
        Ok(CtlRequest::Fill { request: OPUS_PROJECTION_GET_DEMIXING_MATRIX_REQUEST, len: 32 })
    );
    assert_eq!(encoder.write_demixing_matrix(size, &out[..31]), Err(Error::BufferTooSmall));
    let none = reported(OPUS_PROJECTION_GET_DEMIXING_MATRIX_SIZE_REQUEST, 0);
    assert_eq!(encoder.demixing_matrix_bytes(none), Err(Error::InternalError));
    assert_eq!(encoder.write_demixing_matrix(none, &out), Err(Error::InternalError));

    let matrix = vec![0u8; 32];
    let decoder = ProjectionDecoder::new(SampleRate::Hz48000, 4, 2, 2, &matrix).unwrap();
    assert_eq!(decoder.channels(), 4);
    assert_eq!(decoder.streams(), 2);
    assert_eq!(decoder.coupled_streams(), 2);
    assert!(ProjectionDecoder::new(SampleRate::Hz48000, 4, 2, 2, &[]).is_err());
    assert_eq!(
        decoder.decode(&out[..20], &pcm, 960, false),
        Ok(CodecCall { packet_len: 20, frame_size: 960, fec: false })
    );
    assert_eq!(decoder.decode(&out[..20], &pcm, 480, false), Err(Error::BadArg));
    assert_eq!(decoder.ensure_output_layout(3840, 960), Ok(()));
    assert_eq!(decoder.validate_frame_size(5761), Err(Error::BadArg));
}
