use opus_codec::decoder::Decoder;
use opus_codec::dred::{
    check_pcm_frame_len, validate_pcm_frame_len, DredDecodeCall, DredDecoder, DredParseCall,
};
use opus_codec::error::Error;
use opus_codec::multistream::{MSDecoder, MSEncoder, Mapping, SurroundLayout};
use opus_codec::types::{Application, Channels, SampleRate};

#[test]
fn mapping_allows_dropped_channels() {
    let mapping = Mapping {
        channels: 6,
        streams: 1,
        coupled_streams: 2,
        mapping: &[0, 1, 1, 2, 2, u8::MAX],
    };
    assert!(mapping.validate().is_ok());
}

#[test]
fn mapping_rejects_duplicate_mono_assignments() {
    let mapping = Mapping {
        channels: 3,
        streams: 1,
        coupled_streams: 1,
        mapping: &[0, 0, 1],
    };
    assert!(mapping.validate().is_err());
}

#[test]
fn mapping_rejects_inconsistent_dimensions() {
    let table = [0u8, 1];
    let no_channels = Mapping { channels: 0, streams: 1, coupled_streams: 0, mapping: &[] };
    assert_eq!(no_channels.validate(), Err(Error::BadArg));
    let short_table = Mapping { channels: 3, streams: 1, coupled_streams: 1, mapping: &table };
    assert_eq!(short_table.validate(), Err(Error::BadArg));
    let no_streams = Mapping { channels: 2, streams: 0, coupled_streams: 0, mapping: &table };
    assert_eq!(no_streams.validate(), Err(Error::BadArg));
    let many_streams = Mapping { channels: 2, streams: 3, coupled_streams: 0, mapping: &table };
    assert_eq!(many_streams.validate(), Err(Error::BadArg));
    let many_coupled = Mapping { channels: 2, streams: 0, coupled_streams: 2, mapping: &table };
    assert_eq!(many_coupled.validate(), Err(Error::BadArg));
    let unknown_stream = Mapping { channels: 2, streams: 1, coupled_streams: 0, mapping: &[0, 1] };
    assert_eq!(unknown_stream.validate(), Err(Error::BadArg));
}

#[test]
fn mapping_rejects_a_third_channel_on_a_coupled_stream() {
    let mapping = Mapping { channels: 4, streams: 1, coupled_streams: 1, mapping: &[1, 1, 1, 0] };
    assert_eq!(mapping.validate(), Err(Error::BadArg));
    let fits = Mapping { channels: 4, streams: 1, coupled_streams: 1, mapping: &[1, 1, 255, 0] };
    assert_eq!(fits.validate(), Ok(()));
}

#[test]
fn multistream_objects_take_their_dimensions_from_the_mapping() {
    let table = [0u8, 1, 1];
    let mapping = Mapping { channels: 3, streams: 1, coupled_streams: 1, mapping: &table };
    let encoder = MSEncoder::new(SampleRate::Hz48000, Application::Audio, mapping).unwrap();
    assert_eq!(encoder.channels(), 3);
    assert_eq!(encoder.streams(), 1);
    assert_eq!(encoder.coupled_streams(), 1);
    assert_eq!(encoder.sample_rate(), SampleRate::Hz48000);
    let decoder = MSDecoder::new(SampleRate::Hz16000, mapping).unwrap();
    assert_eq!(decoder.channels(), 3);
    assert_eq!(decoder.sample_rate(), SampleRate::Hz16000);
    let bad = Mapping { channels: 3, streams: 1, coupled_streams: 1, mapping: &[0, 0, 1] };
    assert!(MSEncoder::new(SampleRate::Hz48000, Application::Audio, bad).is_err());
    assert!(MSDecoder::new(SampleRate::Hz48000, bad).is_err());
}

#[test]
fn surround_layout_must_fit_into_bytes() {
    let layout = SurroundLayout { streams: 4, coupled_streams: 2, mapping: vec![0, 4, 1, 2, 3, 5] };
    let (encoder, table) = MSEncoder::new_surround(SampleRate::Hz48000, 6, layout).unwrap();
    assert_eq!(encoder.streams(), 4);
    assert_eq!(encoder.coupled_streams(), 2);
    assert_eq!(table, vec![0, 4, 1, 2, 3, 5]);
    let none = SurroundLayout { streams: 1, coupled_streams: 0, mapping: vec![] };
    assert!(MSEncoder::new_surround(SampleRate::Hz48000, 0, none).is_err());
    let wide = SurroundLayout { streams: 256, coupled_streams: 0, mapping: vec![0] };
    assert!(MSEncoder::new_surround(SampleRate::Hz48000, 1, wide).is_err());
    let negative = SurroundLayout { streams: 1, coupled_streams: -1, mapping: vec![0] };
    assert!(MSDecoder::new_surround(SampleRate::Hz48000, 1, negative).is_err());
    let layout = SurroundLayout { streams: 2, coupled_streams: 1, mapping: vec![0, 1, 2] };
    let (decoder, table, streams, coupled) =
        MSDecoder::new_surround(SampleRate::Hz48000, 3, layout).unwrap();
    assert_eq!(decoder.channels(), 3);
    assert_eq!(table, vec![0, 1, 2]);
    assert_eq!((streams, coupled), (2, 1));
}

#[test]
fn validate_pcm_frame_len_checks_arguments() {
    let pcm = vec![0i16; 4];
    assert!(validate_pcm_frame_len(&pcm, 2, SampleRate::Hz48000).is_ok());

    let err = validate_pcm_frame_len(&pcm, 0, SampleRate::Hz48000).unwrap_err();
    assert_eq!(err, Error::InvalidState);

    let err = validate_pcm_frame_len(&pcm[..3], 2, SampleRate::Hz48000).unwrap_err();
    assert_eq!(err, Error::BadArg);

    let err = validate_pcm_frame_len(&[] as &[i16], 2, SampleRate::Hz48000).unwrap_err();
    assert_eq!(err, Error::BadArg);
}

#[test]
fn validate_pcm_frame_len_states_the_frame_size() {
    let pcm = vec![0i16; 1920];
    assert_eq!(validate_pcm_frame_len(&pcm, 2, SampleRate::Hz48000), Ok(960));
    let long = vec![0i16; 5761];
    assert_eq!(validate_pcm_frame_len(&long, 1, SampleRate::Hz48000), Err(Error::BadArg));
    let longest = vec![0i16; 5760];
    assert_eq!(validate_pcm_frame_len(&longest, 1, SampleRate::Hz48000), Ok(5760));
    assert_eq!(validate_pcm_frame_len(&longest, 1, SampleRate::Hz8000), Err(Error::BadArg));
}

#[test]
fn redundancy_calls_are_checked() {
    let dred = DredDecoder::new().unwrap();
    let data = [0u8; 40];
    assert_eq!(
        dred.parse(&data, 960, SampleRate::Hz48000, false),
        Ok(DredParseCall {
            len: 40,
            max_dred_samples: 960,
            sampling_rate: 48000,
            defer_processing: false
        })
    );
    assert_eq!(dred.parse(&data, usize::MAX, SampleRate::Hz48000, true), Err(Error::BadArg));
    let decoder = Decoder::new(SampleRate::Hz16000, Channels::Stereo).unwrap();
    let pcm = vec![0i16; 640];
    assert_eq!(
        dred.decode_into_i16(&decoder, 320, &pcm),
        Ok(DredDecodeCall { dred_offset: 320, frame_size: 320 })
    );
    assert_eq!(dred.decode_into_i16(&decoder, 320, &pcm[..639]), Err(Error::BadArg));
    assert_eq!(dred.decode_into_i16(&decoder, 320, &[]), Err(Error::BadArg));
    assert_eq!(
        dred.decode_into_f32(&decoder, 0, 3840),
        Ok(DredDecodeCall { dred_offset: 0, frame_size: 1920 })
    );
    assert_eq!(dred.decode_into_f32(&decoder, 0, 3842), Err(Error::BadArg));
    assert_eq!(check_pcm_frame_len(960, 1, SampleRate::Hz48000), Ok(960));
    assert_eq!(check_pcm_frame_len(960, 0, SampleRate::Hz48000), Err(Error::InvalidState));
}
