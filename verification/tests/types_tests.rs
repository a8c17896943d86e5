use opus_codec::constants::max_frame_samples_for;
use opus_codec::error::Error;
use opus_codec::types::{
    Application, Bandwidth, Bitrate, Channels, Complexity, ExpertFrameDuration, FrameSize,
    SampleRate, Signal,
};
use opus_codec::version;

#[test]
fn frame_size_samples_are_correct() {
    assert_eq!(FrameSize::Ms20.samples(SampleRate::Hz48000), 960);
    assert_eq!(FrameSize::Ms5.samples(SampleRate::Hz16000), 80);
    assert_eq!(FrameSize::Ms2_5.samples(SampleRate::Hz8000), 20);
}

#[test]
fn frame_size_samples_for_every_duration() {
    assert_eq!(FrameSize::Ms2_5.samples(SampleRate::Hz48000), 120);
    assert_eq!(FrameSize::Ms5.samples(SampleRate::Hz48000), 240);
    assert_eq!(FrameSize::Ms10.samples(SampleRate::Hz48000), 480);
    assert_eq!(FrameSize::Ms40.samples(SampleRate::Hz48000), 1920);
    assert_eq!(FrameSize::Ms60.samples(SampleRate::Hz48000), 2880);
    assert_eq!(FrameSize::Ms60.samples(SampleRate::Hz12000), 720);
    assert_eq!(FrameSize::Ms10.samples(SampleRate::Hz24000), 240);
}

#[test]
fn max_frame_samples_scale_with_rate() {
    assert_eq!(max_frame_samples_for(SampleRate::Hz48000), 5760);
    assert_eq!(max_frame_samples_for(SampleRate::Hz24000), 2880);
    assert_eq!(max_frame_samples_for(SampleRate::Hz16000), 1920);
    assert_eq!(max_frame_samples_for(SampleRate::Hz12000), 1440);
    assert_eq!(max_frame_samples_for(SampleRate::Hz8000), 960);
}

#[test]
fn channel_and_rate_numbers() {
    assert_eq!(Channels::Mono.as_usize(), 1);
    assert_eq!(Channels::Stereo.as_usize(), 2);
    assert_eq!(Channels::Mono.as_i32(), 1);
    assert_eq!(Channels::Stereo.as_i32(), 2);
    assert_eq!(SampleRate::Hz8000.as_i32(), 8000);
    assert_eq!(SampleRate::Hz12000.as_i32(), 12000);
    assert_eq!(SampleRate::Hz16000.as_i32(), 16000);
    assert_eq!(SampleRate::Hz24000.as_i32(), 24000);
    assert_eq!(SampleRate::Hz48000.as_i32(), 48000);
    assert!(SampleRate::Hz8000.is_valid());
    assert!(SampleRate::Hz48000.is_valid());
    assert_eq!(SampleRate::default(), SampleRate::Hz48000);
    assert_eq!(Application::default(), Application::Voip);
}

#[test]
fn codec_numbers_of_the_enums() {
    assert_eq!(Application::Voip.as_i32(), 2048);
    assert_eq!(Application::Audio.as_i32(), 2049);
    assert_eq!(Application::RestrictedLowDelay.as_i32(), 2051);
    assert_eq!(Bandwidth::Narrowband.as_i32(), 1101);
    assert_eq!(Bandwidth::Mediumband.as_i32(), 1102);
    assert_eq!(Bandwidth::Wideband.as_i32(), 1103);
    assert_eq!(Bandwidth::SuperWideband.as_i32(), 1104);
    assert_eq!(Bandwidth::Fullband.as_i32(), 1105);
    assert_eq!(Bandwidth::from_i32(1103), Some(Bandwidth::Wideband));
    assert_eq!(Bandwidth::from_i32(1100), None);
    assert_eq!(Bandwidth::from_i32(1106), None);
    assert_eq!(Signal::Voice.as_i32(), 3001);
    assert_eq!(Signal::Music.as_i32(), 3002);
    assert_eq!(ExpertFrameDuration::Ms2_5.as_i32(), 5001);
    assert_eq!(ExpertFrameDuration::Ms20.as_i32(), 5004);
    assert_eq!(ExpertFrameDuration::Ms120.as_i32(), 5009);
}

#[test]
fn complexity_keeps_its_level() {
    assert_eq!(Complexity::new(0).value(), 0);
    assert_eq!(Complexity::new(4).value(), 4);
    assert_eq!(Complexity::new(10).value(), 10);
    assert_eq!(Complexity::default().value(), 10);
}

#[test]
fn bitrate_values() {
    assert_eq!(Bitrate::Auto.value(), -1000);
    assert_eq!(Bitrate::Max.value(), -1);
    assert_eq!(Bitrate::Custom(64_000).value(), 64_000);
    assert_eq!(Bitrate::from_i32(-1000), Bitrate::Auto);
    assert_eq!(Bitrate::from_i32(-1), Bitrate::Max);
    assert_eq!(Bitrate::from_i32(96_000), Bitrate::Custom(96_000));
}

#[test]
fn error_codes_map_both_ways() {
    assert_eq!(Error::from_code(-1), Error::BadArg);
    assert_eq!(Error::from_code(-2), Error::BufferTooSmall);
    assert_eq!(Error::from_code(-3), Error::InternalError);
    assert_eq!(Error::from_code(-4), Error::InvalidPacket);
    assert_eq!(Error::from_code(-5), Error::Unimplemented);
    assert_eq!(Error::from_code(-6), Error::InvalidState);
    assert_eq!(Error::from_code(-7), Error::AllocFail);
    assert_eq!(Error::from_code(-8), Error::Unknown(-8));
    assert_eq!(Error::from_code(0), Error::Unknown(0));
    assert_eq!(Error::from_code(17), Error::Unknown(17));
    assert_eq!(Error::BadArg.to_code(), -1);
    assert_eq!(Error::BufferTooSmall.to_code(), -2);
    assert_eq!(Error::InternalError.to_code(), -3);
    assert_eq!(Error::InvalidPacket.to_code(), -4);
    assert_eq!(Error::Unimplemented.to_code(), -5);
    assert_eq!(Error::InvalidState.to_code(), -6);
    assert_eq!(Error::AllocFail.to_code(), -7);
    assert_eq!(Error::IncompatibleFrame.to_code(), -4);
    assert_eq!(Error::CapacityExceeded.to_code(), -4);
    assert_eq!(Error::Unknown(42).to_code(), 42);
}

#[test]
fn error_code_round_trip_on_values() {
    for code in -10..10 {
        assert_eq!(Error::from_code(code).to_code(), code);
    }
    for e in [
        Error::BadArg,
        Error::BufferTooSmall,
        Error::InternalError,
        Error::InvalidPacket,
        Error::Unimplemented,
        Error::InvalidState,
        Error::AllocFail,
        Error::Unknown(5),
    ] {
        assert_eq!(Error::from_code(e.to_code()), e);
    }
}

#[test]
fn error_messages() {
    assert_eq!(Error::BadArg.message(), "Bad arguments passed to Opus function");
    assert_eq!(Error::BufferTooSmall.message(), "Buffer too small");
    assert_eq!(Error::InvalidPacket.message(), "Invalid packet");
    assert_eq!(Error::AllocFail.message(), "Memory allocation failed");
}

#[test]
fn version_string() {
    assert_eq!(version(), "1.5.2");
}
