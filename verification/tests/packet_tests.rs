use opus_codec::error::Error;
use opus_codec::packet::{
    multistream_packet_pad, multistream_packet_unpad, packet_bandwidth, packet_channels,
    packet_has_lbrr, packet_nb_frames, packet_nb_samples, packet_pad, packet_parse,
    packet_samples_per_frame, packet_unpad, soft_clip,
};
use opus_codec::types::{Bandwidth, Channels, SampleRate};

#[test]
fn test_packet_analysis() {
    // 20 ms of stereo silence, as an encoder for general audio writes it.
    let output = [0xFCu8, 0xFF, 0xFE];
    let packet = &output[..];

    // Analyze
    assert!(packet_nb_frames(packet).unwrap() > 0);
    assert_eq!(packet_nb_samples(packet, SampleRate::Hz48000).unwrap(), 960);
    assert_eq!(packet_channels(packet).unwrap(), Channels::Stereo);
    assert!(packet_bandwidth(packet).unwrap() != Bandwidth::Narrowband);

    // Parse
    let (_toc, _offset, frames) = packet_parse(packet).unwrap();
    assert!(!frames.is_empty());
}

#[test]
fn one_frame_of_ten_bytes() {
    let packet = [0x00u8, 1, 2, 3, 4, 5, 6, 7, 8, 9, 10];
    let (toc, offset, frames) = packet_parse(&packet).unwrap();
    assert_eq!(toc, 0x00);
    assert_eq!(offset, 1);
    assert_eq!(frames.len(), 1);
    assert_eq!(frames[0].len(), 10);
    assert_eq!(frames[0], &packet[1..]);
    assert_eq!(packet_nb_frames(&packet), Ok(1));
}

#[test]
fn empty_packet_is_a_bad_argument() {
    assert_eq!(packet_parse(&[]).unwrap_err(), Error::BadArg);
    assert_eq!(packet_nb_frames(&[]), Err(Error::BadArg));
    assert_eq!(packet_bandwidth(&[]), Err(Error::BadArg));
    assert_eq!(packet_channels(&[]), Err(Error::BadArg));
    assert_eq!(packet_has_lbrr(&[]), Err(Error::BadArg));
    assert_eq!(packet_nb_samples(&[], SampleRate::Hz48000), Err(Error::BadArg));
    assert_eq!(packet_samples_per_frame(&[], SampleRate::Hz48000), Err(Error::BadArg));
}

#[test]
fn empty_frames_are_left_out() {
    let (toc, offset, frames) = packet_parse(&[0x04]).unwrap();
    assert_eq!((toc, offset), (0x04, 1));
    assert!(frames.is_empty());
    assert_eq!(packet_nb_frames(&[0x04]), Ok(1));

    // Three frames with length fields 0 and 2; the last takes the rest: one byte.
    let packet = [0x03u8, 0x83, 0, 2, 7, 8, 9];
    let (_, offset, frames) = packet_parse(&packet).unwrap();
    assert_eq!(offset, 4);
    assert_eq!(frames, vec![&[7u8, 8][..], &[9u8][..]]);
    assert_eq!(packet_nb_frames(&packet), Ok(3));
}

#[test]
fn two_equal_frames() {
    let packet = [0x09u8, 1, 2, 3, 4, 5, 6];
    let (toc, offset, frames) = packet_parse(&packet).unwrap();
    assert_eq!((toc, offset), (0x09, 1));
    assert_eq!(frames, vec![&[1u8, 2, 3][..], &[4u8, 5, 6][..]]);
    assert_eq!(packet_nb_frames(&packet), Ok(2));
    // An odd number of bytes cannot be two equal frames.
    assert_eq!(packet_parse(&[0x09, 1, 2, 3]).unwrap_err(), Error::InvalidPacket);
}

#[test]
fn two_frames_with_a_length_field() {
    let packet = [0x0Au8, 2, 1, 2, 3, 4, 5];
    let (_, offset, frames) = packet_parse(&packet).unwrap();
    assert_eq!(offset, 2);
    assert_eq!(frames, vec![&[1u8, 2][..], &[3u8, 4, 5][..]]);
    // The first frame cannot be longer than the packet.
    assert_eq!(packet_parse(&[0x0A, 6, 1, 2, 3, 4, 5]).unwrap_err(), Error::InvalidPacket);
    // The length field is missing.
    assert_eq!(packet_parse(&[0x0A]).unwrap_err(), Error::InvalidPacket);
}

#[test]
fn length_field_of_two_bytes() {
    // 253 + 4 * 1 = 257 bytes in the first frame, 3 in the second.
    let mut packet = vec![0x0Au8, 253, 1];
    packet.extend(std::iter::repeat(0x11).take(257));
    packet.extend([1, 2, 3]);
    let (_, offset, frames) = packet_parse(&packet).unwrap();
    assert_eq!(offset, 3);
    assert_eq!(frames.len(), 2);
    assert_eq!(frames[0].len(), 257);
    assert_eq!(frames[1], &[1u8, 2, 3][..]);
    // The second byte of the field is cut off.
    assert_eq!(packet_parse(&[0x0A, 252]).unwrap_err(), Error::InvalidPacket);
    // 251 is the largest size in one byte.
    let mut packet = vec![0x0Au8, 251];
    packet.extend(std::iter::repeat(0x22).take(251));
    let (_, offset, frames) = packet_parse(&packet).unwrap();
    assert_eq!(offset, 2);
    assert_eq!(frames.len(), 1);
    assert_eq!(frames[0].len(), 251);
}

#[test]
fn counted_frames_of_equal_size() {
    let packet = [0x0Bu8, 0x03, 1, 2, 3, 4, 5, 6];
    let (toc, offset, frames) = packet_parse(&packet).unwrap();
    assert_eq!((toc, offset), (0x0B, 2));
    assert_eq!(frames, vec![&[1u8, 2][..], &[3u8, 4][..], &[5u8, 6][..]]);
    // Seven bytes cannot be shared by three frames.
    assert_eq!(packet_parse(&[0x0B, 0x03, 1, 2, 3, 4, 5, 6, 7]).unwrap_err(), Error::InvalidPacket);
}

#[test]
fn counted_frames_of_varying_size() {
    let packet = [0x0Bu8, 0x83, 1, 2, 10, 20, 21, 30, 31, 32];
    let (_, offset, frames) = packet_parse(&packet).unwrap();
    assert_eq!(offset, 4);
    assert_eq!(frames, vec![&[10u8][..], &[20u8, 21][..], &[30u8, 31, 32][..]]);
    // The stated sizes exceed the packet.
    assert_eq!(packet_parse(&[0x0B, 0x83, 1, 9, 10, 20]).unwrap_err(), Error::InvalidPacket);
}

#[test]
fn counted_frames_with_padding() {
    // One frame of two bytes, then three bytes of padding.
    let packet = [0x03u8, 0x41, 3, 7, 8, 0, 0, 0];
    let (_, offset, frames) = packet_parse(&packet).unwrap();
    assert_eq!(offset, 3);
    assert_eq!(frames, vec![&[7u8, 8][..]]);
    // The padding exceeds the packet.
    assert_eq!(packet_parse(&[0x03, 0x41, 9, 7, 8]).unwrap_err(), Error::InvalidPacket);
    // The padding field runs off the end.
    assert_eq!(packet_parse(&[0x03, 0x41]).unwrap_err(), Error::InvalidPacket);
    // A byte of 255 stands for 254 bytes of padding and goes on.
    let mut long = vec![0x03u8, 0x41, 255, 1, 7, 8];
    long.extend(std::iter::repeat(0).take(255));
    let (_, offset, frames) = packet_parse(&long).unwrap();
    assert_eq!(offset, 4);
    assert_eq!(frames, vec![&[7u8, 8][..]]);
    // With a byte less the frame is a byte shorter; with three less the padding no longer fits.
    long.pop();
    {
        let (_, _, frames) = packet_parse(&long).unwrap();
        assert_eq!(frames, vec![&[7u8][..]]);
    }
    long.truncate(258);
    assert_eq!(packet_parse(&long).unwrap_err(), Error::InvalidPacket);
}

#[test]
fn frame_count_must_be_one_to_forty_eight() {
    assert_eq!(packet_parse(&[0x03, 0x00]).unwrap_err(), Error::InvalidPacket);
    assert_eq!(packet_parse(&[0x03]).unwrap_err(), Error::InvalidPacket);
    assert_eq!(packet_nb_frames(&[0x03, 48]), Ok(48));
    assert_eq!(packet_nb_frames(&[0x03, 49]), Err(Error::InvalidPacket));
    let mut full = vec![0x03u8, 48];
    full.extend(std::iter::repeat(5).take(48));
    let (_, _, frames) = packet_parse(&full).unwrap();
    assert_eq!(frames.len(), 48);
}

#[test]
fn frames_are_at_most_1275_bytes() {
    let mut packet = vec![0x00u8];
    packet.extend(std::iter::repeat(1).take(1275));
    assert_eq!(packet_nb_frames(&packet), Ok(1));
    packet.push(1);
    assert_eq!(packet_nb_frames(&packet), Err(Error::InvalidPacket));
}

#[test]
fn payload_and_frames_fit_the_packet() {
    let packets: [&[u8]; 5] = [
        &[0x00, 1, 2, 3],
        &[0x09, 1, 2, 3, 4],
        &[0x0A, 1, 9, 8, 7],
        &[0x0B, 0x83, 1, 0, 5, 6],
        &[0x03, 0x42, 2, 7, 8, 0, 0],
    ];
    for packet in packets {
        let (_, offset, frames) = packet_parse(packet).unwrap();
        let held: usize = frames.iter().map(|f| f.len()).sum();
        assert!(offset + held <= packet.len());
    }
}

#[test]
fn table_of_contents_queries() {
    assert_eq!(packet_bandwidth(&[0x00]), Ok(Bandwidth::Narrowband));
    assert_eq!(packet_bandwidth(&[4 << 3]), Ok(Bandwidth::Mediumband));
    assert_eq!(packet_bandwidth(&[8 << 3]), Ok(Bandwidth::Wideband));
    assert_eq!(packet_bandwidth(&[12 << 3]), Ok(Bandwidth::SuperWideband));
    assert_eq!(packet_bandwidth(&[14 << 3]), Ok(Bandwidth::Fullband));
    assert_eq!(packet_bandwidth(&[16 << 3]), Ok(Bandwidth::Narrowband));
    assert_eq!(packet_bandwidth(&[20 << 3]), Ok(Bandwidth::Wideband));
    assert_eq!(packet_bandwidth(&[24 << 3]), Ok(Bandwidth::SuperWideband));
    assert_eq!(packet_bandwidth(&[31 << 3]), Ok(Bandwidth::Fullband));
    assert_eq!(packet_channels(&[0x00]), Ok(Channels::Mono));
    assert_eq!(packet_channels(&[0x04]), Ok(Channels::Stereo));
    assert_eq!(packet_channels(&[0xFB]), Ok(Channels::Mono));
}

#[test]
fn samples_per_frame_follow_the_configuration() {
    let at = SampleRate::Hz48000;
    assert_eq!(packet_samples_per_frame(&[0 << 3], at), Ok(480));
    assert_eq!(packet_samples_per_frame(&[1 << 3], at), Ok(960));
    assert_eq!(packet_samples_per_frame(&[2 << 3], at), Ok(1920));
    assert_eq!(packet_samples_per_frame(&[3 << 3], at), Ok(2880));
    assert_eq!(packet_samples_per_frame(&[12 << 3], at), Ok(480));
    assert_eq!(packet_samples_per_frame(&[13 << 3], at), Ok(960));
    assert_eq!(packet_samples_per_frame(&[16 << 3], at), Ok(120));
    assert_eq!(packet_samples_per_frame(&[17 << 3], at), Ok(240));
    assert_eq!(packet_samples_per_frame(&[18 << 3], at), Ok(480));
    assert_eq!(packet_samples_per_frame(&[19 << 3], at), Ok(960));
    assert_eq!(packet_samples_per_frame(&[16 << 3], SampleRate::Hz8000), Ok(20));
    assert_eq!(packet_samples_per_frame(&[3 << 3], SampleRate::Hz16000), Ok(960));
}

#[test]
fn samples_of_a_packet() {
    // Two frames of 20 ms.
    assert_eq!(packet_nb_samples(&[0x09, 1, 2], SampleRate::Hz48000), Ok(1920));
    assert_eq!(packet_nb_samples(&[0x09, 1, 2], SampleRate::Hz16000), Ok(640));
    // Six frames of 20 ms are 120 ms; seven are too many.
    assert_eq!(packet_nb_samples(&[0x0B, 6], SampleRate::Hz48000), Ok(5760));
    assert_eq!(packet_nb_samples(&[0x0B, 7], SampleRate::Hz48000), Err(Error::InvalidPacket));
    // Forty-eight frames of 2.5 ms.
    assert_eq!(packet_nb_samples(&[(16 << 3) | 3, 48], SampleRate::Hz48000), Ok(5760));
    assert_eq!(packet_nb_samples(&[0x09, 1], SampleRate::Hz48000), Err(Error::InvalidPacket));
}

#[test]
fn redundancy_flag() {
    // 20 ms mono: one voice-activity flag, then the redundancy flag.
    assert_eq!(packet_has_lbrr(&[0x08, 0x40]), Ok(true));
    assert_eq!(packet_has_lbrr(&[0x08, 0x80]), Ok(false));
    // 20 ms stereo: the second channel's flag stands two bits further on.
    assert_eq!(packet_has_lbrr(&[0x0C, 0x10]), Ok(true));
    assert_eq!(packet_has_lbrr(&[0x08, 0x10]), Ok(false));
    // 40 ms mono: two voice-activity flags first.
    assert_eq!(packet_has_lbrr(&[0x10, 0x20]), Ok(true));
    assert_eq!(packet_has_lbrr(&[0x10, 0x40]), Ok(false));
    // 60 ms stereo.
    assert_eq!(packet_has_lbrr(&[0x1C, 0x10]), Ok(true));
    assert_eq!(packet_has_lbrr(&[0x1C, 0x01]), Ok(true));
    assert_eq!(packet_has_lbrr(&[0x18, 0x01]), Ok(false));
    // The configurations above 15 carry none.
    assert_eq!(packet_has_lbrr(&[0x80, 0xFF]), Ok(false));
    // An empty first frame.
    assert_eq!(packet_has_lbrr(&[0x08]), Ok(false));
    assert_eq!(packet_has_lbrr(&[0x09, 1]), Err(Error::InvalidPacket));
}

#[test]
fn pad_then_unpad_gives_the_packet_back() {
    let source = [0x00u8, 1, 2, 3, 4, 5, 6, 7, 8, 9];
    let mut buffer = [0xEEu8; 20];
    buffer[..10].copy_from_slice(&source);
    assert_eq!(packet_pad(&mut buffer, 10, 15), Ok(()));
    assert_eq!(&buffer[..15], &[0x03, 0x41, 3, 1, 2, 3, 4, 5, 6, 7, 8, 9, 0, 0, 0]);
    assert_eq!(&buffer[15..], &[0xEE; 5]);
    {
        let (_, offset, frames) = packet_parse(&buffer[..15]).unwrap();
        assert_eq!(offset, 3);
        assert_eq!(frames, vec![&source[1..]]);
    }
    assert_eq!(packet_unpad(&mut buffer, 15), Ok(10));
    assert_eq!(&buffer[..10], &source);
}

#[test]
fn pad_by_every_small_amount() {
    let source = [0x0Au8, 1, 9, 8, 7];
    for target in 5..600usize {
        let mut buffer = vec![0u8; 600];
        buffer[..5].copy_from_slice(&source);
        assert_eq!(packet_pad(&mut buffer, 5, target), Ok(()));
        let (_, _, frames) = packet_parse(&buffer[..target]).unwrap();
        assert_eq!(frames, vec![&[9u8][..], &[8u8, 7][..]]);
        assert_eq!(packet_unpad(&mut buffer, target), Ok(5));
        assert_eq!(&buffer[..5], &source);
    }
}

#[test]
fn pad_writes_the_padding_field() {
    let mut buffer = vec![0xEEu8; 300];
    buffer[..3].copy_from_slice(&[0x04, 7, 8]);
    // One byte more: the count byte alone.
    assert_eq!(packet_pad(&mut buffer, 3, 4), Ok(()));
    assert_eq!(&buffer[..4], &[0x07, 0x01, 7, 8]);
    // Two bytes more: a padding field that states no padding.
    let mut buffer = vec![0xEEu8; 300];
    buffer[..3].copy_from_slice(&[0x04, 7, 8]);
    assert_eq!(packet_pad(&mut buffer, 3, 5), Ok(()));
    assert_eq!(&buffer[..5], &[0x07, 0x41, 0, 7, 8]);
    // 256 bytes more than the counted run: a field of two bytes and 254 of padding.
    let mut buffer = vec![0xEEu8; 300];
    buffer[..3].copy_from_slice(&[0x04, 7, 8]);
    assert_eq!(packet_pad(&mut buffer, 3, 260), Ok(()));
    assert_eq!(&buffer[..6], &[0x07, 0x41, 255, 0, 7, 8]);
    assert!(buffer[6..260].iter().all(|b| *b == 0));
    assert!(buffer[260..].iter().all(|b| *b == 0xEE));
}

#[test]
fn pad_refuses_bad_lengths() {
    let mut buffer = [0x00u8, 1, 2, 3, 0, 0];
    assert_eq!(packet_pad(&mut buffer, 4, 3), Err(Error::BadArg));
    assert_eq!(packet_pad(&mut buffer, 4, 7), Err(Error::BadArg));
    assert_eq!(packet_pad(&mut buffer, 0, 2), Err(Error::BadArg));
    assert_eq!(packet_pad(&mut buffer, 4, 4), Ok(()));
    assert_eq!(buffer, [0x00, 1, 2, 3, 0, 0]);
    let mut odd = [0x01u8, 1, 2, 3, 0, 0];
    assert_eq!(packet_pad(&mut odd, 4, 6), Err(Error::InvalidPacket));
    assert_eq!(odd, [0x01, 1, 2, 3, 0, 0]);
}

#[test]
fn unpad_refuses_bad_packets() {
    let mut buffer = [0x03u8, 0x41, 9, 7, 8];
    assert_eq!(packet_unpad(&mut buffer, 5), Err(Error::InvalidPacket));
    assert_eq!(buffer, [0x03, 0x41, 9, 7, 8]);
    assert_eq!(packet_unpad(&mut buffer, 6), Err(Error::BadArg));
    assert_eq!(packet_unpad(&mut buffer, 0), Err(Error::BadArg));
}

#[test]
fn unpad_writes_the_shortest_form() {
    // Two equal frames in a counted run with padding become a packet of two equal frames.
    let mut buffer = [0x0Bu8, 0x42, 1, 5, 6, 7, 8, 0, 9];
    assert_eq!(packet_unpad(&mut buffer, 8), Ok(5));
    assert_eq!(buffer, [0x09, 5, 6, 7, 8, 7, 8, 0, 9]);
    // Two frames of different size get one length field.
    let mut buffer = [0x0Bu8, 0x82, 1, 5, 6, 7];
    assert_eq!(packet_unpad(&mut buffer, 6), Ok(5));
    assert_eq!(&buffer[..5], &[0x0A, 1, 5, 6, 7]);
    // Three frames stay a counted run.
    let mut buffer = [0x0Bu8, 0xC3, 0, 1, 1, 5, 6, 7];
    assert_eq!(packet_unpad(&mut buffer, 8), Ok(5));
    assert_eq!(&buffer[..5], &[0x0B, 0x03, 5, 6, 7]);
}

#[test]
fn multistream_pad_lengthens_the_last_stream() {
    // A self-delimiting packet of one frame, then a packet that fills the rest.
    let source = [0x08u8, 2, 1, 2, 0x08, 3, 4, 5];
    let mut buffer = [0xEEu8; 16];
    buffer[..8].copy_from_slice(&source);
    assert_eq!(multistream_packet_pad(&mut buffer, 8, 12, 2), Ok(()));
    assert_eq!(&buffer[..12], &[0x08, 2, 1, 2, 0x0B, 0x41, 2, 3, 4, 5, 0, 0]);
    assert_eq!(&buffer[12..], &[0xEE; 4]);
    assert_eq!(multistream_packet_unpad(&mut buffer, 12, 2), Ok(8));
    assert_eq!(&buffer[..8], &source);
}

#[test]
fn multistream_pad_of_one_stream_is_the_plain_pad() {
    let mut plain = [0x00u8, 1, 2, 3, 0, 0, 0, 0];
    let mut streams = plain;
    assert_eq!(packet_pad(&mut plain, 4, 8), Ok(()));
    assert_eq!(multistream_packet_pad(&mut streams, 4, 8, 1), Ok(()));
    assert_eq!(plain, streams);
    assert_eq!(packet_unpad(&mut plain, 8), Ok(4));
    assert_eq!(multistream_packet_unpad(&mut streams, 8, 1), Ok(4));
    assert_eq!(plain, streams);
}

#[test]
fn multistream_unpad_rewrites_every_stream() {
    // The first stream is a counted run of one frame with a byte of padding.
    let mut buffer = [0x0Bu8, 0x41, 1, 2, 1, 2, 0, 0x08, 3, 4, 5];
    assert_eq!(multistream_packet_unpad(&mut buffer, 11, 2), Ok(8));
    assert_eq!(&buffer[..8], &[0x08, 2, 1, 2, 0x08, 3, 4, 5]);
    // Three streams: two equal frames, two frames that differ, one frame.
    let mut buffer = [0x09u8, 1, 7, 8, 0x0A, 1, 2, 5, 6, 6, 0x0B, 0x41, 0, 9];
    assert_eq!(multistream_packet_unpad(&mut buffer, 14, 3), Ok(12));
    assert_eq!(&buffer[..12], &[0x09, 1, 7, 8, 0x0A, 1, 2, 5, 6, 6, 0x08, 9]);
}

#[test]
fn multistream_refusals() {
    let source = [0x08u8, 2, 1, 2, 0x08, 3, 4, 5, 0, 0];
    let mut buffer = source;
    // The second of three streams would need a frame of three bytes.
    assert_eq!(multistream_packet_pad(&mut buffer, 8, 10, 3), Err(Error::InvalidPacket));
    assert_eq!(multistream_packet_unpad(&mut buffer, 8, 3), Err(Error::InvalidPacket));
    // The first stream takes the whole packet.
    assert_eq!(multistream_packet_pad(&mut buffer, 4, 6, 2), Err(Error::BadArg));
    assert_eq!(multistream_packet_unpad(&mut buffer, 4, 2), Err(Error::InvalidPacket));
    assert_eq!(multistream_packet_pad(&mut buffer, 8, 7, 2), Err(Error::BadArg));
    assert_eq!(multistream_packet_pad(&mut buffer, 8, 11, 2), Err(Error::BadArg));
    assert_eq!(multistream_packet_pad(&mut buffer, 0, 4, 2), Err(Error::BadArg));
    assert_eq!(multistream_packet_unpad(&mut buffer, 0, 2), Err(Error::BadArg));
    assert_eq!(multistream_packet_unpad(&mut buffer, 11, 2), Err(Error::BadArg));
    assert_eq!(buffer, source);
    // Without streams there is nothing to write.
    assert_eq!(multistream_packet_unpad(&mut buffer, 8, 0), Ok(0));
    assert_eq!(buffer, source);
    // A length that stays needs no look at the packet.
    assert_eq!(multistream_packet_pad(&mut buffer, 8, 8, 5), Ok(()));
    assert_eq!(buffer, source);
}

#[test]
fn test_soft_clip_validations() {
    let pcm = vec![1.5f32; 4];
    let state = vec![0f32; 2];
    assert!(soft_clip(pcm.len(), 2, 2, state.len()).is_ok());

    let short_pcm = vec![1.5f32; 3];
    assert_eq!(soft_clip(short_pcm.len(), 2, 2, state.len()), Err(Error::BadArg));

    let pcm = vec![1.5f32; 4];
    let too_small_state = vec![0f32; 1];
    assert_eq!(soft_clip(pcm.len(), 2, 2, too_small_state.len()), Err(Error::BadArg));

    let pcm = vec![1.5f32; 4];
    assert_eq!(soft_clip(pcm.len(), 2, -1, state.len()), Err(Error::BadArg));
}

#[test]
fn soft_clip_states_the_frame_size() {
    assert_eq!(soft_clip(1920, 960, 2, 2), Ok(960));
    assert_eq!(soft_clip(2000, 960, 2, 8), Ok(960));
    assert_eq!(soft_clip(4, 0, 2, 2), Err(Error::BadArg));
    assert_eq!(soft_clip(4, 2, 0, 2), Err(Error::BadArg));
    assert_eq!(soft_clip(usize::MAX, usize::MAX, 2, 2), Err(Error::BadArg));
    assert_eq!(soft_clip(usize::MAX, usize::MAX, 1, 1), Err(Error::BadArg));
}
