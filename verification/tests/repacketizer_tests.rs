use opus_codec::error::Error;
use opus_codec::packet::{packet_nb_frames, packet_parse};
use opus_codec::repacketizer::Repacketizer;

#[test]
fn test_repacketizer() {
    let mut rp = Repacketizer::new().unwrap();

    // Two packets of one 20 ms frame each.
    let packet1 = [0x48u8, 0x0B, 0xE4, 0xC1, 0x36, 0xEC, 0xC5, 0x80];
    let packet2 = [0x48u8, 0x0B, 0xE4, 0xC1, 0x36, 0xEC, 0xC5, 0x80];
    let len1 = packet1.len();
    let len2 = packet2.len();

    // Add them to repacketizer
    rp.push(&packet1[..len1]).unwrap();
    rp.push(&packet2[..len2]).unwrap();

    // Verify we have 2 frames
    assert_eq!(rp.frames(), 2);

    // Merge into one packet
    let mut merged = [0u8; 500];
    let merged_len = rp.out(&mut merged).unwrap();
    assert!(merged_len > 0);

    // Verify the merged packet has 2 frames
    assert_eq!(packet_nb_frames(&merged[..merged_len]).unwrap(), 2);
}

#[test]
fn merged_packet_parses_to_both_frames() {
    let first = [0x08u8, 1, 2];
    let second = [0x08u8, 3, 4, 5];
    let mut rp = Repacketizer::new().unwrap();
    assert_eq!(rp.frames(), 0);
    rp.push(&first).unwrap();
    rp.push(&second).unwrap();
    let mut out = [0xEEu8; 16];
    assert_eq!(rp.out(&mut out), Ok(8));
    assert_eq!(&out[..8], &[0x0B, 0x82, 2, 1, 2, 3, 4, 5]);
    assert_eq!(&out[8..], &[0xEE; 8]);
    let (toc, offset, frames) = packet_parse(&out[..8]).unwrap();
    assert_eq!((toc, offset), (0x0B, 3));
    assert_eq!(frames.len(), 2);
    assert_eq!(frames, vec![&[1u8, 2][..], &[3u8, 4, 5][..]]);
}

#[test]
fn equal_frames_need_no_length_fields() {
    let first = [0x0Cu8, 1, 2];
    let second = [0x0Du8, 3, 4, 5, 6];
    let mut rp = Repacketizer::new().unwrap();
    rp.push(&first).unwrap();
    rp.push(&second).unwrap();
    assert_eq!(rp.frames(), 3);
    let mut out = [0u8; 16];
    assert_eq!(rp.out(&mut out), Ok(8));
    assert_eq!(&out[..8], &[0x0F, 0x03, 1, 2, 3, 4, 5, 6]);
}

#[test]
fn out_twice_gives_the_same_bytes() {
    let first = [0x08u8, 1, 2];
    let second = [0x0Bu8, 0x82, 1, 9, 8, 7];
    let mut rp = Repacketizer::new().unwrap();
    rp.push(&first).unwrap();
    rp.push(&second).unwrap();
    let mut once = [0u8; 32];
    let mut twice = [0xFFu8; 32];
    let n = rp.out(&mut once).unwrap();
    let m = rp.out(&mut twice).unwrap();
    assert_eq!(n, m);
    assert_eq!(&once[..n], &twice[..m]);
    let again = rp.out(&mut once).unwrap();
    assert_eq!(again, n);
    assert_eq!(&once[..n], &twice[..m]);
    assert_eq!(rp.frames(), 3);
}

#[test]
fn out_range_writes_a_run_of_frames() {
    let packets: [[u8; 3]; 4] = [[0x08, 1, 1], [0x08, 2, 2], [0x08, 3, 3], [0x08, 4, 4]];
    let mut rp = Repacketizer::new().unwrap();
    for packet in &packets {
        rp.push(packet).unwrap();
    }
    let mut out = [0u8; 16];
    assert_eq!(rp.out_range(1, 3, &mut out), Ok(6));
    assert_eq!(&out[..6], &[0x0B, 0x02, 2, 2, 3, 3]);
    assert_eq!(rp.out_range(3, 4, &mut out), Ok(4));
    assert_eq!(&out[..4], &[0x0B, 0x01, 4, 4]);
    assert_eq!(rp.out_range(-1, 2, &mut out), Err(Error::BadArg));
    assert_eq!(rp.out_range(2, 2, &mut out), Err(Error::BadArg));
    assert_eq!(rp.out_range(3, 2, &mut out), Err(Error::BadArg));
    assert_eq!(rp.out_range(0, 5, &mut out), Err(Error::BadArg));
    assert_eq!(rp.out_range(0, 4, &mut []), Err(Error::BadArg));
    assert_eq!(rp.out_range(0, 4, &mut out[..9]), Err(Error::BufferTooSmall));
    assert_eq!(rp.out_range(0, 4, &mut out[..10]), Ok(10));
}

#[test]
fn out_of_an_empty_repacketizer_is_refused() {
    let rp = Repacketizer::new().unwrap();
    let mut out = [0u8; 16];
    assert_eq!(rp.out(&mut out), Err(Error::BadArg));
}

#[test]
fn push_refuses_what_does_not_fit() {
    let first = [0x08u8, 1, 2];
    let other_config = [0x10u8, 1, 2];
    let stereo = [0x0Cu8, 1, 2];
    let broken = [0x09u8, 1, 2, 3];
    let mut rp = Repacketizer::new().unwrap();
    assert_eq!(rp.push(&[]), Err(Error::BadArg));
    assert_eq!(rp.push(&broken), Err(Error::InvalidPacket));
    assert_eq!(rp.frames(), 0);
    rp.push(&first).unwrap();
    assert_eq!(rp.push(&other_config), Err(Error::IncompatibleFrame));
    assert_eq!(rp.push(&stereo), Err(Error::IncompatibleFrame));
    assert_eq!(rp.push(&broken), Err(Error::InvalidPacket));
    assert_eq!(rp.frames(), 1);
    let mut out = [0u8; 8];
    assert_eq!(rp.out(&mut out), Ok(4));
    assert_eq!(&out[..4], &[0x0B, 0x01, 1, 2]);
}

#[test]
fn reset_empties_the_queue() {
    let first = [0x08u8, 1, 2];
    let other = [0x10u8, 3];
    let mut rp = Repacketizer::new().unwrap();
    rp.push(&first).unwrap();
    rp.reset();
    assert_eq!(rp.frames(), 0);
    rp.push(&other).unwrap();
    let mut out = [0u8; 8];
    assert_eq!(rp.out(&mut out), Ok(3));
    assert_eq!(&out[..3], &[0x13, 0x01, 3]);
}

#[test]
fn forty_eight_frames_and_no_more() {
    let packet = [0x80u8, 7];
    let mut rp = Repacketizer::new().unwrap();
    for _ in 0..48 {
        assert_eq!(rp.push(&packet), Ok(()));
    }
    assert_eq!(rp.frames(), 48);
    assert_eq!(rp.push(&packet), Err(Error::CapacityExceeded));
    assert_eq!(rp.frames(), 48);
    let mut out = [0u8; 64];
    assert_eq!(rp.out(&mut out), Ok(50));
    assert_eq!(packet_nb_frames(&out[..50]), Ok(48));
}

#[test]
fn a_packet_that_overshoots_is_refused_whole() {
    let pair = [0x81u8, 1, 2];
    let mut rp = Repacketizer::new().unwrap();
    for _ in 0..23 {
        rp.push(&pair).unwrap();
    }
    assert_eq!(rp.frames(), 46);
    let triple = [0x83u8, 0x03, 1, 2, 3];
    assert_eq!(rp.push(&triple), Err(Error::CapacityExceeded));
    assert_eq!(rp.frames(), 46);
    assert_eq!(rp.push(&pair), Ok(()));
    assert_eq!(rp.frames(), 48);
}

#[test]
fn empty_frames_are_queued() {
    let silent = [0x08u8];
    let voiced = [0x08u8, 5, 6];
    let mut rp = Repacketizer::new().unwrap();
    rp.push(&silent).unwrap();
    rp.push(&voiced).unwrap();
    assert_eq!(rp.frames(), 2);
    let mut out = [0u8; 8];
    assert_eq!(rp.out(&mut out), Ok(5));
    assert_eq!(&out[..5], &[0x0B, 0x82, 0, 5, 6]);
    let (_, _, frames) = packet_parse(&out[..5]).unwrap();
    assert_eq!(frames, vec![&[5u8, 6][..]]);
}
