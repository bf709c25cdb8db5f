use ahandd::framing::{caller_uid_for, decode_length, encode_frame, next_frame, FrameError, FrameStatus};

#[test]
fn frames_carry_a_big_endian_length() {
    assert_eq!(encode_frame(&vec![9, 8, 7]), Some(vec![0, 0, 0, 3, 9, 8, 7]));
    assert_eq!(encode_frame(&Vec::new()), Some(vec![0, 0, 0, 0]));
    let long = vec![1u8; 258];
    let frame = encode_frame(&long).unwrap();
    assert_eq!(&frame[..4], &[0, 0, 1, 2]);
    assert_eq!(frame.len(), 262);
}

#[test]
fn frame_length_is_capped_at_16_mib() {
    assert_eq!(decode_length(0, 0, 1, 2), Ok(258));
    assert_eq!(decode_length(1, 0, 0, 0), Ok(16_777_216));
    assert_eq!(decode_length(1, 0, 0, 1), Err(FrameError::TooLarge));
    assert_eq!(decode_length(255, 255, 255, 255), Err(FrameError::TooLarge));
    assert_eq!(encode_frame(&vec![0u8; 16_777_217]), None);
    assert!(encode_frame(&vec![0u8; 16_777_216]).is_some());
}

#[test]
fn frames_are_read_back() {
    let mut buf = encode_frame(&vec![5, 6]).unwrap();
    buf.extend_from_slice(&[0, 0]);
    assert_eq!(next_frame(&buf), FrameStatus::Frame(vec![5, 6]));
    assert_eq!(next_frame(&vec![0, 0, 0]), FrameStatus::NeedMore);
    assert_eq!(next_frame(&vec![0, 0, 0, 2, 1]), FrameStatus::NeedMore);
    assert_eq!(next_frame(&vec![0, 0, 0, 0]), FrameStatus::Frame(Vec::new()));
    assert_eq!(next_frame(&vec![2, 0, 0, 0, 1]), FrameStatus::TooLarge);
}

#[test]
fn local_callers_are_named_by_uid() {
    assert_eq!(caller_uid_for(Some(1000)), "uid:1000");
    assert_eq!(caller_uid_for(Some(0)), "uid:0");
    assert_eq!(caller_uid_for(Some(u32::MAX)), "uid:4294967295");
    assert_eq!(caller_uid_for(None), "uid:unknown");
}
