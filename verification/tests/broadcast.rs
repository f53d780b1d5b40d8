use lora_link::codec::Frame;
use lora_link::error::ErrorKind;
use lora_link::message::{parse_bool, BroadcastMessage, Ipv4Address};

use lz4_flex::block::{compress_prepend_size, decompress_size_prepended};

#[test]
fn broadcast_tofrom_frame() {
    let id = 5u8;
    let isgateway = false;
    let msg = BroadcastMessage {
        header: None,
        isgateway,
        ipOffset: 4,
        ipaddr: Some(Ipv4Address::new(172, 16, 0, id.clone() as u8)),
    };
    let mut route: Vec<u8> = Vec::new();
    route.push(id.clone());

    // check tofrom frame
    let frame = msg.to_frame(1u8, id, route);

    assert_eq!(frame.sender(), id);
    assert_eq!(frame.payload().get(0).unwrap().clone() as i8, 0i8);
    assert_eq!(frame.payload().get(1).unwrap().clone() as usize, 4);
    assert_eq!(frame.payload().get(2).unwrap().clone(), 172u8);
    assert_eq!(frame.payload().get(3).unwrap().clone(), 16u8);
    assert_eq!(frame.payload().get(4).unwrap().clone(), 0u8);
    assert_eq!(frame.payload().get(5).unwrap().clone(), id);

    // ensure representation is same after hex encoding
    let bytes = frame.to_bytes();

    assert_eq!(bytes.get(6).unwrap().clone() as i8, 0i8);
    assert_eq!(bytes.get(7).unwrap().clone() as usize, 4);
    assert_eq!(bytes.get(8).unwrap().clone(), 172u8);
    assert_eq!(bytes.get(9).unwrap().clone(), 16u8);
    assert_eq!(bytes.get(10).unwrap().clone(), 0u8);
    assert_eq!(bytes.get(11).unwrap().clone(), id);

    let frame2 = Frame::from_bytes(&bytes).unwrap();
    let msg2 = BroadcastMessage::from_frame(&frame2).unwrap();

    assert_eq!(frame2.sender(), id);
    assert_eq!(msg2.header.unwrap().sender(), id);
    assert_eq!(msg2.isgateway, isgateway);
    assert_eq!(msg2.ipaddr.unwrap(), msg.ipaddr.unwrap());
}

#[test]
fn lz4test() {
    let input: &[u8] = b"Hello people, what's up?";
    let compressed = compress_prepend_size(input);
    let uncompressed = decompress_size_prepended(&compressed).unwrap();
    assert_eq!(input, uncompressed);
}

#[test]
fn broadcast_payload_with_address() {
    let msg = BroadcastMessage {
        header: None,
        isgateway: false,
        ipOffset: 4,
        ipaddr: Some(Ipv4Address::new(172, 16, 0, 5)),
    };
    let frame = msg.to_frame(7, 9, Vec::new());
    assert_eq!(frame.payload().as_slice(), &[0u8, 4, 172, 16, 0, 5]);
    let back = BroadcastMessage::from_frame(&frame).unwrap();
    assert_eq!(back.isgateway, false);
    assert_eq!(back.ipOffset, 4);
    assert_eq!(back.ipaddr, Some(Ipv4Address::new(172, 16, 0, 5)));
}

#[test]
fn broadcast_payload_without_address() {
    let msg = BroadcastMessage { header: None, isgateway: true, ipOffset: 0, ipaddr: None };
    let frame = msg.to_frame(2, 3, Vec::new());
    assert_eq!(frame.payload().as_slice(), &[1u8, 0]);
    let back = BroadcastMessage::from_frame(&frame).unwrap();
    assert_eq!(back.isgateway, true);
    assert_eq!(back.ipOffset, 0);
    assert_eq!(back.ipaddr, None);
}

#[test]
fn broadcast_bad_flag_is_parse_error() {
    // A frame whose payload starts with a byte that is not a boolean.
    let frame = Frame::new(0, 1, 1, 2, 0, Vec::new(), vec![9u8, 0]);
    let err = BroadcastMessage::from_frame(&frame).unwrap_err();
    assert_eq!(err.kind(), ErrorKind::PayloadParse);
}

#[test]
fn broadcast_bad_offset_is_parse_error() {
    // The offset byte may only be 0 (no address) or 4 (the address's fixed
    // byte width), even when enough payload bytes follow.
    let frame = Frame::new(0, 1, 1, 2, 0, Vec::new(), vec![0u8, 3, 9, 9, 9, 9]);
    let err = BroadcastMessage::from_frame(&frame).unwrap_err();
    assert_eq!(err.kind(), ErrorKind::PayloadParse);
}

#[test]
fn broadcast_decoded_offset_matches_address() {
    let msg = BroadcastMessage {
        header: None,
        isgateway: true,
        ipOffset: 4,
        ipaddr: Some(Ipv4Address::new(10, 0, 0, 1)),
    };
    let back = BroadcastMessage::from_frame(&msg.to_frame(1, 2, Vec::new())).unwrap();
    assert_eq!(back.ipOffset, 4);
    assert!(back.ipaddr.is_some());
}

#[test]
fn broadcast_short_payload_is_parse_error() {
    let frame = Frame::new(0, 1, 1, 2, 0, Vec::new(), vec![1u8]);
    let err = BroadcastMessage::from_frame(&frame).unwrap_err();
    assert_eq!(err.kind(), ErrorKind::PayloadParse);
}

#[test]
fn parse_bool_values() {
    assert_eq!(parse_bool(0).unwrap(), false);
    assert_eq!(parse_bool(1).unwrap(), true);
    assert_eq!(parse_bool(2).unwrap_err().kind(), ErrorKind::PayloadParse);
}
