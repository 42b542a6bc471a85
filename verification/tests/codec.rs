use bytes::BytesMut;
use frills::codec::codec::FrillsCodec;
use frills::codec::message::{FrillsClientToServer, FrillsMessage};
use frills::port::{get_port, DEFAULT_PORT};
use frills::utils::{NextEitherBatch, POLL_BATCH_LIMIT};

#[test]
fn encode_appends_frame() {
    let mut codec = FrillsCodec {};
    let mut dst = BytesMut::from(&b"ab"[..]);
    assert!(codec.encode(Some(vec![1, 2, 3]), &mut dst).is_ok());
    assert_eq!(&dst[..], &[b'a', b'b', 1, 2, 3][..]);
    assert!(codec.encode(None, &mut dst).is_err());
    assert_eq!(dst.len(), 5);
}

#[test]
fn decode_consumes_exactly_the_frame() {
    let mut codec = FrillsCodec {};
    let mut src = BytesMut::new();
    codec.encode(Some(vec![9, 9]), &mut src).ok().unwrap();
    codec.encode(Some(vec![7, 7, 7]), &mut src).ok().unwrap();
    let message = FrillsMessage::ClientToServer(FrillsClientToServer::PullMessages { count: 4 });
    let out = codec.decode(&mut src, Some((message, 2))).ok().unwrap();
    assert!(matches!(out, Some(FrillsMessage::ClientToServer(FrillsClientToServer::PullMessages { count: 4 }))));
    assert_eq!(&src[..], &[7, 7, 7][..]);
}

#[test]
fn decode_without_whole_message_keeps_buffer() {
    let mut codec = FrillsCodec {};
    let mut src = BytesMut::from(&[1u8, 2][..]);
    assert!(codec.decode(&mut src, None).ok().unwrap().is_none());
    assert_eq!(src.len(), 2);
    let mut empty = BytesMut::new();
    let message = FrillsMessage::ClientToServer(FrillsClientToServer::Disconnect);
    assert!(codec.decode(&mut empty, Some((message, 5))).ok().unwrap().is_none());
}

#[test]
fn port_parsing() {
    assert_eq!(get_port(None), 12345);
    assert_eq!(DEFAULT_PORT, 12345);
    assert_eq!(get_port(Some("8080")), 8080);
    assert_eq!(get_port(Some("+80")), 80);
    assert_eq!(get_port(Some("0065535")), 65535);
    assert_eq!(get_port(Some("65536")), 12345);
    assert_eq!(get_port(Some("")), 12345);
    assert_eq!(get_port(Some("+")), 12345);
    assert_eq!(get_port(Some("-1")), 12345);
    assert_eq!(get_port(Some("12a")), 12345);
    assert_eq!(get_port(Some(" 80")), 12345);
    assert_eq!(get_port(Some("99999999999")), 12345);
}

#[test]
fn next_either_batch_limits_and_pending() {
    let mut batch: NextEitherBatch<u32, u8> = NextEitherBatch::new();
    assert!(batch.wants_left() && batch.wants_right());
    let mut n = 0u32;
    while batch.wants_left() {
        batch.push_left(n);
        n += 1;
    }
    assert_eq!(n as usize, POLL_BATCH_LIMIT);
    batch.push_right(7);
    let (left, right) = batch.finish().unwrap();
    assert_eq!(left.len(), 100);
    assert_eq!(left[99], 99);
    assert_eq!(right, vec![7]);
    let empty: NextEitherBatch<u32, u8> = NextEitherBatch::new();
    assert!(empty.finish().is_none());
}

#[test]
fn codec_fit_checks() {
    let codec = FrillsCodec {};
    let buffer = BytesMut::from(&[1u8, 2, 3][..]);
    assert!(codec.encode_fits(&Some(vec![4, 5]), &buffer));
    assert!(codec.encode_fits(&None, &buffer));
    let message = FrillsMessage::ClientToServer(FrillsClientToServer::Shutdown);
    assert!(codec.decode_fits(&buffer, &Some((message, 3))));
    let message = FrillsMessage::ClientToServer(FrillsClientToServer::Shutdown);
    assert!(!codec.decode_fits(&buffer, &Some((message, 4))));
    assert!(codec.decode_fits(&buffer, &None));
    let empty = BytesMut::new();
    let message = FrillsMessage::ClientToServer(FrillsClientToServer::Shutdown);
    assert!(codec.decode_fits(&empty, &Some((message, 9))));
}
