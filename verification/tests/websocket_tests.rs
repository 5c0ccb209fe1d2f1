use doorctl::websocket::{sec_websocket_accept_val, WebsocketError, WebsocketFrame};

fn frame(len: usize, mask: Option<[u8; 4]>) -> WebsocketFrame {
    WebsocketFrame { opcode: 2, len, fin: true, masked: mask.is_some(), mask }
}

fn roundtrip(len: usize, mask: Option<[u8; 4]>) {
    let f = frame(len, mask);
    let header = f.encode();
    let d = WebsocketFrame::decode(&header).unwrap();
    assert_eq!(d.opcode, 2);
    assert!(d.fin);
    assert_eq!(d.len, len);
    assert_eq!(d.masked, mask.is_some());
    assert_eq!(d.mask, mask);
}

#[test]
fn ws_header_roundtrip_boundary_lengths() {
    for len in [0usize, 125, 126, 65535, 65536] {
        roundtrip(len, None);
        roundtrip(len, Some([1, 2, 3, 4]));
    }
}

#[test]
fn ws_header_lengths_choose_minimal_encoding() {
    assert_eq!(frame(0, None).encode().len(), 2);
    assert_eq!(frame(125, None).encode().len(), 2);
    assert_eq!(frame(126, None).encode().len(), 4);
    assert_eq!(frame(65535, None).encode().len(), 4);
    assert_eq!(frame(65536, None).encode().len(), 10);
    assert_eq!(frame(0, Some([9, 9, 9, 9])).encode().len(), 6);
}

#[test]
fn ws_mask_roundtrip_restores_payload() {
    let f = frame(5, Some([0xa5, 0x5a, 0xff, 0x00]));
    let payload = "hello more".as_bytes().to_vec();
    let mut masked = payload.clone();
    f.apply_mask(&mut masked);
    assert_ne!(masked, payload);
    // only the first `len` bytes are masked
    assert_eq!(&masked[5..], &payload[5..]);
    f.apply_mask(&mut masked);
    assert_eq!(masked, payload);
}

#[test]
fn ws_decode_asks_for_exact_missing_bytes() {
    // a bare first byte: one more is needed
    match WebsocketFrame::decode(&[0x82]) {
        Err(WebsocketError::InsufficientData(n)) => assert_eq!(n, 1),
        r => panic!("unexpected: {:?}", r),
    }
    // 16-bit length announced, no length bytes yet
    match WebsocketFrame::decode(&[0x82, 126]) {
        Err(WebsocketError::InsufficientData(n)) => assert_eq!(n, 2),
        r => panic!("unexpected: {:?}", r),
    }
    // 64-bit length announced, no length bytes yet
    match WebsocketFrame::decode(&[0x82, 127]) {
        Err(WebsocketError::InsufficientData(n)) => assert_eq!(n, 8),
        r => panic!("unexpected: {:?}", r),
    }
    // masked short frame: the four mask bytes are missing
    match WebsocketFrame::decode(&[0x82, 0x85]) {
        Err(WebsocketError::InsufficientData(n)) => assert_eq!(n, 4),
        r => panic!("unexpected: {:?}", r),
    }
}

#[test]
fn ws_decode_rejects_fragmentation() {
    // fin clear
    assert!(matches!(
        WebsocketFrame::decode(&[0x02, 0x00]),
        Err(WebsocketError::Unsupported(_))
    ));
    // opcode 0 (continuation)
    assert!(matches!(
        WebsocketFrame::decode(&[0x80, 0x00]),
        Err(WebsocketError::Unsupported(_))
    ));
}

#[test]
fn ws_decode_reads_mask_bytes() {
    let d = WebsocketFrame::decode(&[0x82, 0x83, 7, 8, 9, 10]).unwrap();
    assert_eq!(d.len, 3);
    assert!(d.masked);
    assert_eq!(d.mask, Some([7, 8, 9, 10]));
}

#[test]
fn sec_websocket_accept_rfc6455_vector() {
    let accept = sec_websocket_accept_val("dGhlIHNhbXBsZSBub25jZQ==");
    assert_eq!(accept, "s3pPLMBiTxaQ9kYGzzhZRbK+xOo=".as_bytes().to_vec());
}
