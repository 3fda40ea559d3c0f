use spawn_protocol::codec::{encode, join, Request, Response};
use spawn_protocol::{Cmd, ProtocolError};

#[test]
fn header_layout_is_stable() {
    let p = encode(Cmd::GetDeviceInfo, 24, 0, None, 32, None, true);
    assert_eq!(p.len(), 32);
    assert_eq!(p[0], 0xAA);
    assert_eq!(p[1], 0x10);
    assert_eq!(p[2], 24);
    assert_eq!(p[3], 0);
    assert_eq!(p[4], 0);
    assert_eq!(p[6], 1, "final-chunk flag");
}

#[test]
fn address_is_little_endian() {
    let p = encode(Cmd::GetKey, 4, 0x0140, None, 32, None, true);
    assert_eq!(p[3], 0x40);
    assert_eq!(p[4], 0x01);
}

#[test]
fn other_header_claims_slot_six() {
    let hdr = [Some(1u8), Some(2u8), Some(3u8)];
    let p = encode(Cmd::SetMusicData, 0, 0, None, 32, Some(hdr), true);
    assert_eq!(&p[5..8], &[1, 2, 3]);
    assert_eq!(p[6], 2, "command header wins over the final-chunk flag");
}

#[test]
fn partial_other_header_leaves_flag_intact() {
    let hdr = [Some(9u8), None, None];
    let p = encode(Cmd::SetMusicData, 0, 0, None, 32, Some(hdr), true);
    assert_eq!(p[5], 9);
    assert_eq!(p[6], 1, "slot 6 unclaimed, flag still written");
}

#[test]
fn chunking_covers_payload_exactly() {
    // 1008 bytes of rapid-trigger data over 24-byte chunks.
    let data = vec![7u8; 1008];
    let req = Request::write(Cmd::SetMagneticAxisRt, &data);
    let packets: Vec<_> = req.plan().into_packets();
    assert_eq!(packets.len(), 42, "1008 / 24");

    let mut seen = Vec::new();
    for (i, p) in packets.iter().enumerate() {
        assert_eq!(p.0[1], Cmd::SetMagneticAxisRt.raw());
        let addr = u16::from_le_bytes([p.0[3], p.0[4]]);
        assert_eq!(addr as usize, i * 24);
        seen.extend_from_slice(&p.0[8..8 + p.0[2] as usize]);
    }
    assert_eq!(seen, data, "reassembled payload matches the source");
    assert_eq!(packets.last().unwrap().0[6], 1, "last packet flagged");
    assert_eq!(packets[0].0[6], 0, "first packet not flagged");
}

#[test]
fn ragged_final_chunk_reports_its_real_length() {
    let data = vec![1u8; 50]; // 24 + 24 + 2
    let packets: Vec<_> = Request::write(Cmd::SetKey, &data).plan().into_packets();
    assert_eq!(packets.len(), 3);
    assert_eq!(packets[0].0[2], 24);
    assert_eq!(packets[1].0[2], 24);
    assert_eq!(packets[2].0[2], 2);
}

#[test]
fn sixty_four_byte_reports_use_larger_chunks() {
    let data = vec![0u8; 504];
    let req = Request::write(Cmd::SetCustomLedData, &data).with_packet_len(64);
    let packets: Vec<_> = req.plan().into_packets();
    assert_eq!(req.chunk_capacity(), 56);
    assert_eq!(packets.len(), 9, "504 / 56");
    assert_eq!(packets[0].0.len(), 64);
}

#[test]
fn response_round_trip() {
    let mut raw = vec![0u8; 32];
    raw[0] = 0x55;
    raw[1] = Cmd::GetDeviceInfo.raw();
    raw[2] = 24;
    raw[3] = 0x10;
    raw[4] = 0x00;
    raw[8] = 0xAB;
    let r = Response::parse(&raw)
        .unwrap()
        .expect(Cmd::GetDeviceInfo)
        .unwrap();
    assert_eq!(r.addr, 0x0010);
    assert_eq!(r.data[0], 0xAB);
}

#[test]
fn response_rejects_bad_magic() {
    let raw = [0xAAu8; 32];
    assert!(matches!(
        Response::parse(&raw),
        Err(ProtocolError::BadMagic(0xAA))
    ));
}

#[test]
fn response_rejects_wrong_command() {
    let mut raw = vec![0u8; 32];
    raw[0] = 0x55;
    raw[1] = Cmd::GetKey.raw();
    let err = Response::parse(&raw).unwrap().expect(Cmd::GetLedEffect);
    assert!(matches!(err, Err(ProtocolError::CmdMismatch { .. })));
}

#[test]
fn join_trims_padding() {
    let chunks = vec![
        Response {
            cmd: 0x10,
            len_or_type: 24,
            addr: 0,
            data: vec![1u8; 24],
        },
        Response {
            cmd: 0x10,
            len_or_type: 24,
            addr: 24,
            data: vec![2u8; 24],
        },
    ];
    let joined = join(&chunks, 48).unwrap();
    assert_eq!(joined.len(), 48);
    assert_eq!(joined[47], 2);
}

#[test]
fn a_packet_shorter_than_its_header_is_refused() {
    assert_eq!(
        Response::parse(&[0x55, 0x10, 0, 0]),
        Err(ProtocolError::Short { got: 4, need: 8 })
    );
}

#[test]
fn a_short_reply_is_reported_truncated() {
    let chunks = vec![Response {
        cmd: 0x10,
        len_or_type: 24,
        addr: 0,
        data: vec![1u8; 24],
    }];
    assert_eq!(
        join(&chunks, 48),
        Err(ProtocolError::Truncated { got: 24, want: 48 })
    );
    assert_eq!(join(&[], 0), Ok(Vec::new()));
}

#[test]
fn a_matching_reply_is_accepted() {
    let mut raw = vec![0u8; 32];
    raw[0] = 0x55;
    raw[1] = Cmd::GetKey.raw();
    raw[3] = 0x34;
    raw[4] = 0x12;
    let r = Response::parse(&raw).unwrap().expect(Cmd::GetKey).unwrap();
    assert_eq!(r.addr, 0x1234);
    assert_eq!(r.data.len(), 24);
}
