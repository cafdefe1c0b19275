use mozim::{decode, encode, CodecError, DhcpOption, Message};

fn sample() -> Message {
    Message {
        op: 1,
        htype: 1,
        hlen: 6,
        hops: 0,
        xid: 0xdead_beef,
        secs: 3,
        flags: 0x8000,
        ciaddr: 0,
        yiaddr: 0x0a00_0001,
        siaddr: 0,
        giaddr: 0,
        chaddr: vec![0, 0x23, 0x45, 0x67, 0x89, 0x1a, 0, 0, 0, 0, 0, 0, 0, 0, 0, 0],
        sname: vec![0; 64],
        file: vec![0; 128],
        options: vec![
            DhcpOption { code: 53, data: vec![1] },
            DhcpOption { code: 224, data: vec![9, 8, 7] },
            DhcpOption { code: 12, data: b"foo1".to_vec() },
            DhcpOption { code: 250, data: vec![] },
        ],
    }
}

fn frame_with(options: &[u8]) -> Vec<u8> {
    let mut f = vec![0u8; 236];
    f[0] = 2;
    f.extend_from_slice(&[0x63, 0x82, 0x53, 0x63]);
    f.extend_from_slice(options);
    f
}

#[test]
fn round_trip_keeps_unknown_tags() {
    let m = sample();
    assert_eq!(decode(&encode(&m)), Ok(m));
}

#[test]
fn encode_layout() {
    let f = encode(&sample());
    assert_eq!(f.len(), 300);
    assert_eq!(&f[4..8], &[0xde, 0xad, 0xbe, 0xef]);
    assert_eq!(&f[236..240], &[0x63, 0x82, 0x53, 0x63]);
    assert_eq!(&f[240..243], &[53, 1, 1]);
    assert_eq!(&f[243..248], &[224, 3, 9, 8, 7]);
    assert_eq!(f[256], 255);
    assert!(f[257..].iter().all(|b| *b == 0));
}

#[test]
fn short_frame_is_malformed() {
    assert_eq!(decode(&[0u8; 239]), Err(CodecError::Malformed));
    assert_eq!(decode(&[]), Err(CodecError::Malformed));
}

#[test]
fn bad_cookie_is_malformed() {
    let mut f = encode(&sample());
    f[238] = 0;
    assert_eq!(decode(&f), Err(CodecError::Malformed));
}

#[test]
fn truncated_option_is_malformed() {
    assert_eq!(decode(&frame_with(&[12, 5, b'a', b'b'])), Err(CodecError::Malformed));
    assert_eq!(decode(&frame_with(&[12])), Err(CodecError::Malformed));
}

#[test]
fn pad_skipped_and_end_optional() {
    let m = decode(&frame_with(&[0, 0, 53, 1, 5])).unwrap();
    assert_eq!(m.options, vec![DhcpOption { code: 53, data: vec![5] }]);
    assert_eq!(m.op, 2);
}

#[test]
fn overload_chains_file_then_sname() {
    let mut f = frame_with(&[53, 1, 2, 52, 1, 3, 255]);
    f[108..114].copy_from_slice(&[12, 3, b'a', b'b', b'c', 255]);
    f[44..51].copy_from_slice(&[54, 4, 192, 0, 2, 1, 255]);
    let m = decode(&f).unwrap();
    assert_eq!(
        m.options,
        vec![
            DhcpOption { code: 53, data: vec![2] },
            DhcpOption { code: 12, data: b"abc".to_vec() },
            DhcpOption { code: 54, data: vec![192, 0, 2, 1] },
        ]
    );
}

#[test]
fn overload_with_broken_file_is_malformed() {
    let mut f = frame_with(&[52, 1, 1, 255]);
    f[108 + 126] = 12;
    f[108 + 127] = 9;
    assert_eq!(decode(&f), Err(CodecError::Malformed));
}
