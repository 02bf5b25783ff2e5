use rcargo::protocol::{Message, SandboxConfig};
use rcargo::wire::{ProtocolReader, ProtocolWriter, ReceiveError};

fn roundtrip(msg: &Message) {
    let encoded = msg.encode();
    let decoded = Message::decode(&encoded).expect("decode failed");
    assert_eq!(msg.encode(), decoded.encode());
}

fn wire_roundtrip(msg: &Message) {
    let encoded = msg.encode();
    let len = encoded.len() as u32;
    let mut buf = Vec::new();
    buf.extend_from_slice(&len.to_be_bytes());
    buf.extend_from_slice(encoded.as_bytes());

    let mut reader = ProtocolReader::new(buf);
    let decoded = reader.receive().expect("wire read failed");
    assert_eq!(msg.encode(), decoded.encode());
}

#[test]
fn handshake_roundtrip() {
    roundtrip(&Message::Handshake {
        version: "0.1.0".into(),
        os: "linux".into(),
        arch: "x86_64".into(),
    });
}

#[test]
fn list_roundtrip() {
    roundtrip(&Message::List);
    roundtrip(&Message::EndList);
}

#[test]
fn file_roundtrip() {
    roundtrip(&Message::File {
        path: "src/main.rs".into(),
        size: 1234,
        mtime: 1700000000,
    });
}

#[test]
fn file_with_spaces_roundtrip() {
    roundtrip(&Message::File {
        path: "src/my file.rs".into(),
        size: 1234,
        mtime: 1700000000,
    });
}

#[test]
fn skip_delete_roundtrip() {
    roundtrip(&Message::Skip { path: "foo.rs".into() });
    roundtrip(&Message::Delete { path: "old.rs".into() });
}

#[test]
fn delta_request_roundtrip() {
    roundtrip(&Message::DeltaRequest { path: "big.bin".into() });
    roundtrip(&Message::EndSigsRequest);
    roundtrip(&Message::EndSigs);
}

#[test]
fn sig_roundtrip() {
    roundtrip(&Message::Sig {
        path: "a.rs".into(),
        sig: "base64data".into(),
    });
}

#[test]
fn sig_with_spaces_roundtrip() {
    roundtrip(&Message::Sig {
        path: "my file.rs".into(),
        sig: "base64data".into(),
    });
}

#[test]
fn delta_roundtrip() {
    roundtrip(&Message::Delta {
        path: "a.rs".into(),
        delta: "base64delta".into(),
        sha256: "a".repeat(64),
    });
}

#[test]
fn delta_with_spaces_roundtrip() {
    roundtrip(&Message::Delta {
        path: "src/my file.rs".into(),
        delta: "base64delta".into(),
        sha256: "a".repeat(64),
    });
}

#[test]
fn data_roundtrip() {
    roundtrip(&Message::Data {
        path: "a.rs".into(),
        data: "base64content".into(),
    });
}

#[test]
fn data_with_spaces_roundtrip() {
    roundtrip(&Message::Data {
        path: "src/my file.rs".into(),
        data: "base64content".into(),
    });
}

#[test]
fn end_sync_roundtrip() {
    roundtrip(&Message::EndSync);
}

#[test]
fn sandbox_roundtrip() {
    roundtrip(&Message::Sandbox {
        enabled: true,
        workdir: "/home/user/proj".into(),
        write: vec!["/home/user/.cargo".into(), "/home/user/proj".into()],
        read: vec!["/usr/include".into()],
        net: vec!["crates.io".into(), "github.com".into()],
    });
}

#[test]
fn sandbox_config_roundtrip() {
    let config = SandboxConfig {
        enabled: true,
        workdir: "/home/user/proj".into(),
        write: vec!["/home/user/.cargo".into(), "/home/user/proj".into()],
        read: vec!["/usr/include".into()],
        net: vec!["crates.io".into(), "github.com".into()],
    };
    let encoded = config.encode();
    let decoded = SandboxConfig::decode(&encoded).expect("decode failed");
    assert_eq!(config.encode(), decoded.encode());
}

#[test]
fn sandbox_config_no_net_roundtrip() {
    let config = SandboxConfig {
        enabled: false,
        workdir: "/tmp".into(),
        write: vec![],
        read: vec![],
        net: vec![],
    };
    let encoded = config.encode();
    let decoded = SandboxConfig::decode(&encoded).expect("decode failed");
    assert_eq!(config.encode(), decoded.encode());
}

#[test]
fn sandbox_no_net_roundtrip() {
    roundtrip(&Message::Sandbox {
        enabled: false,
        workdir: "/tmp".into(),
        write: vec![],
        read: vec![],
        net: vec![],
    });
}

#[test]
fn run_roundtrip() {
    roundtrip(&Message::Run {
        command: "cd /tmp && cargo build".into(),
    });
}

#[test]
fn error_roundtrip() {
    roundtrip(&Message::Error("something went wrong".into()));
}

#[test]
fn ok_roundtrip() {
    roundtrip(&Message::Okay);
}

#[test]
fn wire_handshake() {
    wire_roundtrip(&Message::Handshake {
        version: "0.1.0".into(),
        os: "macos".into(),
        arch: "aarch64".into(),
    });
}

#[test]
fn wire_data() {
    wire_roundtrip(&Message::Data {
        path: "file.rs".into(),
        data: "aG9sb2E=".into(),
    });
}

#[test]
fn decode_error_on_bad_type() {
    assert!(Message::decode("BOGUS foo").is_err());
}

#[test]
fn decode_error_on_bad_handshake() {
    assert!(Message::decode("HANDSHAKE only_one_arg").is_err());
}

#[test]
fn decode_error_on_bad_file_size() {
    assert!(Message::decode("FILE a not_a_number 123").is_err());
}

// ---------------------------------------------------------------------------

#[test]
fn encode_exact_texts() {
    assert_eq!(Message::Okay.encode(), "OK");
    assert_eq!(
        Message::File { path: "a b".into(), size: 0, mtime: 42 }.encode(),
        "FILE a b 0 42"
    );
    let c = SandboxConfig {
        enabled: true,
        workdir: "/w".into(),
        write: vec!["/a".into()],
        read: vec!["/r".into()],
        net: vec!["x.io".into()],
    };
    assert_eq!(c.encode(), "1 /w write:/a read:/r -- x.io");
}

#[test]
fn decode_error_texts() {
    assert_eq!(
        Message::decode("BOGUS foo").unwrap_err(),
        "unknown message type: BOGUS"
    );
    assert_eq!(
        Message::decode("HANDSHAKE only_one_arg").unwrap_err(),
        "invalid HANDSHAKE"
    );
    assert_eq!(
        Message::decode("FILE a not_a_number 123").unwrap_err(),
        "bad size: invalid digit found in string"
    );
    assert_eq!(
        Message::decode("FILE a 1 99999999999999999999").unwrap_err(),
        "bad mtime: number too large to fit in target type"
    );
    assert_eq!(Message::decode("SIG nospace").unwrap_err(), "invalid SIG");
}

#[test]
fn decode_splits_paths_with_spaces() {
    match Message::decode("DELTA my dir/a b.rs ZGVsdGE= abc").unwrap() {
        Message::Delta { path, delta, sha256 } => {
            assert_eq!(path, "my dir/a b.rs");
            assert_eq!(delta, "ZGVsdGE=");
            assert_eq!(sha256, "abc");
        }
        other => panic!("unexpected {other:?}"),
    }
}

#[test]
fn sandbox_decode_fields() {
    let c = SandboxConfig::decode("1 /w write:/a read:/r other -- x.io y.io").unwrap();
    assert!(c.enabled);
    assert_eq!(c.workdir, "/w");
    assert_eq!(c.write, vec!["/a".to_string()]);
    assert_eq!(c.read, vec!["/r".to_string()]);
    assert_eq!(c.net, vec!["x.io".to_string(), "y.io".to_string()]);
    assert_eq!(
        SandboxConfig::decode("").unwrap_err(),
        "missing SANDBOX enabled"
    );
    assert_eq!(
        SandboxConfig::decode("1").unwrap_err(),
        "missing SANDBOX workdir"
    );
}

#[test]
fn writer_frames_and_reader_splits() {
    let mut w = ProtocolWriter::new();
    w.send(&Message::List);
    w.send(&Message::Error("x y".into()));
    let bytes = w.take_output();
    assert_eq!(&bytes[..8], &[0, 0, 0, 4, b'L', b'I', b'S', b'T']);
    let mut r = ProtocolReader::new(bytes);
    assert_eq!(r.receive().unwrap().encode(), "LIST");
    assert_eq!(r.receive().unwrap().encode(), "ERROR x y");
    assert!(matches!(r.receive(), Err(ReceiveError::Incomplete)));
}

#[test]
fn reader_waits_for_whole_frame() {
    let mut r = ProtocolReader::new(vec![0, 0, 0, 2, b'O']);
    assert!(matches!(r.receive(), Err(ReceiveError::Incomplete)));
    r.feed(b"K");
    assert_eq!(r.receive().unwrap().encode(), "OK");
}

#[test]
fn reader_rejects_bad_frames() {
    let mut r = ProtocolReader::new(vec![0, 0, 0, 1, 0xff]);
    assert!(matches!(r.receive(), Err(ReceiveError::InvalidUtf8)));
    let mut r = ProtocolReader::new(vec![0, 0, 0, 3, b'B', b'A', b'D']);
    match r.receive() {
        Err(ReceiveError::InvalidMessage(e)) => assert_eq!(e, "unknown message type: BAD"),
        _ => panic!("expected an invalid message"),
    }
}
