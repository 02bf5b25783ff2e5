use base64::Engine;
use rcargo::client::{
    build_sandbox_message, classify, deletions, delta_message, delta_reply, disabled_sandbox_message,
    signature_for, take_listing, take_signature, upload_message, DeltaReply, Disposition,
    ListStep, SigStep,
};
use rcargo::config::Config;
use rcargo::protocol::Message;
use rcargo::session::{file_step, FileAction, FileOp};
use rcargo::shim::{apply_delta, compute_signature, PathFacts, RemoteFile};

fn rf(path: &str, size: u64, mtime: u64) -> RemoteFile {
    RemoteFile { path: path.into(), size, mtime }
}

#[test]
fn sandbox_message_when_disabled() {
    let mut cfg = Config::default();
    cfg.sandbox.enabled = false;
    assert_eq!(
        build_sandbox_message(&cfg, "/r", "/h").encode(),
        "SANDBOX 0 /r"
    );
    assert_eq!(disabled_sandbox_message("/r").encode(), "SANDBOX 0 /r");
}

#[test]
fn sandbox_message_when_enabled() {
    let mut cfg = Config::default();
    cfg.sandbox.allow.write.push("/opt/cache".into());
    cfg.sandbox.allow.net.push("internal.registry.com".into());
    match build_sandbox_message(&cfg, "/r", "/h") {
        Message::Sandbox { enabled, workdir, write, read, net } => {
            assert!(enabled);
            assert_eq!(workdir, "/r");
            assert_eq!(write, vec!["/h/.rustup", "/h/.cargo", "/r", "/tmp", "/opt/cache"]);
            assert_eq!(read, vec!["/usr/libexec", "/usr/include"]);
            assert_eq!(
                net,
                vec![
                    "crates.io",
                    "index.crates.io",
                    "static.crates.io",
                    "static.rust-lang.org",
                    "github.com",
                    "internal.registry.com"
                ]
            );
        }
        other => panic!("unexpected {other:?}"),
    }
}

#[test]
fn listing_collects_until_end() {
    let mut files = Vec::new();
    assert!(matches!(
        take_listing(&mut files, Message::File { path: "a".into(), size: 1, mtime: 2 }),
        ListStep::More
    ));
    assert!(matches!(take_listing(&mut files, Message::EndList), ListStep::Done));
    assert!(matches!(
        take_listing(&mut files, Message::Okay),
        ListStep::Unexpected(Message::Okay)
    ));
    assert_eq!(files.len(), 1);
    assert_eq!(files[0].path, "a");
}

#[test]
fn classification() {
    let remote = vec![rf("same.rs", 1, 1), rf("changed.rs", 1, 1), rf("changed.rs", 2, 2)];
    let local = vec![rf("same.rs", 1, 1), rf("changed.rs", 2, 3), rf("new.rs", 5, 5)];
    let c = classify(&remote, &local);
    assert_eq!(
        c,
        vec![
            ("same.rs".to_string(), Disposition::Same),
            ("changed.rs".to_string(), Disposition::Changed),
            ("new.rs".to_string(), Disposition::New),
        ]
    );
    let local_dup = vec![rf("a", 1, 1), rf("a", 2, 2)];
    let remote_a = vec![rf("a", 2, 2)];
    assert_eq!(classify(&remote_a, &local_dup), vec![("a".to_string(), Disposition::Same)]);
}

#[test]
fn deletion_candidates() {
    let remote = vec![
        rf("gone.rs", 1, 1),
        rf("kept.rs", 1, 1),
        rf("target/x", 1, 1),
        rf("gone.rs", 2, 2),
    ];
    let local = vec![rf("kept.rs", 1, 1)];
    assert_eq!(deletions(&remote, &local), vec!["gone.rs".to_string()]);
}

#[test]
fn signatures_collect_and_lookup() {
    let mut sigs = Vec::new();
    assert!(matches!(
        take_signature(&mut sigs, Message::Sig { path: "a".into(), sig: "s1".into() }),
        SigStep::More
    ));
    take_signature(&mut sigs, Message::Sig { path: "a".into(), sig: "s2".into() });
    assert!(matches!(take_signature(&mut sigs, Message::EndSigs), SigStep::Done));
    assert!(matches!(take_signature(&mut sigs, Message::List), SigStep::Unexpected(Message::List)));
    assert_eq!(signature_for(&sigs, "a"), Some("s2".to_string()));
    assert_eq!(signature_for(&sigs, "b"), None);
}

#[test]
fn upload_reaches_the_shim_unchanged() {
    let bytes = b"fn main() {}\n".to_vec();
    let m = upload_message("src/main.rs".into(), &bytes);
    let data = match m {
        Message::Data { path, data } => {
            assert_eq!(path, "src/main.rs");
            data
        }
        other => panic!("unexpected {other:?}"),
    };
    let facts = PathFacts { workdir_canonical: Ok("/w".into()), target: None, parent: None };
    match file_step("/w", "src/main.rs".into(), &facts, FileOp::Upload { data }) {
        FileAction::Write { full, bytes: got } => {
            assert_eq!(full, "/w/src/main.rs");
            assert_eq!(got, bytes);
        }
        other => panic!("unexpected {other:?}"),
    }
}

#[test]
fn delta_message_rebuilds_local_file() {
    let remote_old = b"the old remote content of the file";
    let local = b"the new local content of the file, longer";
    let sig = compute_signature(remote_old);
    let sig_b64 = base64::engine::general_purpose::STANDARD.encode(&sig);
    let m = delta_message("f.rs".into(), &sig_b64, local).unwrap().unwrap();
    match m {
        Message::Delta { path, delta, sha256 } => {
            assert_eq!(path, "f.rs");
            assert_eq!(sha256.len(), 64);
            assert_eq!(apply_delta(remote_old, &delta, &sha256).unwrap(), local.to_vec());
        }
        other => panic!("unexpected {other:?}"),
    }
}

#[test]
fn delta_message_errors() {
    assert!(delta_message("f".into(), "%%%", b"x").unwrap().is_err());
    let bad = base64::engine::general_purpose::STANDARD.encode(b"short");
    assert_eq!(
        delta_message("f".into(), &bad, b"x").unwrap().unwrap_err(),
        "bad signature: invalid or unsupported signature"
    );
    let mut zero = compute_signature(b"abc");
    zero[4] = 0;
    zero[5] = 0;
    zero[6] = 0;
    zero[7] = 0;
    let zero_b64 = base64::engine::general_purpose::STANDARD.encode(&zero);
    assert!(delta_message("f".into(), &zero_b64, b"x").is_none());
}

#[test]
fn delta_replies() {
    assert!(matches!(delta_reply(Message::Okay), DeltaReply::Applied));
    match delta_reply(Message::Error("no".into())) {
        DeltaReply::Resend(e) => assert_eq!(e, "no"),
        other => panic!("unexpected {other:?}"),
    }
    assert!(matches!(delta_reply(Message::EndSync), DeltaReply::Unexpected(Message::EndSync)));
}
