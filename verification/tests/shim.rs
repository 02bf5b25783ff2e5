use base64::Engine;
use rcargo::protocol::Message;
use rcargo::session::{
    delta_outcome, file_step, signature_reply, unreadable_for_delta, DeltaOutcome, FileAction,
    FileOp, ShimAction, ShimState,
};
use rcargo::shim::{
    apply_delta, compute_signature, decode_upload, join_path, list_local_files, should_exclude,
    should_exclude_dir, validate_path, PathFacts, RemoteFile,
};
use sha2::Digest;

fn sha256_hex(data: &[u8]) -> String {
    sha2::Sha256::digest(data)
        .iter()
        .map(|b| format!("{b:02x}"))
        .collect()
}

fn b64(data: &[u8]) -> String {
    base64::engine::general_purpose::STANDARD.encode(data)
}

fn make_delta(sig: Vec<u8>, new_data: &[u8]) -> Vec<u8> {
    let mut delta = Vec::new();
    let sig_obj = fast_rsync::Signature::deserialize(sig).unwrap();
    fast_rsync::diff(&sig_obj.index(), new_data, &mut delta).unwrap();
    delta
}

#[test]
fn signature_and_delta_roundtrip() {
    let old_data = b"hello world, this is the old content";
    let new_data = b"hello world, this is the new content!!!";

    let sig = compute_signature(old_data);
    assert!(!sig.is_empty());

    let delta = make_delta(sig.clone(), new_data);

    let result = apply_delta(old_data, &b64(&delta), &sha256_hex(new_data)).unwrap();
    assert_eq!(result, new_data);
}

#[test]
fn delta_rejects_wrong_sha256() {
    let old_data = b"old";
    let new_data = b"new";

    let sig = compute_signature(old_data);
    let delta = make_delta(sig, new_data);

    let wrong_hash = "0".repeat(64);
    let result = apply_delta(old_data, &b64(&delta), &wrong_hash);
    assert!(result.is_err());
    assert!(result.unwrap_err().contains("SHA-256 mismatch"));
}

// ---------------------------------------------------------------------------

fn facts_ok(workdir: &str, target: Option<(bool, &str)>) -> PathFacts {
    PathFacts {
        workdir_canonical: Ok(workdir.to_string()),
        target: target.map(|(l, c)| (l, Ok(c.to_string()))),
        parent: None,
    }
}

#[test]
fn validate_simple_path() {
    let f = facts_ok("/w", Some((false, "/w/hello.txt")));
    assert_eq!(validate_path("/w", "hello.txt", &f).unwrap(), "/w/hello.txt");
}

#[test]
fn validate_nested_path() {
    let f = facts_ok("/w", Some((false, "/w/a/b/hello.txt")));
    assert_eq!(validate_path("/w", "a/b/hello.txt", &f).unwrap(), "/w/a/b/hello.txt");
    assert_eq!(validate_path("/w/", "a/b/hello.txt", &f).unwrap(), "/w/a/b/hello.txt");
}

#[test]
fn validate_rejects_dotdot() {
    assert!(validate_path("/w", "../etc/passwd", &facts_ok("/w", None)).is_err());
}

#[test]
fn validate_rejects_dotdot_in_middle() {
    assert!(validate_path("/w", "foo/../../etc/passwd", &facts_ok("/w", None)).is_err());
}

#[test]
fn validate_rejects_dotdot_embedded() {
    assert!(validate_path("/w", "foo/..", &facts_ok("/w", None)).is_err());
}

#[test]
fn validate_rejects_symlink() {
    let f = facts_ok("/w", Some((true, "/etc/passwd")));
    assert!(validate_path("/w", "link", &f).is_err());
}

#[test]
fn validate_rejects_symlink_to_parent() {
    let f = facts_ok("/w", Some((true, "/")));
    assert!(validate_path("/w", "sneaky", &f).is_err());
}

#[test]
fn validate_file_not_exists_no_parent() {
    let f = PathFacts {
        workdir_canonical: Ok("/w".into()),
        target: None,
        parent: Some(("/w/nonexistent/deep".into(), false, Err("gone".into()))),
    };
    assert!(validate_path("/w", "nonexistent/deep/file.txt", &f).is_ok());
}

#[test]
fn validate_error_texts() {
    let f = facts_ok("/w", None);
    for p in ["../etc/passwd", "foo/../../etc/passwd", "foo/.."] {
        assert_eq!(
            validate_path("/w", p, &f).unwrap_err(),
            format!("path component '..' is not allowed in {p}")
        );
    }
    assert!(validate_path("/w", "foo/..bar", &f).is_ok());
    let f = facts_ok("/w", Some((true, "/etc/passwd")));
    assert_eq!(validate_path("/w", "link", &f).unwrap_err(), "symlink link is not allowed");
    let f = facts_ok("/w", Some((false, "/etc/passwd")));
    assert_eq!(validate_path("/w", "x", &f).unwrap_err(), "path x escapes workdir");
    let f = facts_ok("/w", Some((false, "/wx/a")));
    assert_eq!(validate_path("/w", "a", &f).unwrap_err(), "path a escapes workdir");
}

#[test]
fn validate_checks_existing_parent() {
    let f = PathFacts {
        workdir_canonical: Ok("/w".into()),
        target: None,
        parent: Some(("/w/sub".into(), true, Ok("/other".into()))),
    };
    assert_eq!(validate_path("/w", "sub/new", &f).unwrap_err(), "path sub/new escapes workdir");
    let f = PathFacts {
        workdir_canonical: Ok("/w".into()),
        target: None,
        parent: Some(("/w/p".into(), true, Err("denied".into()))),
    };
    assert_eq!(validate_path("/w", "p/f", &f).unwrap_err(), "cannot resolve /w/p: denied");
    let f = PathFacts {
        workdir_canonical: Err("No such file or directory (os error 2)".into()),
        target: None,
        parent: None,
    };
    assert_eq!(
        validate_path("/w", "f", &f).unwrap_err(),
        "cannot resolve workdir: No such file or directory (os error 2)"
    );
}

#[test]
fn join_path_like_path_join() {
    assert_eq!(join_path("/w", "a"), "/w/a");
    assert_eq!(join_path("/w/", "a"), "/w/a");
    assert_eq!(join_path("", "a"), "a");
    assert_eq!(join_path("/w", "/etc/passwd"), "/etc/passwd");
}

#[test]
fn exclusion_rules() {
    assert!(should_exclude(".git/HEAD"));
    assert!(should_exclude("target/release/binary"));
    assert!(should_exclude("crates/x/target/debug"));
    assert!(!should_exclude("src/targets.rs"));
    assert!(!should_exclude("a.rs"));
    assert!(should_exclude_dir(Some(".git")));
    assert!(should_exclude_dir(Some("target")));
    assert!(!should_exclude_dir(Some("src")));
    assert!(!should_exclude_dir(None));
}

#[test]
fn list_local_files_finds_files() {
    let found = vec![
        RemoteFile { path: "a.rs".into(), size: 12, mtime: 1 },
        RemoteFile { path: "src/lib.rs".into(), size: 0, mtime: 1 },
    ];
    let files = list_local_files(found);
    let paths: Vec<&str> = files.iter().map(|f| f.path.as_str()).collect();
    assert!(paths.contains(&"a.rs"));
    assert!(paths.contains(&"src/lib.rs"));
}

#[test]
fn list_local_files_excludes_git() {
    let found = vec![
        RemoteFile { path: ".git/HEAD".into(), size: 0, mtime: 1 },
        RemoteFile { path: "a.rs".into(), size: 0, mtime: 1 },
    ];
    let files = list_local_files(found);
    assert_eq!(files.len(), 1);
    assert_eq!(files[0].path, "a.rs");
}

#[test]
fn list_local_files_excludes_target() {
    let found = vec![
        RemoteFile { path: "target/release/binary".into(), size: 0, mtime: 1 },
        RemoteFile { path: "a.rs".into(), size: 0, mtime: 1 },
    ];
    let files = list_local_files(found);
    assert_eq!(files.len(), 1);
    assert_eq!(files[0].path, "a.rs");
}

#[test]
fn listing_keeps_order() {
    let found = vec![
        RemoteFile { path: ".git/HEAD".into(), size: 1, mtime: 1 },
        RemoteFile { path: "a.rs".into(), size: 2, mtime: 2 },
        RemoteFile { path: "target/release/binary".into(), size: 3, mtime: 3 },
        RemoteFile { path: "src/lib.rs".into(), size: 4, mtime: 4 },
    ];
    let files = list_local_files(found);
    let paths: Vec<&str> = files.iter().map(|f| f.path.as_str()).collect();
    assert_eq!(paths, vec!["a.rs", "src/lib.rs"]);
}

#[test]
fn upload_decoding() {
    assert_eq!(decode_upload(&b64(b"hello world")).unwrap(), b"hello world");
    assert!(decode_upload("not base64!").unwrap_err().starts_with("base64 decode: "));
}

#[test]
fn delta_decoding_error() {
    let r = apply_delta(b"old", "%%%", "00");
    assert!(r.unwrap_err().starts_with("base64 decode delta: "));
    let r = apply_delta(b"old", &b64(b"garbage"), "00");
    assert!(r.unwrap_err().starts_with("apply delta: "));
}

#[test]
fn session_needs_sandbox_first() {
    let mut st = ShimState::new();
    match st.step(Message::List) {
        ShimAction::Fail(e) => assert_eq!(e, "no workdir set"),
        other => panic!("unexpected {other:?}"),
    }
    match st.step(Message::Data { path: "a".into(), data: "YQ==".into() }) {
        ShimAction::Fail(e) => assert_eq!(e, "no workdir set"),
        other => panic!("unexpected {other:?}"),
    }
}

#[test]
fn session_flow() {
    let mut st = ShimState::new();
    let a = st.step(Message::Sandbox {
        enabled: true,
        workdir: "/w".into(),
        write: vec!["/w".into()],
        read: vec![],
        net: vec![],
    });
    assert!(matches!(a, ShimAction::Reply(Message::Okay)));
    assert_eq!(st.workdir.as_deref(), Some("/w"));
    assert_eq!(st.sandbox.workdir, "/w");
    match st.step(Message::List) {
        ShimAction::List { workdir } => assert_eq!(workdir, "/w"),
        other => panic!("unexpected {other:?}"),
    }
    assert!(matches!(st.step(Message::Skip { path: "a".into() }), ShimAction::Reply(Message::Okay)));
    assert!(matches!(st.step(Message::EndSigsRequest), ShimAction::Reply(Message::EndSigs)));
    assert!(matches!(st.step(Message::EndSync), ShimAction::Reply(Message::Okay)));
    match st.step(Message::Delete { path: "old.rs".into() }) {
        ShimAction::File { workdir, path, op: FileOp::Delete } => {
            assert_eq!(workdir, "/w");
            assert_eq!(path, "old.rs");
        }
        other => panic!("unexpected {other:?}"),
    }
    match st.step(Message::Run { command: "cargo build".into() }) {
        ShimAction::Run { command, sandbox: Some(c) } => {
            assert_eq!(command, "cargo build");
            assert_eq!(c.workdir, "/w");
            assert!(c.enabled);
        }
        other => panic!("unexpected {other:?}"),
    }
    assert!(matches!(st.step(Message::EndList), ShimAction::Unexpected(Message::EndList)));
}

#[test]
fn session_run_without_sandbox() {
    let mut st = ShimState::new();
    st.step(Message::Sandbox {
        enabled: false,
        workdir: "/w".into(),
        write: vec![],
        read: vec![],
        net: vec![],
    });
    assert!(matches!(
        st.step(Message::Run { command: "true".into() }),
        ShimAction::Run { sandbox: None, .. }
    ));
}

#[test]
fn file_steps() {
    let f = facts_ok("/w", None);
    match file_step("/w", "a.txt".into(), &f, FileOp::Upload { data: b64(b"hi") }) {
        FileAction::Write { full, bytes } => {
            assert_eq!(full, "/w/a.txt");
            assert_eq!(bytes, b"hi");
        }
        other => panic!("unexpected {other:?}"),
    }
    match file_step("/w", "../x".into(), &f, FileOp::Delete) {
        FileAction::Reply(Message::Error(e)) => {
            assert_eq!(e, "path component '..' is not allowed in ../x")
        }
        other => panic!("unexpected {other:?}"),
    }
    match file_step("/w", "a.txt".into(), &f, FileOp::Upload { data: "!!".into() }) {
        FileAction::Reply(Message::Error(e)) => assert!(e.starts_with("base64 decode: ")),
        other => panic!("unexpected {other:?}"),
    }
    match file_step("/w", "big.bin".into(), &f, FileOp::Signature) {
        FileAction::Sign { full, path } => {
            assert_eq!(full, "/w/big.bin");
            assert_eq!(path, "big.bin");
        }
        other => panic!("unexpected {other:?}"),
    }
}

#[test]
fn signature_reply_carries_base64_signature() {
    match signature_reply("f".into(), b"data") {
        Message::Sig { path, sig } => {
            assert_eq!(path, "f");
            let bytes = base64::engine::general_purpose::STANDARD.decode(sig).unwrap();
            assert_eq!(bytes, compute_signature(b"data"));
            assert_eq!(bytes.len(), 12 + 20);
        }
        other => panic!("unexpected {other:?}"),
    }
}

#[test]
fn delta_outcomes() {
    let old = b"old content here";
    let new = b"new content here!";
    let delta = make_delta(compute_signature(old), new);
    match delta_outcome(old, &b64(&delta), &sha256_hex(new)) {
        DeltaOutcome::Store(v) => assert_eq!(v, new),
        other => panic!("unexpected {other:?}"),
    }
    match delta_outcome(old, &b64(&delta), "bad") {
        DeltaOutcome::Reply(Message::Error(e)) => {
            assert!(e.starts_with("delta failed: SHA-256 mismatch: expected bad, got "));
            assert!(e.ends_with(", need full upload"));
        }
        other => panic!("unexpected {other:?}"),
    }
    match unreadable_for_delta("x.rs") {
        Message::Error(e) => assert_eq!(e, "cannot read x.rs for delta, need full upload"),
        other => panic!("unexpected {other:?}"),
    }
}
