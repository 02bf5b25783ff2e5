use rcargo::client::Disposition;
use rcargo::protocol::Message;
use rcargo::shim::{compute_signature, RemoteFile};
use rcargo::sync_session::{ClientSync, SyncAction, SyncEvent, SyncPhase};
use base64::Engine;

fn rf(path: &str, size: u64, mtime: u64) -> RemoteFile {
    RemoteFile { path: path.into(), size, mtime }
}

fn request(a: SyncAction) -> Vec<Message> {
    match a {
        SyncAction::Request(v) => v,
        other => panic!("expected a request, got {other:?}"),
    }
}

#[test]
fn full_synchronisation() {
    let mut s = ClientSync::new();
    let v = request(s.next(SyncEvent::Begin));
    assert_eq!(v.len(), 1);
    assert_eq!(v[0].encode(), "LIST");

    let a = s.next(SyncEvent::Reply(Message::File { path: "same.rs".into(), size: 1, mtime: 1 }));
    assert!(matches!(a, SyncAction::Receive));
    s.next(SyncEvent::Reply(Message::File { path: "changed.rs".into(), size: 5, mtime: 1 }));
    s.next(SyncEvent::Reply(Message::File { path: "gone.rs".into(), size: 1, mtime: 1 }));
    s.next(SyncEvent::Reply(Message::File { path: "target/x".into(), size: 1, mtime: 1 }));
    assert!(matches!(s.next(SyncEvent::Reply(Message::EndList)), SyncAction::ListLocal));

    let local = vec![rf("same.rs", 1, 1), rf("changed.rs", 6, 2), rf("new.rs", 3, 3)];
    let v = request(s.next(SyncEvent::LocalFiles(local)));
    assert_eq!(v[0].encode(), "SKIP same.rs");
    assert_eq!(s.plan[1], ("changed.rs".to_string(), Disposition::Changed));

    match s.next(SyncEvent::Reply(Message::Okay)) {
        SyncAction::Read(p) => assert_eq!(p, "new.rs"),
        other => panic!("unexpected {other:?}"),
    }
    let v = request(s.next(SyncEvent::FileData(Ok(b"abc".to_vec()))));
    assert_eq!(v[0].encode(), "DATA new.rs YWJj");

    match s.next(SyncEvent::Reply(Message::Okay)) {
        SyncAction::ReadGitignore => {}
        other => panic!("unexpected {other:?}"),
    }
    let v = request(s.next(SyncEvent::Gitignore(vec!["*.log".into()])));
    assert_eq!(v[0].encode(), "DELETE gone.rs");

    let v = request(s.next(SyncEvent::Reply(Message::Okay)));
    assert_eq!(v.len(), 2);
    assert_eq!(v[0].encode(), "DELTA_REQUEST changed.rs");
    assert_eq!(v[1].encode(), "END_SIGS_REQUEST");

    let remote_old = b"hello";
    let sig = base64::engine::general_purpose::STANDARD.encode(compute_signature(remote_old));
    assert!(matches!(
        s.next(SyncEvent::Reply(Message::Sig { path: "changed.rs".into(), sig })),
        SyncAction::Receive
    ));
    match s.next(SyncEvent::Reply(Message::EndSigs)) {
        SyncAction::Read(p) => assert_eq!(p, "changed.rs"),
        other => panic!("unexpected {other:?}"),
    }
    let v = request(s.next(SyncEvent::FileData(Ok(b"hello, world".to_vec()))));
    assert!(v[0].encode().starts_with("DELTA changed.rs "));

    match s.next(SyncEvent::Reply(Message::Error("SHA-256 mismatch".into()))) {
        SyncAction::Reupload { path, reason } => {
            assert_eq!(path, "changed.rs");
            assert_eq!(reason, "SHA-256 mismatch");
        }
        other => panic!("unexpected {other:?}"),
    }
    let v = request(s.next(SyncEvent::FileData(Ok(b"hello, world".to_vec()))));
    assert_eq!(v[0].encode(), "DATA changed.rs aGVsbG8sIHdvcmxk");
    let v = request(s.next(SyncEvent::Reply(Message::Okay)));
    assert_eq!(v[0].encode(), "END_SYNC");
    assert!(matches!(s.next(SyncEvent::Reply(Message::Okay)), SyncAction::Done));
    assert_eq!(s.phase, SyncPhase::Finished);
}

#[test]
fn listing_rejects_other_messages() {
    let mut s = ClientSync::new();
    s.next(SyncEvent::Begin);
    match s.next(SyncEvent::Reply(Message::Okay)) {
        SyncAction::Unexpected { prefix, msg } => {
            assert_eq!(prefix, "expected FILE/END_LIST, got ");
            assert!(matches!(msg, Message::Okay));
        }
        other => panic!("unexpected {other:?}"),
    }
    assert_eq!(s.phase, SyncPhase::Failed);
}

#[test]
fn nothing_changed_ends_at_once() {
    let mut s = ClientSync::new();
    s.next(SyncEvent::Begin);
    s.next(SyncEvent::Reply(Message::EndList));
    match s.next(SyncEvent::LocalFiles(vec![])) {
        SyncAction::ReadGitignore => {}
        other => panic!("unexpected {other:?}"),
    }
    let v = request(s.next(SyncEvent::Gitignore(vec![])));
    assert_eq!(v[0].encode(), "END_SYNC");
    assert!(matches!(s.next(SyncEvent::Begin), SyncAction::Fail(_)));
}

#[test]
fn read_errors_stop_the_sync() {
    let mut s = ClientSync::new();
    s.next(SyncEvent::Begin);
    s.next(SyncEvent::Reply(Message::EndList));
    s.next(SyncEvent::LocalFiles(vec![rf("a", 1, 1)]));
    match s.next(SyncEvent::FileData(Err("read a: denied".into()))) {
        SyncAction::Fail(e) => assert_eq!(e, "read a: denied"),
        other => panic!("unexpected {other:?}"),
    }
}

#[test]
fn error_replies_abort_the_sync() {
    let mut s = ClientSync::new();
    s.next(SyncEvent::Begin);
    s.next(SyncEvent::Reply(Message::File { path: "same.rs".into(), size: 1, mtime: 1 }));
    s.next(SyncEvent::Reply(Message::EndList));
    let v = request(s.next(SyncEvent::LocalFiles(vec![rf("same.rs", 1, 1)])));
    assert_eq!(v[0].encode(), "SKIP same.rs");
    match s.next(SyncEvent::Reply(Message::Error("disk full".into()))) {
        SyncAction::Fail(e) => assert_eq!(e, "disk full"),
        other => panic!("unexpected {other:?}"),
    }
    assert_eq!(s.phase, SyncPhase::Failed);

    let mut s = ClientSync::new();
    s.next(SyncEvent::Begin);
    s.next(SyncEvent::Reply(Message::File { path: "gone.rs".into(), size: 1, mtime: 1 }));
    s.next(SyncEvent::Reply(Message::EndList));
    s.next(SyncEvent::LocalFiles(vec![]));
    let v = request(s.next(SyncEvent::Gitignore(vec![])));
    assert_eq!(v[0].encode(), "DELETE gone.rs");
    match s.next(SyncEvent::Reply(Message::Error("permission denied".into()))) {
        SyncAction::Fail(e) => assert_eq!(e, "permission denied"),
        other => panic!("unexpected {other:?}"),
    }
    assert_eq!(s.phase, SyncPhase::Failed);
}

#[test]
fn deletions_skip_ignored_and_excluded_paths() {
    let mut s = ClientSync::new();
    s.next(SyncEvent::Begin);
    for p in ["gone.rs", "old.log", ".git/config", "target/debug/x", "kept.rs"] {
        s.next(SyncEvent::Reply(Message::File { path: p.into(), size: 1, mtime: 1 }));
    }
    s.next(SyncEvent::Reply(Message::EndList));
    let v = request(s.next(SyncEvent::LocalFiles(vec![rf("kept.rs", 1, 1)])));
    assert_eq!(v[0].encode(), "SKIP kept.rs");
    assert!(matches!(s.next(SyncEvent::Reply(Message::Okay)), SyncAction::ReadGitignore));
    let lines = vec!["# build output".to_string(), "*.log".to_string(), "".to_string()];
    let v = request(s.next(SyncEvent::Gitignore(lines)));
    assert_eq!(v[0].encode(), "DELETE gone.rs");
    assert_eq!(s.doomed, vec!["gone.rs".to_string()]);
    let v = request(s.next(SyncEvent::Reply(Message::Okay)));
    assert_eq!(v[0].encode(), "END_SYNC");
}

#[test]
fn bad_gitignore_stops_the_sync() {
    let mut s = ClientSync::new();
    s.next(SyncEvent::Begin);
    s.next(SyncEvent::Reply(Message::File { path: "gone.rs".into(), size: 1, mtime: 1 }));
    s.next(SyncEvent::Reply(Message::EndList));
    assert!(matches!(s.next(SyncEvent::LocalFiles(vec![])), SyncAction::ReadGitignore));
    match s.next(SyncEvent::Gitignore(vec!["{a".into()])) {
        SyncAction::Fail(e) => assert!(e.starts_with("failed to parse .gitignore: error parsing glob '{a'")),
        other => panic!("unexpected {other:?}"),
    }
    assert_eq!(s.phase, SyncPhase::Failed);
}
