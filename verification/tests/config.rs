use rcargo::config::{default_true, overlay, Config, Hook, Sandbox};

fn with_paths(remote_path: Option<&str>, build_dir: Option<&str>) -> Config {
    let mut cfg = Config::default();
    cfg.remote_path = remote_path.map(String::from);
    cfg.remote_build_dir = build_dir.map(String::from);
    cfg
}

#[test]
fn remote_path_precedence() {
    let cfg = with_paths(Some("/exact/path"), Some("/base/dir"));
    assert_eq!(cfg.remote_path("myapp"), "/exact/path");
}

#[test]
fn remote_build_dir_joins_project() {
    let cfg = with_paths(None, Some("/home/james/build"));
    assert_eq!(cfg.remote_path("myapp"), "/home/james/build/myapp");
}

#[test]
fn remote_build_dir_trims_trailing_slash() {
    let cfg = with_paths(None, Some("/base/dir/"));
    assert_eq!(cfg.remote_path("myapp"), "/base/dir/myapp");
}

#[test]
fn remote_path_defaults_to_home() {
    let cfg = with_paths(None, None);
    assert_eq!(cfg.remote_path("myapp"), "$HOME/build/myapp");
}

// ---------------------------------------------------------------------------

#[test]
fn remote_build_dir_trims_every_trailing_slash() {
    let cfg = with_paths(None, Some("/base///"));
    assert_eq!(cfg.remote_path("x"), "/base/x");
}

#[test]
fn empty_config_defaults() {
    let cfg = Config::default();
    assert!(cfg.target.is_empty());
    assert!(cfg.sandbox.enabled);
    assert!(cfg.commands.is_empty());
    assert!(default_true());
    let s = Sandbox::default();
    assert!(s.enabled && s.env.is_empty() && s.allow.write.is_empty() && s.allow.net.is_empty());
}

#[test]
fn hook_commands() {
    assert_eq!(Hook::Single("make db".into()).as_command(), "make db");
    assert_eq!(
        Hook::List(vec!["sqlx database create".into(), "sqlx migrate run".into()]).as_command(),
        "sqlx database create && sqlx migrate run"
    );
    assert_eq!(Hook::List(vec![]).as_command(), "");
}

#[test]
fn overlay_replaces_whole_keys() {
    let base = vec![
        ("target".to_string(), 1),
        ("sandbox".to_string(), 2),
        ("package".to_string(), 3),
    ];
    let over = vec![("sandbox".to_string(), 20), ("bin".to_string(), 40)];
    let r = overlay(base, over);
    let get = |k: &str| r.iter().rev().find(|(n, _)| n == k).map(|(_, v)| *v);
    assert_eq!(get("target"), Some(1));
    assert_eq!(get("sandbox"), Some(20));
    assert_eq!(get("package"), Some(3));
    assert_eq!(get("bin"), Some(40));
    assert_eq!(get("other"), None);
}

#[test]
fn overlay_keeps_each_key_once() {
    let base = vec![("a".to_string(), 1), ("b".to_string(), 2), ("c".to_string(), 3)];
    let over = vec![("b".to_string(), 20), ("d".to_string(), 40)];
    let r = overlay(base, over);
    let mut keys: Vec<&str> = r.iter().map(|(k, _)| k.as_str()).collect();
    assert_eq!(keys.len(), 4);
    keys.sort();
    keys.dedup();
    assert_eq!(keys, vec!["a", "b", "c", "d"]);
}
