use rcargo::bootstrap::{
    get_shim_binary, has_embedded_shim, BootAction, BootEvent, BootPhase, Bootstrap, no_binary_error, platform_of, shim_check_cmd, shim_dir,
    shim_invocation, shim_is_current, shim_path,
};
use rcargo::config::{Config, Hook};
use rcargo::confine::{
    apply_sandbox, build_seatbelt_profile, escape_seatbelt_path, landlock_warning, Enforcement,
    Platform, SandboxPlan,
};
use rcargo::protocol::SandboxConfig;
use rcargo::remote::{
    alive_cmd, capture_error, exclude_rule, exit_error, generate_service_file, holder_path,
    hook_command_line, installed_bin, is_rcargo_process, linger_cmd, lock_path, manifest_path,
    missing_package_error, mkdir_cmd, parse_pid, pid_file, pid_file_test_cmd, remove_file_cmd,
    rsync_destination, service_dir, service_install_cmd, service_name, start_cmd, systemctl_cmd,
    unreachable_error, Lock,
};
use rcargo::sandbox::{check_cmd, install_cmd};

#[test]
fn sandboxed_check_command() {
    let mut cfg = Config::default();
    cfg.sandbox.env.push(("DATABASE_URL".into(), "sqlite://db.sqlite3".into()));
    cfg.sandbox.allow.write.push("/opt/cache".into());
    cfg.sandbox.allow.net.push("internal.registry.com".into());
    let cmd = check_cmd(&cfg, "/r", "/h", &vec![], false);
    assert_eq!(
        cmd,
        "NONO_NO_UPDATE_CHECK=1 nono run --silent --allow-cwd --workdir /r \
         --allow /h/.rustup --allow /h/.cargo --allow /r --allow /tmp \
         --read /usr/libexec --read /usr/include --allow /opt/cache \
         --allow-domain crates.io --allow-domain index.crates.io \
         --allow-domain static.crates.io --allow-domain static.rust-lang.org \
         --allow-domain github.com --allow-domain internal.registry.com -- \
         bash --norc --noprofile -c \"export DATABASE_URL=sqlite://db.sqlite3 && \
         export CARGO_TERM_COLOR=always && cd /r && CARGO_TERM_PROGRESS_WHEN=never \
         cargo check --workspace\""
    );
}

#[test]
fn install_command_paths() {
    let mut cfg = Config::default();
    cfg.sandbox.enabled = false;
    assert_eq!(
        install_cmd(&cfg, "/r", "/h", Some("server"), false),
        "cd /r && CARGO_TERM_PROGRESS_WHEN=never cargo install --path /r/server --force"
    );
    assert_eq!(
        install_cmd(&cfg, "/r", "/h", None, false),
        "cd /r && CARGO_TERM_PROGRESS_WHEN=never cargo install --path /r --force"
    );
}

#[test]
fn prebuild_hook_line() {
    let mut cfg = Config::default();
    assert!(hook_command_line(&cfg, "/r").is_none());
    cfg.prebuild = Some(Hook::List(vec!["a".into(), "b".into()]));
    assert_eq!(hook_command_line(&cfg, "/r").unwrap(), "cd /r && a && b");
    cfg.sandbox.env.push(("K".into(), "v".into()));
    assert_eq!(hook_command_line(&cfg, "/r").unwrap(), "cd /r && export K=v && a && b");
}

#[test]
fn server_commands() {
    assert_eq!(pid_file("/r"), "/r/rdeploy.pid");
    assert_eq!(pid_file_test_cmd("/r/rdeploy.pid"), "test -f /r/rdeploy.pid && echo exists");
    assert_eq!(alive_cmd("42"), "kill -0 42 2>/dev/null && echo running");
    assert_eq!(
        start_cmd("/r", "app"),
        "cd /r && nohup /r/target/release/app > /r/rdeploy.pid.log 2>&1 & echo $! > /r/rdeploy.pid"
    );
    assert_eq!(parse_pid("1234"), Ok(1234));
    assert_eq!(parse_pid("x"), Err("invalid digit found in string".to_string()));
    assert_eq!(parse_pid(""), Err("cannot parse integer from empty string".to_string()));
}

#[test]
fn service_file() {
    let mut cfg = Config::default();
    cfg.sandbox.env.push(("DATABASE_URL".into(), "sqlite://db".into()));
    assert_eq!(service_name("app"), "app.service");
    assert_eq!(
        generate_service_file("app", "/r", "/h", &cfg),
        "[Unit]\nDescription=app\nAfter=network.target\n\n[Service]\nType=simple\n\
         ExecStart=/r/target/release/app\nWorkingDirectory=/r\n\
         Environment=\"DATABASE_URL=sqlite://db\"\n\
         Restart=on-failure\nRestartSec=5\n\n[Install]\nWantedBy=default.target\n"
    );
    assert_eq!(service_dir("/h"), "/h/.config/systemd/user");
    assert_eq!(
        service_install_cmd("/h/d", "/h/d/app.service", "X\n"),
        "mkdir -p /h/d && cat > /h/d/app.service << 'RCARGO_EOF'\nX\nRCARGO_EOF"
    );
    assert_eq!(systemctl_cmd("restart", "app.service"), "systemctl --user restart app.service");
    assert_eq!(linger_cmd("bob"), "loginctl enable-linger bob 2>/dev/null");
    assert_eq!(installed_bin("/h", "app"), "/h/.cargo/bin/app");
    assert_eq!(remove_file_cmd("/h/x"), "rm -f /h/x");
}

#[test]
fn lock_commands() {
    assert_eq!(lock_path("/r"), "/r/.rcargo.lock");
    assert_eq!(holder_path("/r"), "/r/.rcargo.lock/holder");
    let script = Lock::acquire_script("/r/.rcargo.lock", 77, 600);
    assert!(script.starts_with("LOCK=/r/.rcargo.lock\nHOLDER=77\nMAXWAIT=600\nmkdir -p"));
    assert!(script.ends_with("echo \"$HOLDER\" > \"$LOCK/holder\""));
    assert!(script.contains("Timed out after ${MAXWAIT}s waiting for the remote lock at $LOCK"));
    let l = Lock::held("host", "/r/.rcargo.lock");
    assert_eq!(l.release_cmd(), "rm -rf /r/.rcargo.lock");
    assert!(is_rcargo_process("rcargo\n"));
    assert!(is_rcargo_process("/usr/local/bin/rcargo"));
    assert!(!is_rcargo_process("/usr/bin/bash"));
    assert!(!is_rcargo_process("rcargo-shim"));
}

#[test]
fn sync_and_ssh_texts() {
    assert_eq!(mkdir_cmd("/r"), "mkdir -p /r");
    assert_eq!(rsync_destination("host", "/r"), "host:/r/");
    assert_eq!(exclude_rule("target", true), "target/");
    assert_eq!(exclude_rule(".cargo/other", false), ".cargo/other");
    assert_eq!(exit_error(2), "Remote command failed with exit code: 2");
    assert_eq!(exit_error(-1), "Remote command failed with exit code: -1");
    assert_eq!(
        capture_error(1, "boom", ""),
        "Remote command failed with exit code: 1\nstderr: boom"
    );
    assert_eq!(
        capture_error(3, "", "out"),
        "Remote command failed with exit code: 3\nstdout: out"
    );
    assert_eq!(unreachable_error("h"), "Cannot connect to remote host 'h' via SSH");
    assert_eq!(manifest_path(Some("server")), "server/Cargo.toml");
    assert_eq!(manifest_path(None), "Cargo.toml");
    assert_eq!(
        missing_package_error("server", "server/Cargo.toml"),
        "Package 'server' not found: server/Cargo.toml does not exist"
    );
}

#[test]
fn shim_bootstrap_texts() {
    assert!(!has_embedded_shim());
    assert!(get_shim_binary("Linux", "x86_64").is_none());
    assert!(get_shim_binary("Windows", "x86_64").is_none());
    assert_eq!(shim_dir("/h"), "/h/.rcargo");
    assert_eq!(shim_path("/h"), "/h/.rcargo/shim");
    assert_eq!(platform_of("Linux\nx86_64"), ("Linux".to_string(), "x86_64".to_string()));
    assert_eq!(platform_of("Darwin \n arm64\n"), ("Darwin".to_string(), "aarch64".to_string()));
    assert_eq!(platform_of("Linux"), ("Linux".to_string(), String::new()));
    assert!(shim_is_current("rcargo-shim 0.1.0\n", "0.1.0"));
    assert!(!shim_is_current("rcargo-shim 0.0.9", "0.1.0"));
    assert_eq!(
        shim_check_cmd("/h/.rcargo/shim"),
        "test -x /h/.rcargo/shim && /h/.rcargo/shim --version"
    );
    assert_eq!(shim_invocation("/s", "--shim"), "/s --shim");
    assert_eq!(no_binary_error("Linux", "riscv64"), "no embedded shim for Linux/riscv64");
}

fn sandbox_config(enabled: bool) -> SandboxConfig {
    SandboxConfig {
        enabled,
        workdir: "/w".into(),
        write: vec!["/w".into()],
        read: vec!["/usr/in\"c".into()],
        net: vec!["crates.io".into()],
    }
}

#[test]
fn seatbelt_profiles() {
    assert_eq!(escape_seatbelt_path("a\\b\"c"), "a\\\\b\\\"c");
    let c = sandbox_config(true);
    assert_eq!(
        build_seatbelt_profile(&c, Some(8080)),
        "(\n(version 1)\n(deny default)\n  (allow file-read* (subpath \"/usr/in\\\"c\"))\n  \
         (allow file-read* (subpath \"/w\"))\n  (allow file-write* (subpath \"/w\"))\n  \
         (allow network-outbound (remote ip \"127.0.0.1:8080\"))\n  \
         (allow network-outbound (remote udp))\n)"
    );
    assert!(build_seatbelt_profile(&c, None).ends_with("  (allow network* (remote tcp))\n)"));
}

/// Whether every `)` closes an earlier `(` and every `(` is closed.
fn parens_balance(s: &str) -> bool {
    let mut depth: i64 = 0;
    for c in s.chars() {
        match c {
            '(' => depth += 1,
            ')' => depth -= 1,
            _ => {}
        }
        if depth < 0 {
            return false;
        }
    }
    depth == 0
}

#[test]
fn seatbelt_profile_parentheses_balance() {
    let c = sandbox_config(true);
    for port in [Some(8080), None] {
        let p = build_seatbelt_profile(&c, port);
        assert!(parens_balance(&p));
        assert!(p.starts_with('(') && p.ends_with(')'));
    }
    let empty = SandboxConfig {
        enabled: true,
        workdir: "/w".into(),
        write: vec![],
        read: vec![],
        net: vec![],
    };
    assert_eq!(build_seatbelt_profile(&empty, None), "(\n(version 1)\n(deny default)\n)");
    assert!(parens_balance(&build_seatbelt_profile(&empty, None)));
}

#[test]
fn sandbox_plans() {
    assert!(matches!(apply_sandbox(&sandbox_config(false), None, Platform::Linux), SandboxPlan::Off));
    match apply_sandbox(&sandbox_config(true), Some(9), Platform::Linux) {
        SandboxPlan::Landlock(p) => {
            assert!(p.abi_v4 && p.connect_tcp);
            assert_eq!(p.port, Some(9));
            assert_eq!(p.write, vec!["/w"]);
        }
        other => panic!("unexpected {other:?}"),
    }
    assert!(matches!(
        apply_sandbox(&sandbox_config(true), None, Platform::MacOs),
        SandboxPlan::Seatbelt(_)
    ));
    match apply_sandbox(&sandbox_config(true), None, Platform::Other) {
        SandboxPlan::Unsupported(t) => assert_eq!(t, "[shim] sandbox not supported on this platform"),
        other => panic!("unexpected {other:?}"),
    }
    assert!(landlock_warning(Enforcement::Partial, false).is_none());
    assert!(landlock_warning(Enforcement::Full, true).is_none());
    assert!(landlock_warning(Enforcement::NotEnforced, true)
        .unwrap()
        .starts_with("[shim] warning: Landlock not available"));
}

fn boot_at(phase: BootPhase) -> Bootstrap {
    let mut b = Bootstrap::new("1.0");
    b.phase = phase;
    b.home = "/home/u".into();
    b.os = "Linux".into();
    b.arch = "x86_64".into();
    b
}

#[test]
fn shim_installation_steps() {
    // No binary is built in here: the installation stops at once.
    let mut b = Bootstrap::new("1.0");
    match b.next(BootEvent::Begin) {
        BootAction::Fail(e) => {
            assert_eq!(e, "no embedded shim binaries; rebuild with cross-compiled shim binaries")
        }
        other => panic!("unexpected {other:?}"),
    }
    assert_eq!(b.phase, BootPhase::Failed);

    let mut b = boot_at(BootPhase::Home);
    b.home = String::new();
    match b.next(BootEvent::Output("/home/u".into())) {
        BootAction::Capture(c) => assert_eq!(c, "uname -s && uname -m"),
        other => panic!("unexpected {other:?}"),
    }
    assert_eq!(b.home, "/home/u");
    match b.next(BootEvent::Output("Darwin\narm64\n".into())) {
        BootAction::Check(c) => {
            assert_eq!(c, "test -x /home/u/.rcargo/shim && /home/u/.rcargo/shim --version")
        }
        other => panic!("unexpected {other:?}"),
    }
    assert_eq!((b.os.as_str(), b.arch.as_str()), ("Darwin", "aarch64"));
    match b.next(BootEvent::Checked(Some("rcargo-shim 1.0\n".into()))) {
        BootAction::Ready(p) => assert_eq!(p, "/home/u/.rcargo/shim"),
        other => panic!("unexpected {other:?}"),
    }
    assert_eq!(b.phase, BootPhase::Ready);

    let mut b = boot_at(BootPhase::Installed);
    match b.next(BootEvent::Checked(None)) {
        BootAction::Fail(e) => assert_eq!(e, "no embedded shim for Linux/x86_64"),
        other => panic!("unexpected {other:?}"),
    }
    let mut b = boot_at(BootPhase::Installed);
    match b.next(BootEvent::Checked(Some("rcargo-shim 0.9".into()))) {
        BootAction::Fail(e) => assert_eq!(e, "no embedded shim for Linux/x86_64"),
        other => panic!("unexpected {other:?}"),
    }

    let mut b = boot_at(BootPhase::Uploading);
    match b.next(BootEvent::Uploaded) {
        BootAction::Capture(c) => assert_eq!(c, "/home/u/.rcargo/shim --version"),
        other => panic!("unexpected {other:?}"),
    }
    match b.next(BootEvent::Output("rcargo-shim 0.9".into())) {
        BootAction::Fail(e) => assert_eq!(e, "shim bootstrap verification failed"),
        other => panic!("unexpected {other:?}"),
    }
    let mut b = boot_at(BootPhase::Verifying);
    match b.next(BootEvent::Output(" rcargo-shim 1.0 ".into())) {
        BootAction::Ready(p) => assert_eq!(p, "/home/u/.rcargo/shim"),
        other => panic!("unexpected {other:?}"),
    }
    let mut b = boot_at(BootPhase::Ready);
    match b.next(BootEvent::Uploaded) {
        BootAction::Fail(e) => assert_eq!(e, "bootstrap event out of order"),
        other => panic!("unexpected {other:?}"),
    }
}
