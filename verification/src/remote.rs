//! The shell commands the client runs on the remote host over SSH, and the
//! texts it derives from their output: the prebuild hook, the background
//! server, the systemd service, the build lock and the repository sync.
use vstd::prelude::*;

use crate::config::{hook_command, Config};
use crate::ext::sh_quote;
use crate::num::{dec, dec_of, int_error_message, int_error_text, parse_uint, parse_unsigned};
use crate::sandbox::env_export;
use crate::ssh::shell_quote;
use crate::text::{
    chars_eq_str, chars_of, join, push_all, push_joined, push_str, rfind, rfind_char, string_of,
    trim, trim_ws,
};

verus! {

fn cat2(a: &str, b: &str) -> (r: String)
    ensures
        r@ == a@ + b@,
{
    let mut v = chars_of(a);
    push_str(&mut v, b);
    string_of(&v)
}

fn cat3(a: &str, b: &str, c: &str) -> (r: String)
    ensures
        r@ == a@ + b@ + c@,
{
    let mut v = chars_of(a);
    push_str(&mut v, b);
    push_str(&mut v, c);
    string_of(&v)
}

// ---------------------------------------------------------------------------
// Prebuild hook
// ---------------------------------------------------------------------------

/// The environment exports of the build, joined by `" && "`.
pub open spec fn hook_env(env: Seq<(String, String)>) -> Seq<char> {
    join(env.map_values(|kv: (String, String)| env_export(kv)), " && "@)
}

/// The remote command of the prebuild hook: in the project directory, with
/// the build's environment exported, run the hook. `None` without a hook.
pub open spec fn hook_line_spec(config: Config, remote_path: Seq<char>) -> Option<Seq<char>> {
    match config.prebuild {
        None => None,
        Some(h) => {
            let env = hook_env(config.sandbox.env@);
            if env.len() == 0 {
                Some("cd "@ + sh_quote(remote_path) + " && "@ + hook_command(h))
            } else {
                Some("cd "@ + sh_quote(remote_path) + " && "@ + env + " && "@ + hook_command(h))
            }
        },
    }
}

/// The remote command that runs the prebuild hook, outside the sandbox.
pub fn hook_command_line(config: &Config, remote_path: &str) -> (r: Option<String>)
    ensures
        match hook_line_spec(*config, remote_path@) {
            None => r is None,
            Some(s) => r matches Some(t) && t@ == s,
        },
{
    let hook = match &config.prebuild {
        None => return None,
        Some(h) => h,
    };
    let env = &config.sandbox.env;
    let ghost f = |kv: (String, String)| env_export(kv);
    let mut out: Vec<char> = Vec::new();
    let mut i: usize = 0;
    while i < env.len()
        invariant
            i <= env.len(),
            out@ == join(env@.take(i as int).map_values(f), " && "@),
            f == (|kv: (String, String)| env_export(kv)),
        decreases env.len() - i,
    {
        let mut item = chars_of("export ");
        push_str(&mut item, env[i].0.as_str());
        item.push('=');
        let q = shell_quote(env[i].1.as_str());
        push_str(&mut item, q.as_str());
        assert(item@ =~= f(env@[i as int]));
        push_joined(&mut out, " && ", &item, i == 0, Ghost(env@.take(i as int).map_values(f)));
        assert(env@.take(i + 1).map_values(f) == env@.take(i as int).map_values(f).push(
            f(env@[i as int]),
        ));
        i = i + 1;
    }
    assert(env@.take(env.len() as int) == env@);
    let mut line = chars_of("cd ");
    let q = shell_quote(remote_path);
    push_str(&mut line, q.as_str());
    push_str(&mut line, " && ");
    if out.len() > 0 {
        push_all(&mut line, &out);
        push_str(&mut line, " && ");
    }
    let hc = hook.as_command();
    push_str(&mut line, hc.as_str());
    Some(string_of(&line))
}

// ---------------------------------------------------------------------------
// Background server
// ---------------------------------------------------------------------------

/// The quoted path of the PID file of the background server.
pub fn pid_file(remote_path: &str) -> (r: String)
    ensures
        r@ == sh_quote(remote_path@ + "/rdeploy.pid"@),
{
    let p = cat2(remote_path, "/rdeploy.pid");
    shell_quote(p.as_str())
}

/// The quoted path of the log of the background server.
pub fn log_file(remote_path: &str) -> (r: String)
    ensures
        r@ == sh_quote(remote_path@ + "/rdeploy.pid.log"@),
{
    let p = cat2(remote_path, "/rdeploy.pid.log");
    shell_quote(p.as_str())
}

/// The remote command that tells whether the PID file exists (prints
/// `exists`).
pub fn pid_file_test_cmd(pid_file: &str) -> (r: String)
    ensures
        r@ == "test -f "@ + pid_file@ + " && echo exists"@,
{
    cat3("test -f ", pid_file, " && echo exists")
}

/// The remote command that tells whether a process runs (prints `running`).
pub fn alive_cmd(pid: &str) -> (r: String)
    ensures
        r@ == "kill -0 "@ + pid@ + " 2>/dev/null && echo running"@,
{
    cat3("kill -0 ", pid, " 2>/dev/null && echo running")
}

/// The PID read from the PID file, or the display text of the parse error.
pub fn parse_pid(text: &str) -> (r: Result<u32, String>)
    ensures
        match parse_uint(text@, u32::MAX as nat) {
            Ok(n) => r matches Ok(p) && p == n,
            Err(k) => r matches Err(e) && e@ == int_error_text(k),
        },
{
    let cs = chars_of(text);
    match parse_unsigned(&cs, u32::MAX as u64) {
        Ok(n) => Ok(n as u32),
        Err(k) => Err(string_of(&int_error_message(k))),
    }
}

/// The remote command that starts the binary in the background from the
/// project directory, its output to the log, its PID to the PID file.
pub fn start_cmd(remote_path: &str, bin_name: &str) -> (r: String)
    ensures
        r@ == "cd "@ + sh_quote(remote_path@) + " && nohup "@ + sh_quote(
            remote_path@ + "/target/release/"@ + bin_name@,
        ) + " > "@ + sh_quote(remote_path@ + "/rdeploy.pid.log"@) + " 2>&1 & echo $! > "@
            + sh_quote(remote_path@ + "/rdeploy.pid"@),
{
    let cd = shell_quote(remote_path);
    let bin = cat3(remote_path, "/target/release/", bin_name);
    let bq = shell_quote(bin.as_str());
    let log = log_file(remote_path);
    let pid = pid_file(remote_path);
    let mut v = chars_of("cd ");
    push_str(&mut v, cd.as_str());
    push_str(&mut v, " && nohup ");
    push_str(&mut v, bq.as_str());
    push_str(&mut v, " > ");
    push_str(&mut v, log.as_str());
    push_str(&mut v, " 2>&1 & echo $! > ");
    push_str(&mut v, pid.as_str());
    string_of(&v)
}

// ---------------------------------------------------------------------------
// systemd service
// ---------------------------------------------------------------------------

/// The name of the service unit of a package.
pub fn service_name(package_name: &str) -> (r: String)
    ensures
        r@ == package_name@ + ".service"@,
{
    cat2(package_name, ".service")
}

/// One `Environment=` line per environment variable of the build.
pub open spec fn env_lines(env: Seq<(String, String)>) -> Seq<char>
    decreases env.len(),
{
    if env.len() == 0 {
        Seq::empty()
    } else {
        env_lines(env.drop_last()) + "Environment=\""@ + env.last().0@ + "="@ + env.last().1@
            + "\"\n"@
    }
}

/// The unit file of the service: it runs the release binary built in the
/// project directory.
pub open spec fn service_file_spec(
    package_name: Seq<char>,
    remote_path: Seq<char>,
    env: Seq<(String, String)>,
) -> Seq<char> {
    "[Unit]\nDescription="@ + package_name + "\nAfter=network.target\n\n[Service]\nType=simple\nExecStart="@
        + remote_path + "/target/release/"@ + package_name + "\nWorkingDirectory="@ + remote_path + "\n"@
        + env_lines(env) + "Restart=on-failure\nRestartSec=5\n\n[Install]\nWantedBy=default.target\n"@
}

/// The systemd user unit that runs `{remote_path}/target/release/{package_name}`
/// from the project directory with the build's environment, restarting it on
/// failure. The unit does not depend on the home directory.
pub fn generate_service_file(package_name: &str, remote_path: &str, _home: &str, config: &Config) -> (r:
    String)
    ensures
        r@ == service_file_spec(package_name@, remote_path@, config.sandbox.env@),
{
    let mut v = chars_of("[Unit]\nDescription=");
    push_str(&mut v, package_name);
    push_str(
        &mut v,
        "\nAfter=network.target\n\n[Service]\nType=simple\nExecStart=",
    );
    push_str(&mut v, remote_path);
    push_str(&mut v, "/target/release/");
    push_str(&mut v, package_name);
    push_str(&mut v, "\nWorkingDirectory=");
    push_str(&mut v, remote_path);
    push_str(&mut v, "\n");
    let ghost head = v@;
    let env = &config.sandbox.env;
    let mut i: usize = 0;
    while i < env.len()
        invariant
            i <= env.len(),
            v@ == head + env_lines(env@.take(i as int)),
        decreases env.len() - i,
    {
        push_str(&mut v, "Environment=\"");
        push_str(&mut v, env[i].0.as_str());
        push_str(&mut v, "=");
        push_str(&mut v, env[i].1.as_str());
        push_str(&mut v, "\"\n");
        assert(env@.take(i + 1).drop_last() == env@.take(i as int));
        i = i + 1;
    }
    assert(env@.take(env.len() as int) == env@);
    push_str(&mut v, "Restart=on-failure\nRestartSec=5\n\n[Install]\nWantedBy=default.target\n");
    string_of(&v)
}

/// The directory of the user's systemd units.
pub fn service_dir(home: &str) -> (r: String)
    ensures
        r@ == home@ + "/.config/systemd/user"@,
{
    cat2(home, "/.config/systemd/user")
}

/// The remote command that writes the unit file (with a here-document).
pub fn service_install_cmd(service_dir: &str, service_path: &str, content: &str) -> (r: String)
    ensures
        r@ == "mkdir -p "@ + sh_quote(service_dir@) + " && cat > "@ + sh_quote(service_path@)
            + " << 'RCARGO_EOF'\n"@ + content@ + "RCARGO_EOF"@,
{
    let mut v = chars_of("mkdir -p ");
    let d = shell_quote(service_dir);
    push_str(&mut v, d.as_str());
    push_str(&mut v, " && cat > ");
    let p = shell_quote(service_path);
    push_str(&mut v, p.as_str());
    push_str(&mut v, " << 'RCARGO_EOF'\n");
    push_str(&mut v, content);
    push_str(&mut v, "RCARGO_EOF");
    string_of(&v)
}

/// `systemctl --user <verb> <unit>`.
pub fn systemctl_cmd(verb: &str, unit: &str) -> (r: String)
    ensures
        r@ == "systemctl --user "@ + verb@ + " "@ + unit@,
{
    let mut v = chars_of("systemctl --user ");
    push_str(&mut v, verb);
    push_str(&mut v, " ");
    push_str(&mut v, unit);
    string_of(&v)
}

/// The remote command that lets the user's services outlive the login.
pub fn linger_cmd(user: &str) -> (r: String)
    ensures
        r@ == "loginctl enable-linger "@ + user@ + " 2>/dev/null"@,
{
    cat3("loginctl enable-linger ", user, " 2>/dev/null")
}

/// The installed binary of a package.
pub fn installed_bin(home: &str, package_name: &str) -> (r: String)
    ensures
        r@ == home@ + "/.cargo/bin/"@ + package_name@,
{
    cat3(home, "/.cargo/bin/", package_name)
}

/// `rm -f <quoted path>`.
pub fn remove_file_cmd(path: &str) -> (r: String)
    ensures
        r@ == "rm -f "@ + sh_quote(path@),
{
    let q = shell_quote(path);
    cat2("rm -f ", q.as_str())
}

// ---------------------------------------------------------------------------
// Build lock
// ---------------------------------------------------------------------------

/// Where the lock of a remote build directory lives.
pub fn lock_path(remote_path: &str) -> (r: String)
    ensures
        r@ == remote_path@ + "/.rcargo.lock"@,
{
    cat2(remote_path, "/.rcargo.lock")
}

/// Where the lock's owner writes its local PID.
pub fn holder_path(remote_path: &str) -> (r: String)
    ensures
        r@ == remote_path@ + "/.rcargo.lock/holder"@,
{
    cat2(remote_path, "/.rcargo.lock/holder")
}

/// A held remote lock: the host and the lock's path. The caller releases it
/// with [`release_cmd`] when the guarded work ends, failed or not.
#[derive(Debug, Clone)]
pub struct Lock {
    pub host: String,
    pub path: String,
}

/// The script that waits for the lock: `mkdir` is atomic, so the process
/// that creates the directory holds the lock; it then records its PID.
/// Waiting ends with an error after `max_wait` seconds.
pub open spec fn acquire_script_spec(path: Seq<char>, pid: u32, max_wait: u64) -> Seq<char> {
    "LOCK="@ + sh_quote(path) + "\nHOLDER="@ + dec(pid as nat) + "\nMAXWAIT="@ + dec(
        max_wait as nat,
    )
        + "\nmkdir -p \"$(dirname \"$LOCK\")\"\nif ! mkdir \"$LOCK\" 2>/dev/null; then\necho \"Remote lock held by a previous rcargo; waiting for it to finish...\"\nSTART=$(date +%s)\nwhile ! mkdir \"$LOCK\" 2>/dev/null; do\nNOW=$(date +%s)\nif [ $((NOW - START)) -ge \"$MAXWAIT\" ]; then\necho \"Timed out after ${MAXWAIT}s waiting for the remote lock at $LOCK\" >&2\necho \"A previous rcargo may be stuck. If none is running, clear it with: rcargo unlock\" >&2\nexit 1\nfi\nsleep 1\ndone\nfi\necho \"$HOLDER\" > \"$LOCK/holder\""@
}

impl Lock {
    /// The remote script that blocks until the lock at `path` is held by
    /// the local process `local_pid`, for at most `max_wait_secs` seconds.
    pub fn acquire_script(path: &str, local_pid: u32, max_wait_secs: u64) -> (r: String)
        ensures
            r@ == acquire_script_spec(path@, local_pid, max_wait_secs),
    {
        let mut v = chars_of("LOCK=");
        let q = shell_quote(path);
        push_str(&mut v, q.as_str());
        push_str(&mut v, "\nHOLDER=");
        let p = dec_of(local_pid as u64);
        push_all(&mut v, &p);
        push_str(&mut v, "\nMAXWAIT=");
        let w = dec_of(max_wait_secs);
        push_all(&mut v, &w);
        push_str(
            &mut v,
            "\nmkdir -p \"$(dirname \"$LOCK\")\"\nif ! mkdir \"$LOCK\" 2>/dev/null; then\necho \"Remote lock held by a previous rcargo; waiting for it to finish...\"\nSTART=$(date +%s)\nwhile ! mkdir \"$LOCK\" 2>/dev/null; do\nNOW=$(date +%s)\nif [ $((NOW - START)) -ge \"$MAXWAIT\" ]; then\necho \"Timed out after ${MAXWAIT}s waiting for the remote lock at $LOCK\" >&2\necho \"A previous rcargo may be stuck. If none is running, clear it with: rcargo unlock\" >&2\nexit 1\nfi\nsleep 1\ndone\nfi\necho \"$HOLDER\" > \"$LOCK/holder\"",
        );
        string_of(&v)
    }

    /// The lock held at `path` on `host`.
    pub fn held(host: &str, path: &str) -> (l: Lock)
        ensures
            l.host@ == host@,
            l.path@ == path@,
    {
        Lock { host: string_of(&chars_of(host)), path: string_of(&chars_of(path)) }
    }

    /// The remote command that releases the lock.
    pub fn release_cmd(&self) -> (r: String)
        ensures
            r@ == "rm -rf "@ + sh_quote(self.path@),
    {
        let q = shell_quote(self.path.as_str());
        cat2("rm -rf ", q.as_str())
    }
}

/// Whether the command name that `ps -o comm=` printed is an rcargo
/// process: its last `/`-separated part, after trimming, is `rcargo`.
pub open spec fn is_rcargo_spec(comm: Seq<char>) -> bool {
    let t = trim(comm);
    match rfind_char(t, '/') {
        Some(i) => t.skip(i + 1) == "rcargo"@,
        None => t == "rcargo"@,
    }
}

/// Whether a local PID belongs to rcargo, from what `ps` printed of it; only
/// such a process is killed to free a lock.
pub fn is_rcargo_process(comm: &str) -> (r: bool)
    ensures
        r == is_rcargo_spec(comm@),
{
    let cs = chars_of(comm);
    let t = trim_ws(&cs);
    match rfind(&t, '/') {
        Some(i) => {
            let tail = crate::text::slice(&t, i + 1, t.len());
            assert(tail@ == t@.skip(i + 1));
            chars_eq_str(&tail, "rcargo")
        },
        None => chars_eq_str(&t, "rcargo"),
    }
}

// ---------------------------------------------------------------------------
// Repository sync
// ---------------------------------------------------------------------------

/// `mkdir -p <quoted path>`.
pub fn mkdir_cmd(path: &str) -> (r: String)
    ensures
        r@ == "mkdir -p "@ + sh_quote(path@),
{
    let q = shell_quote(path);
    cat2("mkdir -p ", q.as_str())
}

/// The rsync destination of the project: `host:path/`.
pub fn rsync_destination(host: &str, remote_path: &str) -> (r: String)
    ensures
        r@ == host@ + ":"@ + remote_path@ + "/"@,
{
    let mut v = chars_of(host);
    push_str(&mut v, ":");
    push_str(&mut v, remote_path);
    push_str(&mut v, "/");
    string_of(&v)
}

/// The rsync exclude rule of an ignored path: a directory with a trailing
/// `/`, so that its whole subtree is skipped.
pub fn exclude_rule(rel: &str, is_dir: bool) -> (r: String)
    ensures
        r@ == if is_dir {
            rel@.push('/')
        } else {
            rel@
        },
{
    let mut v = chars_of(rel);
    if is_dir {
        v.push('/');
    }
    string_of(&v)
}

// ---------------------------------------------------------------------------
// SSH
// ---------------------------------------------------------------------------

/// Decimal text of a signed exit code.
pub open spec fn code_text(code: i32) -> Seq<char> {
    if code < 0 {
        seq!['-'] + dec((-code) as nat)
    } else {
        dec(code as nat)
    }
}

fn code_of(code: i32) -> (r: Vec<char>)
    ensures
        r@ == code_text(code),
{
    if code < 0 {
        let mut v: Vec<char> = Vec::new();
        v.push('-');
        let m: i64 = -(code as i64);
        let d = dec_of(m as u64);
        push_all(&mut v, &d);
        v
    } else {
        dec_of(code as u64)
    }
}

/// The error of a remote command that failed; `code` is -1 when it was ended
/// by a signal.
pub fn exit_error(code: i32) -> (r: String)
    ensures
        r@ == "Remote command failed with exit code: "@ + code_text(code),
{
    let mut v = chars_of("Remote command failed with exit code: ");
    let c = code_of(code);
    push_all(&mut v, &c);
    string_of(&v)
}

/// The error of a captured remote command that failed, with what it wrote
/// to stderr and stdout when it wrote anything.
pub fn capture_error(code: i32, stderr: &str, stdout: &str) -> (r: String)
    ensures
        r@ == "Remote command failed with exit code: "@ + code_text(code) + (if stderr@.len() > 0 {
            "\nstderr: "@ + stderr@
        } else {
            Seq::empty()
        }) + (if stdout@.len() > 0 {
            "\nstdout: "@ + stdout@
        } else {
            Seq::empty()
        }),
{
    let mut v = chars_of("Remote command failed with exit code: ");
    let c = code_of(code);
    push_all(&mut v, &c);
    let e = chars_of(stderr);
    if e.len() > 0 {
        push_str(&mut v, "\nstderr: ");
        push_all(&mut v, &e);
    }
    let o = chars_of(stdout);
    if o.len() > 0 {
        push_str(&mut v, "\nstdout: ");
        push_all(&mut v, &o);
    }
    string_of(&v)
}

/// The error when the remote host cannot be reached.
pub fn unreachable_error(target: &str) -> (r: String)
    ensures
        r@ == "Cannot connect to remote host '"@ + target@ + "' via SSH"@,
{
    cat3("Cannot connect to remote host '", target, "' via SSH")
}

/// The manifest that names the package: the member's `Cargo.toml`, or the
/// one in the current directory.
pub fn manifest_path(package: Option<&str>) -> (r: String)
    ensures
        r@ == match package {
            Some(p) => p@ + "/Cargo.toml"@,
            None => "Cargo.toml"@,
        },
{
    match package {
        Some(p) => cat2(p, "/Cargo.toml"),
        None => string_of(&chars_of("Cargo.toml")),
    }
}

/// The error when a workspace member has no manifest.
pub fn missing_package_error(package: &str, manifest: &str) -> (r: String)
    ensures
        r@ == "Package '"@ + package@ + "' not found: "@ + manifest@ + " does not exist"@,
{
    let mut v = chars_of("Package '");
    push_str(&mut v, package);
    push_str(&mut v, "' not found: ");
    push_str(&mut v, manifest);
    push_str(&mut v, " does not exist");
    string_of(&v)
}

// ---------------------------------------------------------------------------
// What the unit file and the lock script say
// ---------------------------------------------------------------------------

/// The `Environment=` line of one variable.
pub open spec fn env_line(kv: (String, String)) -> Seq<char> {
    "Environment=\""@ + kv.0@ + "="@ + kv.1@ + "\"\n"@
}

proof fn lemma_env_lines_concat(a: Seq<(String, String)>, b: Seq<(String, String)>)
    ensures
        env_lines(a + b) == env_lines(a) + env_lines(b),
    decreases b.len(),
{
    if b.len() == 0 {
        assert(a + b =~= a);
        assert(env_lines(a) + Seq::<char>::empty() =~= env_lines(a));
    } else {
        lemma_env_lines_concat(a, b.drop_last());
        assert((a + b).drop_last() =~= a + b.drop_last());
        assert((a + b).last() == b.last());
    }
}

/// The environment lines of `env`: those before `env[k]`, its own, those
/// after it.
proof fn lemma_env_lines_split(env: Seq<(String, String)>, k: int)
    requires
        0 <= k < env.len(),
    ensures
        env_lines(env) == env_lines(env.take(k)) + env_line(env[k]) + env_lines(env.skip(k + 1)),
{
    assert(env =~= env.take(k) + seq![env[k]] + env.skip(k + 1));
    lemma_env_lines_concat(env.take(k) + seq![env[k]], env.skip(k + 1));
    lemma_env_lines_concat(env.take(k), seq![env[k]]);
    assert(seq![env[k]].drop_last() =~= Seq::<(String, String)>::empty());
    assert(seq![env[k]].last() == env[k]);
    assert(env_lines(Seq::<(String, String)>::empty()) == Seq::<char>::empty());
    assert(env_lines(seq![env[k]]) =~= env_line(env[k]));
}

/// The unit file runs the release binary from the project directory (its
/// `ExecStart` and `WorkingDirectory` lines), and holds an `Environment="K=V"` line for every variable of the build, a
/// later variable's line after an earlier one's.
#[verifier::rlimit(60)]
pub proof fn lemma_service_file_env(
    package_name: Seq<char>,
    remote_path: Seq<char>,
    env: Seq<(String, String)>,
    i: int,
    j: int,
)
    requires
        0 <= i < env.len(),
        i < j < env.len() || j == i,
    ensures
        exists|pre: Seq<char>, post: Seq<char>|
            service_file_spec(package_name, remote_path, env) == pre + "ExecStart="@ + remote_path
                + "/target/release/"@ + package_name + "\n"@ + post,
        exists|pre: Seq<char>, post: Seq<char>|
            service_file_spec(package_name, remote_path, env) == pre + "WorkingDirectory="@
                + remote_path + "
"@ + post,
        exists|pre: Seq<char>, post: Seq<char>|
            service_file_spec(package_name, remote_path, env) == pre + env_line(env[i]) + post,
        j > i ==> exists|pre: Seq<char>, mid: Seq<char>, post: Seq<char>|
            service_file_spec(package_name, remote_path, env) == pre + env_line(env[i]) + mid
                + env_line(env[j]) + post,
{
    reveal_strlit("[Unit]\nDescription=");
    reveal_strlit("\nAfter=network.target\n\n[Service]\nType=simple\nExecStart=");
    reveal_strlit("\nWorkingDirectory=");
    reveal_strlit("ExecStart=");
    reveal_strlit("\n");
    let file = service_file_spec(package_name, remote_path, env);
    let unit = "[Unit]\nDescription="@ + package_name + "\nAfter=network.target\n\n[Service]\nType=simple\n"@;
    let tail = "Restart=on-failure\nRestartSec=5\n\n[Install]\nWantedBy=default.target\n"@;
    let wd = "WorkingDirectory="@ + remote_path + "\n"@;
    reveal_strlit("\nAfter=network.target\n\n[Service]\nType=simple\n");
    reveal_strlit("WorkingDirectory=");
    assert("\nAfter=network.target\n\n[Service]\nType=simple\nExecStart="@
        =~= "\nAfter=network.target\n\n[Service]\nType=simple\n"@ + "ExecStart="@);
    assert("\nWorkingDirectory="@ =~= "\n"@ + "WorkingDirectory="@);
    assert(file =~= unit + "ExecStart="@ + remote_path + "/target/release/"@ + package_name + "\n"@
        + (wd + env_lines(env) + tail));
    let head = unit + "ExecStart="@ + remote_path + "/target/release/"@ + package_name + "\n"@ + wd;
    assert(file =~= head + env_lines(env) + tail);
    let exec = unit + "ExecStart="@ + remote_path + "/target/release/"@ + package_name + "
"@;
    assert(file =~= exec + "WorkingDirectory="@ + remote_path + "
"@ + (env_lines(env) + tail));
    lemma_env_lines_split(env, i);
    let pre = head + env_lines(env.take(i));
    let post = env_lines(env.skip(i + 1)) + tail;
    assert(file =~= pre + env_line(env[i]) + post);
    if j > i {
        let t = env.skip(i + 1);
        lemma_env_lines_split(t, j - i - 1);
        assert(t[j - i - 1] == env[j]);
        let mid = env_lines(t.take(j - i - 1));
        let post2 = env_lines(t.skip(j - i)) + tail;
        assert(file =~= pre + env_line(env[i]) + mid + env_line(env[j]) + post2);
    }
}

/// The acquire script waits for the lock for the whole limit: it sets
/// `MAXWAIT` to the limit given, and it gives up (reporting the time-out and
/// leaving with status 1) only under the test that the seconds elapsed since
/// it started waiting are at least `MAXWAIT`; until then it sleeps a second
/// and tries to take the lock again.
pub proof fn lemma_acquire_script_waits(path: Seq<char>, pid: u32, max_wait: u64)
    ensures
        exists|pre: Seq<char>, post: Seq<char>|
            acquire_script_spec(path, pid, max_wait) == pre + "\nMAXWAIT="@ + dec(max_wait as nat)
                + "\n"@ + post,
        exists|pre: Seq<char>, post: Seq<char>|
            acquire_script_spec(path, pid, max_wait) == pre
                + "\nwhile ! mkdir \"$LOCK\" 2>/dev/null; do\nNOW=$(date +%s)\nif [ $((NOW - START)) -ge \"$MAXWAIT\" ]; then\n"@
                + post,
        exists|pre: Seq<char>, post: Seq<char>|
            acquire_script_spec(path, pid, max_wait) == pre
                + "\nexit 1\nfi\nsleep 1\ndone\nfi\necho \"$HOLDER\" > \"$LOCK/holder\""@ + post,
{
    let body = "\nmkdir -p \"$(dirname \"$LOCK\")\"\nif ! mkdir \"$LOCK\" 2>/dev/null; then\necho \"Remote lock held by a previous rcargo; waiting for it to finish...\"\nSTART=$(date +%s)\nwhile ! mkdir \"$LOCK\" 2>/dev/null; do\nNOW=$(date +%s)\nif [ $((NOW - START)) -ge \"$MAXWAIT\" ]; then\necho \"Timed out after ${MAXWAIT}s waiting for the remote lock at $LOCK\" >&2\necho \"A previous rcargo may be stuck. If none is running, clear it with: rcargo unlock\" >&2\nexit 1\nfi\nsleep 1\ndone\nfi\necho \"$HOLDER\" > \"$LOCK/holder\""@;
    let b1 = "\nmkdir -p \"$(dirname \"$LOCK\")\"\nif ! mkdir \"$LOCK\" 2>/dev/null; then\necho \"Remote lock held by a previous rcargo; waiting for it to finish...\"\nSTART=$(date +%s)"@;
    let wait = "\nwhile ! mkdir \"$LOCK\" 2>/dev/null; do\nNOW=$(date +%s)\nif [ $((NOW - START)) -ge \"$MAXWAIT\" ]; then\n"@;
    let report = "echo \"Timed out after ${MAXWAIT}s waiting for the remote lock at $LOCK\" >&2\necho \"A previous rcargo may be stuck. If none is running, clear it with: rcargo unlock\" >&2"@;
    let exit = "\nexit 1\nfi\nsleep 1\ndone\nfi\necho \"$HOLDER\" > \"$LOCK/holder\""@;
    reveal_strlit("\nmkdir -p \"$(dirname \"$LOCK\")\"\nif ! mkdir \"$LOCK\" 2>/dev/null; then\necho \"Remote lock held by a previous rcargo; waiting for it to finish...\"\nSTART=$(date +%s)\nwhile ! mkdir \"$LOCK\" 2>/dev/null; do\nNOW=$(date +%s)\nif [ $((NOW - START)) -ge \"$MAXWAIT\" ]; then\necho \"Timed out after ${MAXWAIT}s waiting for the remote lock at $LOCK\" >&2\necho \"A previous rcargo may be stuck. If none is running, clear it with: rcargo unlock\" >&2\nexit 1\nfi\nsleep 1\ndone\nfi\necho \"$HOLDER\" > \"$LOCK/holder\"");
    reveal_strlit("\nmkdir -p \"$(dirname \"$LOCK\")\"\nif ! mkdir \"$LOCK\" 2>/dev/null; then\necho \"Remote lock held by a previous rcargo; waiting for it to finish...\"\nSTART=$(date +%s)");
    reveal_strlit("\nwhile ! mkdir \"$LOCK\" 2>/dev/null; do\nNOW=$(date +%s)\nif [ $((NOW - START)) -ge \"$MAXWAIT\" ]; then\n");
    reveal_strlit("echo \"Timed out after ${MAXWAIT}s waiting for the remote lock at $LOCK\" >&2\necho \"A previous rcargo may be stuck. If none is running, clear it with: rcargo unlock\" >&2");
    reveal_strlit("\nexit 1\nfi\nsleep 1\ndone\nfi\necho \"$HOLDER\" > \"$LOCK/holder\"");
    reveal_strlit("\n");
    assert(body =~= b1 + wait + report + exit);
    assert(body =~= "\n"@ + body.skip(1));
    let lead = "LOCK="@ + sh_quote(path) + "\nHOLDER="@ + dec(pid as nat);
    let script = acquire_script_spec(path, pid, max_wait);
    assert(script =~= lead + "\nMAXWAIT="@ + dec(max_wait as nat) + "\n"@ + body.skip(1));
    let top = lead + "\nMAXWAIT="@ + dec(max_wait as nat);
    assert(script =~= top + b1 + wait + (report + exit));
    assert(script =~= (top + b1 + wait + report) + exit + Seq::<char>::empty());
}

} // verus!
