//! Remote cargo command lines, wrapped in a `nono` sandbox unless the
//! configuration disables it.
use vstd::prelude::*;

use crate::config::Config;
use crate::ext::sh_quote;
use crate::ssh::shell_quote;
use crate::text::{chars_of, join, push_all, push_joined, push_str, string_of};

verus! {

pub open spec fn words_view(v: Seq<Vec<char>>) -> Seq<Seq<char>> {
    v.map_values(|t: Vec<char>| t@)
}

/// `flag x0 flag x1 ...`: the flag before each item.
pub open spec fn flag_pairs(flag: Seq<char>, xs: Seq<Seq<char>>) -> Seq<Seq<char>>
    decreases xs.len(),
{
    if xs.len() == 0 {
        Seq::empty()
    } else {
        flag_pairs(flag, xs.drop_last()) + seq![flag, xs.last()]
    }
}

/// The domains a sandboxed build may always reach.
pub open spec fn default_domains() -> Seq<Seq<char>> {
    seq![
        "crates.io"@,
        "index.crates.io"@,
        "static.crates.io"@,
        "static.rust-lang.org"@,
        "github.com"@,
    ]
}

/// `export K=<quoted V>`.
pub open spec fn env_export(kv: (String, String)) -> Seq<char> {
    "export "@ + kv.0@ + seq!['='] + sh_quote(kv.1@)
}

/// The environment exports, then the colour setting, joined by `" && "`.
pub open spec fn env_prefix(env: Seq<(String, String)>) -> Seq<char> {
    join(env.map_values(|kv: (String, String)| env_export(kv)).push(
        "export CARGO_TERM_COLOR=always"@,
    ), " && "@)
}

/// The bash invocation that sets the environment and runs `inner`.
pub open spec fn bash_cmd(env: Seq<(String, String)>, inner: Seq<char>) -> Seq<char> {
    "bash --norc --noprofile -c \""@ + env_prefix(env) + " && "@ + inner + "\""@
}

/// The words of the `nono run` invocation.
pub open spec fn nono_words(
    remote_path: Seq<char>,
    home: Seq<char>,
    write: Seq<Seq<char>>,
    net: Seq<Seq<char>>,
    env: Seq<(String, String)>,
    inner: Seq<char>,
) -> Seq<Seq<char>> {
    seq![
        "NONO_NO_UPDATE_CHECK=1"@,
        "nono"@,
        "run"@,
        "--silent"@,
        "--allow-cwd"@,
        "--workdir"@,
        remote_path,
        "--allow"@,
        home + "/.rustup"@,
        "--allow"@,
        home + "/.cargo"@,
        "--allow"@,
        remote_path,
        "--allow"@,
        "/tmp"@,
        "--read"@,
        "/usr/libexec"@,
        "--read"@,
        "/usr/include"@,
    ] + flag_pairs("--allow"@, write) + flag_pairs("--allow-domain"@, default_domains())
        + flag_pairs("--allow-domain"@, net) + seq!["--"@, bash_cmd(env, inner)]
}

/// `inner` as it is when the sandbox is off, else the `nono run` words
/// joined by spaces.
pub open spec fn sandbox_cmd_spec(
    config: Config,
    remote_path: Seq<char>,
    home: Seq<char>,
    inner: Seq<char>,
) -> Seq<char> {
    if !config.sandbox.enabled {
        inner
    } else {
        join(
            nono_words(
                remote_path,
                home,
                config.sandbox.allow.write.deep_view(),
                config.sandbox.allow.net.deep_view(),
                config.sandbox.env@,
                inner,
            ),
            " "@,
        )
    }
}

/// Nothing for no arguments, else a space and the quoted arguments joined by
/// spaces.
pub open spec fn quoted_args_spec(args: Seq<Seq<char>>) -> Seq<char> {
    if args.len() == 0 {
        Seq::empty()
    } else {
        " "@ + join(args.map_values(|a: Seq<char>| sh_quote(a)), " "@)
    }
}

/// `cd <quoted path> && CARGO_TERM_PROGRESS_WHEN=never cargo <tail>`.
pub open spec fn cargo_inner(remote_path: Seq<char>, tail: Seq<char>) -> Seq<char> {
    "cd "@ + sh_quote(remote_path) + " && CARGO_TERM_PROGRESS_WHEN=never cargo "@ + tail
}

// ---------------------------------------------------------------------------

/// The words joined by `sep`.
pub fn join_words(items: &Vec<Vec<char>>, sep: &str) -> (r: Vec<char>)
    ensures
        r@ == join(words_view(items@), sep@),
{
    let mut out: Vec<char> = Vec::new();
    let mut i: usize = 0;
    while i < items.len()
        invariant
            i <= items.len(),
            out@ == join(words_view(items@).take(i as int), sep@),
        decreases items.len() - i,
    {
        push_joined(&mut out, sep, &items[i], i == 0, Ghost(words_view(items@).take(i as int)));
        assert(words_view(items@).take(i + 1) == words_view(items@).take(i as int).push(
            items@[i as int]@,
        ));
        i = i + 1;
    }
    assert(words_view(items@).take(items.len() as int) == words_view(items@));
    out
}

fn word(s: &str) -> (r: Vec<char>)
    ensures
        r@ == s@,
{
    chars_of(s)
}

/// Appends `flag x` for each `x` of `xs`.
fn push_flag_pairs(args: &mut Vec<Vec<char>>, flag: &str, xs: &Vec<String>)
    ensures
        words_view(final(args)@) == words_view(old(args)@) + flag_pairs(flag@, xs.deep_view()),
{
    let ghost start = words_view(args@);
    let mut i: usize = 0;
    while i < xs.len()
        invariant
            i <= xs.len(),
            words_view(args@) == start + flag_pairs(flag@, xs.deep_view().take(i as int)),
        decreases xs.len() - i,
    {
        let ghost before = args@;
        args.push(word(flag));
        args.push(chars_of(xs[i].as_str()));
        proof {
            let t = xs.deep_view().take(i + 1);
            assert(t.drop_last() == xs.deep_view().take(i as int));
            assert(t.last() == xs[i as int]@);
            assert(words_view(args@) == words_view(before).push(flag@).push(xs[i as int]@));
        }
        i = i + 1;
    }
    assert(xs.deep_view().take(xs.len() as int) == xs.deep_view());
}

/// The environment prefix of the sandboxed shell.
fn env_prefix_exec(env: &Vec<(String, String)>) -> (r: Vec<char>)
    ensures
        r@ == env_prefix(env@),
{
    let ghost f = |kv: (String, String)| env_export(kv);
    let mut out: Vec<char> = Vec::new();
    let mut i: usize = 0;
    while i < env.len()
        invariant
            i <= env.len(),
            out@ == join(env@.take(i as int).map_values(f), " && "@),
            f == (|kv: (String, String)| env_export(kv)),
        decreases env.len() - i,
    {
        let mut item = chars_of("export ");
        push_str(&mut item, env[i].0.as_str());
        item.push('=');
        let q = shell_quote(env[i].1.as_str());
        push_str(&mut item, q.as_str());
        assert(item@ =~= f(env@[i as int]));
        push_joined(&mut out, " && ", &item, i == 0, Ghost(env@.take(i as int).map_values(f)));
        assert(env@.take(i + 1).map_values(f) == env@.take(i as int).map_values(f).push(
            f(env@[i as int]),
        ));
        i = i + 1;
    }
    assert(env@.take(env.len() as int) == env@);
    let last = chars_of("export CARGO_TERM_COLOR=always");
    push_joined(&mut out, " && ", &last, env.len() == 0, Ghost(env@.map_values(f)));
    out
}

/// Wraps `inner` in a `nono` sandbox unless the configuration disables it.
/// Network access is limited to the default and the configured domains.
fn sandbox_cmd(config: &Config, remote_path: &str, home: &str, inner: &[char]) -> (r: String)
    ensures
        r@ == sandbox_cmd_spec(*config, remote_path@, home@, inner@),
{
    if !config.sandbox.enabled {
        return string_of(inner);
    }
    let mut args: Vec<Vec<char>> = Vec::new();
    args.push(word("NONO_NO_UPDATE_CHECK=1"));
    args.push(word("nono"));
    args.push(word("run"));
    args.push(word("--silent"));
    args.push(word("--allow-cwd"));
    args.push(word("--workdir"));
    args.push(word(remote_path));
    args.push(word("--allow"));
    let mut h = word(home);
    push_str(&mut h, "/.rustup");
    args.push(h);
    args.push(word("--allow"));
    let mut h = word(home);
    push_str(&mut h, "/.cargo");
    args.push(h);
    args.push(word("--allow"));
    args.push(word(remote_path));
    args.push(word("--allow"));
    args.push(word("/tmp"));
    args.push(word("--read"));
    args.push(word("/usr/libexec"));
    args.push(word("--read"));
    args.push(word("/usr/include"));
    let ghost head = words_view(args@);
    assert(head =~= seq![
        "NONO_NO_UPDATE_CHECK=1"@,
        "nono"@,
        "run"@,
        "--silent"@,
        "--allow-cwd"@,
        "--workdir"@,
        remote_path@,
        "--allow"@,
        home@ + "/.rustup"@,
        "--allow"@,
        home@ + "/.cargo"@,
        "--allow"@,
        remote_path@,
        "--allow"@,
        "/tmp"@,
        "--read"@,
        "/usr/libexec"@,
        "--read"@,
        "/usr/include"@,
    ]);
    push_flag_pairs(&mut args, "--allow", &config.sandbox.allow.write);
    let defaults: Vec<String> = vec![
        string_of(&word("crates.io")),
        string_of(&word("index.crates.io")),
        string_of(&word("static.crates.io")),
        string_of(&word("static.rust-lang.org")),
        string_of(&word("github.com")),
    ];
    assert(defaults.deep_view() =~= default_domains());
    push_flag_pairs(&mut args, "--allow-domain", &defaults);
    push_flag_pairs(&mut args, "--allow-domain", &config.sandbox.allow.net);
    let ghost mid = words_view(args@);
    assert(mid == head + flag_pairs("--allow"@, config.sandbox.allow.write.deep_view())
        + flag_pairs("--allow-domain"@, default_domains())
        + flag_pairs("--allow-domain"@, config.sandbox.allow.net.deep_view()));
    args.push(word("--"));
    let mut full = word("bash --norc --noprofile -c \"");
    let prefix = env_prefix_exec(&config.sandbox.env);
    push_all(&mut full, &prefix);
    push_str(&mut full, " && ");
    push_all(&mut full, inner);
    push_str(&mut full, "\"");
    assert(full@ =~= bash_cmd(config.sandbox.env@, inner@));
    let ghost before_full = args@;
    args.push(full);
    assert(words_view(args@) =~= words_view(before_full).push(bash_cmd(config.sandbox.env@, inner@)));
    assert(words_view(before_full) =~= mid.push("--"@));
    assert(words_view(args@) =~= nono_words(
        remote_path@,
        home@,
        config.sandbox.allow.write.deep_view(),
        config.sandbox.allow.net.deep_view(),
        config.sandbox.env@,
        inner@,
    ));
    let cmd = join_words(&args, " ");
    string_of(&cmd)
}

/// Quotes and joins extra arguments, with a leading space (or nothing when
/// there are none).
fn quoted_args(args: &Vec<String>) -> (r: Vec<char>)
    ensures
        r@ == quoted_args_spec(args.deep_view()),
{
    if args.len() == 0 {
        return Vec::new();
    }
    let ghost f = |a: Seq<char>| sh_quote(a);
    let mut out: Vec<char> = Vec::new();
    let mut i: usize = 0;
    while i < args.len()
        invariant
            i <= args.len(),
            out@ == join(args.deep_view().take(i as int).map_values(f), " "@),
            f == (|a: Seq<char>| sh_quote(a)),
        decreases args.len() - i,
    {
        let q = shell_quote(args[i].as_str());
        let qv = chars_of(q.as_str());
        push_joined(&mut out, " ", &qv, i == 0, Ghost(args.deep_view().take(i as int).map_values(f)));
        assert(args.deep_view().take(i + 1).map_values(f) == args.deep_view().take(
            i as int,
        ).map_values(f).push(f(args[i as int]@)));
        i = i + 1;
    }
    assert(args.deep_view().take(args.len() as int) == args.deep_view());
    let mut r = word(" ");
    push_all(&mut r, &out);
    r
}

/// `cd <quoted path> && CARGO_TERM_PROGRESS_WHEN=never cargo ` and `tail`.
fn cargo_inner_exec(remote_path: &str, tail: &[char]) -> (r: Vec<char>)
    ensures
        r@ == cargo_inner(remote_path@, tail@),
{
    let mut v = word("cd ");
    let q = shell_quote(remote_path);
    push_str(&mut v, q.as_str());
    push_str(&mut v, " && CARGO_TERM_PROGRESS_WHEN=never cargo ");
    push_all(&mut v, tail);
    v
}

/// A cargo command with extra arguments, sandboxed.
fn cargo_step(
    config: &Config,
    remote_path: &str,
    home: &str,
    sub: &str,
    extra_args: &Vec<String>,
) -> (r: String)
    ensures
        r@ == sandbox_cmd_spec(
            *config,
            remote_path@,
            home@,
            cargo_inner(remote_path@, sub@ + quoted_args_spec(extra_args.deep_view())),
        ),
{
    let mut tail = word(sub);
    let qa = quoted_args(extra_args);
    push_all(&mut tail, &qa);
    let inner = cargo_inner_exec(remote_path, &tail);
    sandbox_cmd(config, remote_path, home, &inner)
}

/// The remote `cargo build --release` command, sandboxed. The caller prints
/// it when `debug` is set.
pub fn build_cmd(
    config: &Config,
    remote_path: &str,
    home: &str,
    extra_args: &Vec<String>,
    debug: bool,
) -> (r: String)
    ensures
        r@ == sandbox_cmd_spec(
            *config,
            remote_path@,
            home@,
            cargo_inner(remote_path@, "build --release"@ + quoted_args_spec(extra_args.deep_view())),
        ),
{
    cargo_step(config, remote_path, home, "build --release", extra_args)
}

/// The remote `cargo test` command, sandboxed.
pub fn test_cmd(
    config: &Config,
    remote_path: &str,
    home: &str,
    extra_args: &Vec<String>,
    debug: bool,
) -> (r: String)
    ensures
        r@ == sandbox_cmd_spec(
            *config,
            remote_path@,
            home@,
            cargo_inner(remote_path@, "test"@ + quoted_args_spec(extra_args.deep_view())),
        ),
{
    cargo_step(config, remote_path, home, "test", extra_args)
}

/// The remote `cargo check --workspace` command, sandboxed.
pub fn check_cmd(
    config: &Config,
    remote_path: &str,
    home: &str,
    extra_args: &Vec<String>,
    debug: bool,
) -> (r: String)
    ensures
        r@ == sandbox_cmd_spec(
            *config,
            remote_path@,
            home@,
            cargo_inner(
                remote_path@,
                "check --workspace"@ + quoted_args_spec(extra_args.deep_view()),
            ),
        ),
{
    cargo_step(config, remote_path, home, "check --workspace", extra_args)
}

/// The remote `cargo clippy --workspace -- -D warnings` command, sandboxed.
pub fn clippy_cmd(
    config: &Config,
    remote_path: &str,
    home: &str,
    extra_args: &Vec<String>,
    debug: bool,
) -> (r: String)
    ensures
        r@ == sandbox_cmd_spec(
            *config,
            remote_path@,
            home@,
            cargo_inner(
                remote_path@,
                "clippy --workspace -- -D warnings"@ + quoted_args_spec(extra_args.deep_view()),
            ),
        ),
{
    cargo_step(config, remote_path, home, "clippy --workspace -- -D warnings", extra_args)
}

/// The remote `cargo lint` command (a lint xtask), sandboxed.
pub fn lint_cmd(
    config: &Config,
    remote_path: &str,
    home: &str,
    extra_args: &Vec<String>,
    debug: bool,
) -> (r: String)
    ensures
        r@ == sandbox_cmd_spec(
            *config,
            remote_path@,
            home@,
            cargo_inner(remote_path@, "lint"@ + quoted_args_spec(extra_args.deep_view())),
        ),
{
    cargo_step(config, remote_path, home, "lint", extra_args)
}

/// The path `cargo install` installs from: the package's directory under
/// the remote path, or the remote path itself.
pub open spec fn install_path(remote_path: Seq<char>, package: Option<Seq<char>>) -> Seq<char> {
    match package {
        Some(p) => remote_path + "/"@ + p,
        None => remote_path,
    }
}

/// The remote `cargo install --path ... --force` command, sandboxed; it
/// installs the binary into `~/.cargo/bin/`.
pub fn install_cmd(
    config: &Config,
    remote_path: &str,
    home: &str,
    package: Option<&str>,
    debug: bool,
) -> (r: String)
    ensures
        r@ == sandbox_cmd_spec(
            *config,
            remote_path@,
            home@,
            cargo_inner(
                remote_path@,
                "install --path "@ + sh_quote(
                    install_path(
                        remote_path@,
                        match package {
                            Some(p) => Some(p@),
                            None => None,
                        },
                    ),
                ) + " --force"@,
            ),
        ),
{
    let mut ip = word(remote_path);
    match package {
        Some(p) => {
            push_str(&mut ip, "/");
            push_str(&mut ip, p);
        },
        None => {},
    }
    let ips = string_of(&ip);
    let q = shell_quote(ips.as_str());
    let mut tail = word("install --path ");
    push_str(&mut tail, q.as_str());
    push_str(&mut tail, " --force");
    let inner = cargo_inner_exec(remote_path, &tail);
    sandbox_cmd(config, remote_path, home, &inner)
}

// ---------------------------------------------------------------------------
// What the sandboxed command allows
// ---------------------------------------------------------------------------

/// The list has two words for each item.
proof fn lemma_flag_pairs_len(flag: Seq<char>, xs: Seq<Seq<char>>)
    ensures
        flag_pairs(flag, xs).len() == 2 * xs.len(),
    decreases xs.len(),
{
    if xs.len() > 0 {
        lemma_flag_pairs_len(flag, xs.drop_last());
    }
}

/// The flag stands right before item `k`, at twice its index.
proof fn lemma_flag_pair_at(flag: Seq<char>, xs: Seq<Seq<char>>, k: int)
    requires
        0 <= k < xs.len(),
    ensures
        flag_pairs(flag, xs)[2 * k] == flag,
        flag_pairs(flag, xs)[2 * k + 1] == xs[k],
    decreases xs.len(),
{
    let t = xs.drop_last();
    lemma_flag_pairs_len(flag, t);
    if k < t.len() {
        lemma_flag_pair_at(flag, t, k);
        assert(t[k] == xs[k]);
    } else {
        assert(xs.last() == xs[k]);
    }
}

/// The words of the `nono run` invocation: the 19 fixed ones, the write
/// allowances, the domain allowances, then `--` and the bash command.
proof fn lemma_nono_words_parts(
    remote_path: Seq<char>,
    home: Seq<char>,
    w: Seq<Seq<char>>,
    n: Seq<Seq<char>>,
    env: Seq<(String, String)>,
    inner: Seq<char>,
)
    ensures
        ({
            let words = nono_words(remote_path, home, w, n, env, inner);
            let fw = flag_pairs("--allow"@, w);
            let fd = flag_pairs("--allow-domain"@, default_domains());
            let fnet = flag_pairs("--allow-domain"@, n);
            &&& words.len() == 19 + 2 * (w.len() as int) + 10 + 2 * (n.len() as int) + 2
            &&& words.subrange(19, 19 + 2 * (w.len() as int)) == fw
            &&& words.subrange(19 + 2 * (w.len() as int), 29 + 2 * (w.len() as int)) == fd
            &&& words.subrange(29 + 2 * (w.len() as int), 29 + 2 * (w.len() as int) + 2 * (n.len() as int)) == fnet
            &&& words[13] == "--allow"@
            &&& words[14] == "/tmp"@
            &&& words[29 + 2 * (w.len() as int) + 2 * (n.len() as int)] == "--"@
        }),
{
    let words = nono_words(remote_path, home, w, n, env, inner);
    let fixed = seq![
        "NONO_NO_UPDATE_CHECK=1"@,
        "nono"@,
        "run"@,
        "--silent"@,
        "--allow-cwd"@,
        "--workdir"@,
        remote_path,
        "--allow"@,
        home + "/.rustup"@,
        "--allow"@,
        home + "/.cargo"@,
        "--allow"@,
        remote_path,
        "--allow"@,
        "/tmp"@,
        "--read"@,
        "/usr/libexec"@,
        "--read"@,
        "/usr/include"@,
    ];
    let fw = flag_pairs("--allow"@, w);
    let fd = flag_pairs("--allow-domain"@, default_domains());
    let fnet = flag_pairs("--allow-domain"@, n);
    let tail = seq!["--"@, bash_cmd(env, inner)];
    lemma_flag_pairs_len("--allow"@, w);
    lemma_flag_pairs_len("--allow-domain"@, default_domains());
    lemma_flag_pairs_len("--allow-domain"@, n);
    assert(default_domains().len() == 5);
    assert(words == fixed + fw + fd + fnet + tail);
    assert(words.subrange(19, 19 + 2 * (w.len() as int)) =~= fw);
    assert(words.subrange(19 + 2 * (w.len() as int), 29 + 2 * (w.len() as int)) =~= fd);
    assert(words.subrange(29 + 2 * (w.len() as int), 29 + 2 * (w.len() as int) + 2 * (n.len() as int)) =~= fnet);
    assert(words[13] == fixed[13]);
    assert(words[14] == fixed[14]);
    assert(words[29 + 2 * (w.len() as int) + 2 * (n.len() as int)] == tail[0]);
}

/// With the sandbox on, the command is the words of a `nono run` joined by
/// single spaces: 19 fixed words (among them `--allow /tmp`), two words for
/// each write path, ten for the default domains, two for each configured
/// domain, then `--` and the bash command.
pub proof fn lemma_sandbox_words(config: Config, remote_path: Seq<char>, home: Seq<char>, inner: Seq<
    char,
>)
    requires
        config.sandbox.enabled,
    ensures
        ({
            let w = config.sandbox.allow.write.deep_view();
            let n = config.sandbox.allow.net.deep_view();
            let words = nono_words(remote_path, home, w, n, config.sandbox.env@, inner);
            &&& sandbox_cmd_spec(config, remote_path, home, inner) == join(words, " "@)
            &&& words.len() == 19 + 2 * (w.len() as int) + 10 + 2 * (n.len() as int) + 2
            &&& words[13] == "--allow"@ && words[14] == "/tmp"@
            &&& words[19 + 2 * (w.len() as int)] == "--allow-domain"@
            &&& words[20 + 2 * (w.len() as int)] == "crates.io"@
            &&& words[22 + 2 * (w.len() as int)] == "index.crates.io"@
            &&& words[24 + 2 * (w.len() as int)] == "static.crates.io"@
            &&& words[26 + 2 * (w.len() as int)] == "static.rust-lang.org"@
            &&& words[28 + 2 * (w.len() as int)] == "github.com"@
            &&& words[29 + 2 * (w.len() as int) + 2 * (n.len() as int)] == "--"@
        }),
{
    let w = config.sandbox.allow.write.deep_view();
    let n = config.sandbox.allow.net.deep_view();
    let words = nono_words(remote_path, home, w, n, config.sandbox.env@, inner);
    lemma_nono_words_parts(remote_path, home, w, n, config.sandbox.env@, inner);
    let d = words.subrange(19 + 2 * (w.len() as int), 29 + 2 * (w.len() as int));
    lemma_flag_pair_at("--allow-domain"@, default_domains(), 0);
    lemma_flag_pair_at("--allow-domain"@, default_domains(), 1);
    lemma_flag_pair_at("--allow-domain"@, default_domains(), 2);
    lemma_flag_pair_at("--allow-domain"@, default_domains(), 3);
    lemma_flag_pair_at("--allow-domain"@, default_domains(), 4);
    assert(words[19 + 2 * (w.len() as int)] == d[0]);
    assert(words[20 + 2 * (w.len() as int)] == d[1]);
    assert(words[22 + 2 * (w.len() as int)] == d[3]);
    assert(words[24 + 2 * (w.len() as int)] == d[5]);
    assert(words[26 + 2 * (w.len() as int)] == d[7]);
    assert(words[28 + 2 * (w.len() as int)] == d[9]);
}

/// With the sandbox on, write path `k` of the settings is the word right
/// after the `--allow` flag at word `19 + 2k`: each write path is allowed,
/// in the order of the settings.
pub proof fn lemma_sandbox_allows_write(
    config: Config,
    remote_path: Seq<char>,
    home: Seq<char>,
    inner: Seq<char>,
    k: int,
)
    requires
        config.sandbox.enabled,
        0 <= k < config.sandbox.allow.write.len(),
    ensures
        ({
            let w = config.sandbox.allow.write.deep_view();
            let words = nono_words(
                remote_path,
                home,
                w,
                config.sandbox.allow.net.deep_view(),
                config.sandbox.env@,
                inner,
            );
            &&& sandbox_cmd_spec(config, remote_path, home, inner) == join(words, " "@)
            &&& words[19 + 2 * k] == "--allow"@
            &&& words[20 + 2 * k] == config.sandbox.allow.write[k]@
        }),
{
    let w = config.sandbox.allow.write.deep_view();
    let n = config.sandbox.allow.net.deep_view();
    let words = nono_words(remote_path, home, w, n, config.sandbox.env@, inner);
    lemma_nono_words_parts(remote_path, home, w, n, config.sandbox.env@, inner);
    lemma_flag_pair_at("--allow"@, w, k);
    let fw = flag_pairs("--allow"@, w);
    assert(words[19 + 2 * k] == words.subrange(19, 19 + 2 * (w.len() as int))[2 * k]);
    assert(words[20 + 2 * k] == words.subrange(19, 19 + 2 * (w.len() as int))[2 * k + 1]);
}

/// With the sandbox on, configured domain `k` is the word right after the
/// `--allow-domain` flag at word `29 + 2 * (write paths) + 2k`, after the
/// default domains: each configured domain is allowed, in order.
pub proof fn lemma_sandbox_allows_domain(
    config: Config,
    remote_path: Seq<char>,
    home: Seq<char>,
    inner: Seq<char>,
    k: int,
)
    requires
        config.sandbox.enabled,
        0 <= k < config.sandbox.allow.net.len(),
    ensures
        ({
            let w = config.sandbox.allow.write.deep_view();
            let n = config.sandbox.allow.net.deep_view();
            let words = nono_words(remote_path, home, w, n, config.sandbox.env@, inner);
            &&& sandbox_cmd_spec(config, remote_path, home, inner) == join(words, " "@)
            &&& words[29 + 2 * (w.len() as int) + 2 * k] == "--allow-domain"@
            &&& words[30 + 2 * (w.len() as int) + 2 * k] == config.sandbox.allow.net[k]@
        }),
{
    let w = config.sandbox.allow.write.deep_view();
    let n = config.sandbox.allow.net.deep_view();
    let words = nono_words(remote_path, home, w, n, config.sandbox.env@, inner);
    lemma_nono_words_parts(remote_path, home, w, n, config.sandbox.env@, inner);
    lemma_flag_pair_at("--allow-domain"@, n, k);
    let s = words.subrange(29 + 2 * (w.len() as int), 29 + 2 * (w.len() as int) + 2 * (n.len() as int));
    assert(words[29 + 2 * (w.len() as int) + 2 * k] == s[2 * k]);
    assert(words[30 + 2 * (w.len() as int) + 2 * k] == s[2 * k + 1]);
}

/// Where item `k` stands in the joined text.
proof fn lemma_join_has(items: Seq<Seq<char>>, sep: Seq<char>, k: int) -> (r: (Seq<char>, Seq<char>))
    requires
        0 <= k < items.len(),
    ensures
        join(items, sep) == r.0 + items[k] + r.1,
    decreases items.len(),
{
    if items.len() == 1 {
        assert(join(items, sep) =~= Seq::<char>::empty() + items[k] + Seq::<char>::empty());
        (Seq::empty(), Seq::empty())
    } else if k == items.len() - 1 {
        let pre = join(items.drop_last(), sep) + sep;
        assert(join(items, sep) =~= pre + items[k] + Seq::<char>::empty());
        (pre, Seq::empty())
    } else {
        let d = items.drop_last();
        let (a, b) = lemma_join_has(d, sep, k);
        assert(d[k] == items[k]);
        let post = b + sep + items.last();
        assert(join(items, sep) =~= a + items[k] + post);
        (a, post)
    }
}

/// With the sandbox on, the sandboxed command ends in the bash command,
/// which exports environment variable `k` of the settings as
/// `export K=<quoted V>` and ends by running the inner command.
pub proof fn lemma_sandbox_exports(
    config: Config,
    remote_path: Seq<char>,
    home: Seq<char>,
    inner: Seq<char>,
    k: int,
)
    requires
        config.sandbox.enabled,
        0 <= k < config.sandbox.env.len(),
    ensures
        exists|pre: Seq<char>, post: Seq<char>|
            sandbox_cmd_spec(config, remote_path, home, inner) == pre + "export "@
                + config.sandbox.env[k].0@ + seq!['='] + sh_quote(config.sandbox.env[k].1@) + post,
        exists|pre: Seq<char>|
            sandbox_cmd_spec(config, remote_path, home, inner) == pre + " && "@ + inner + "\""@,
{
    let w = config.sandbox.allow.write.deep_view();
    let n = config.sandbox.allow.net.deep_view();
    let env = config.sandbox.env@;
    let words = nono_words(remote_path, home, w, n, env, inner);
    lemma_nono_words_parts(remote_path, home, w, n, env, inner);
    let last = words[words.len() - 1];
    assert(last == bash_cmd(env, inner));
    let a = join(words.drop_last(), " "@) + " "@;
    assert(sandbox_cmd_spec(config, remote_path, home, inner) == a + last);
    let items = env.map_values(|kv: (String, String)| env_export(kv)).push(
        "export CARGO_TERM_COLOR=always"@,
    );
    assert(items[k] == env_export(env[k]));
    let (p, q) = lemma_join_has(items, " && "@, k);
    let b = "bash --norc --noprofile -c \""@;
    let pre = a + b + p;
    let post = q + " && "@ + inner + "\""@;
    assert(sandbox_cmd_spec(config, remote_path, home, inner) =~= pre + "export "@ + env[k].0@
        + seq!['='] + sh_quote(env[k].1@) + post);
    let pre2 = a + b + env_prefix(env);
    assert(sandbox_cmd_spec(config, remote_path, home, inner) =~= pre2 + " && "@ + inner + "\""@);
}

} // verus!
