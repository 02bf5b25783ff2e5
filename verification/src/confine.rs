//! How the shim confines the command it runs: the Landlock rules on Linux,
//! the Seatbelt profile on macOS, and the warnings where the kernel cannot
//! enforce them.
use vstd::prelude::*;

use crate::num::{dec, dec_of};
use crate::protocol::{SandboxConfig, SandboxView};
use crate::session::clone_strings;
use crate::text::{chars_of, push_all, push_str, replace, replace_all, string_of};

verus! {

/// `p` with `\` doubled and `"` escaped, for a Seatbelt string literal.
pub open spec fn escape_spec(p: Seq<char>) -> Seq<char> {
    replace_all(replace_all(p, seq!['\\'], seq!['\\', '\\']), seq!['"'], seq!['\\', '"'])
}

/// Escapes a path for a string literal of a Seatbelt profile.
pub fn escape_seatbelt_path(p: &str) -> (r: String)
    ensures
        r@ == escape_spec(p@),
{
    let cs = chars_of(p);
    let bs: Vec<char> = vec!['\\'];
    let bs2: Vec<char> = vec!['\\', '\\'];
    let q: Vec<char> = vec!['"'];
    let bq: Vec<char> = vec!['\\', '"'];
    assert(bs@ =~= seq!['\\']);
    assert(bs2@ =~= seq!['\\', '\\']);
    assert(q@ =~= seq!['"']);
    assert(bq@ =~= seq!['\\', '"']);
    let once = replace(&cs, &bs, &bs2);
    let twice = replace(&once, &q, &bq);
    string_of(&twice)
}

/// `  (allow <what> (subpath "<escaped p>"))` and a newline.
pub open spec fn allow_rule(what: Seq<char>, p: Seq<char>) -> Seq<char> {
    "  (allow "@ + what + " (subpath \""@ + escape_spec(p) + "\"))\n"@
}

/// The read rules of the readable paths.
pub open spec fn read_rules(ps: Seq<Seq<char>>) -> Seq<char>
    decreases ps.len(),
{
    if ps.len() == 0 {
        Seq::empty()
    } else {
        read_rules(ps.drop_last()) + allow_rule("file-read*"@, ps.last())
    }
}

/// The read and write rules of the writable paths.
pub open spec fn write_rules(ps: Seq<Seq<char>>) -> Seq<char>
    decreases ps.len(),
{
    if ps.len() == 0 {
        Seq::empty()
    } else {
        write_rules(ps.drop_last()) + allow_rule("file-read*"@, ps.last()) + allow_rule(
            "file-write*"@,
            ps.last(),
        )
    }
}

/// The network rules: TCP to the proxy and UDP when a proxy runs, else any
/// TCP when domains are allowed, else none.
pub open spec fn net_rules(net: Seq<Seq<char>>, proxy_port: Option<u16>) -> Seq<char> {
    match proxy_port {
        Some(port) => "  (allow network-outbound (remote ip \"127.0.0.1:"@ + dec(port as nat)
            + "\"))\n"@ + "  (allow network-outbound (remote udp))\n"@,
        None => if net.len() > 0 {
            "  (allow network* (remote tcp))\n"@
        } else {
            Seq::empty()
        },
    }
}

/// The Seatbelt profile: one parenthesised list that denies by default, then
/// allows the paths and the network.
pub open spec fn seatbelt_profile(c: SandboxView, proxy_port: Option<u16>) -> Seq<char> {
    "(\n(version 1)\n(deny default)\n"@ + read_rules(c.read) + write_rules(c.write) + net_rules(
        c.net,
        proxy_port,
    ) + seq![')']
}

fn push_rule(out: &mut Vec<char>, what: &str, p: &str)
    ensures
        final(out)@ == old(out)@ + allow_rule(what@, p@),
{
    push_str(out, "  (allow ");
    push_str(out, what);
    push_str(out, " (subpath \"");
    let e = escape_seatbelt_path(p);
    push_str(out, e.as_str());
    push_str(out, "\"))\n");
}

/// Builds the Seatbelt profile for the sandbox settings.
pub fn build_seatbelt_profile(config: &SandboxConfig, proxy_port: Option<u16>) -> (r: String)
    ensures
        r@ == seatbelt_profile(config@, proxy_port),
{
    let mut out = chars_of("(\n(version 1)\n(deny default)\n");
    let ghost head = out@;
    let mut i: usize = 0;
    while i < config.read.len()
        invariant
            i <= config.read.len(),
            out@ == head + read_rules(config.read.deep_view().take(i as int)),
        decreases config.read.len() - i,
    {
        push_rule(&mut out, "file-read*", config.read[i].as_str());
        assert(config.read.deep_view().take(i + 1).drop_last() == config.read.deep_view().take(
            i as int,
        ));
        i = i + 1;
    }
    assert(config.read.deep_view().take(config.read.len() as int) == config.read.deep_view());
    let ghost mid = out@;
    let mut j: usize = 0;
    while j < config.write.len()
        invariant
            j <= config.write.len(),
            out@ == mid + write_rules(config.write.deep_view().take(j as int)),
        decreases config.write.len() - j,
    {
        push_rule(&mut out, "file-read*", config.write[j].as_str());
        push_rule(&mut out, "file-write*", config.write[j].as_str());
        assert(config.write.deep_view().take(j + 1).drop_last() == config.write.deep_view().take(
            j as int,
        ));
        j = j + 1;
    }
    assert(config.write.deep_view().take(config.write.len() as int)
        == config.write.deep_view());
    match proxy_port {
        Some(port) => {
            push_str(&mut out, "  (allow network-outbound (remote ip \"127.0.0.1:");
            let d = dec_of(port as u64);
            push_all(&mut out, &d);
            push_str(&mut out, "\"))\n");
            push_str(&mut out, "  (allow network-outbound (remote udp))\n");
        },
        None => {
            if config.net.len() > 0 {
                push_str(&mut out, "  (allow network* (remote tcp))\n");
            }
        },
    }
    out.push(')');
    string_of(&out)
}

/// The platforms the shim knows how to confine.
#[derive(Debug, Clone, Copy, PartialEq, Eq, Structural)]
pub enum Platform {
    Linux,
    MacOs,
    Other,
}

/// The Landlock rules for the sandbox settings.
#[derive(Debug)]
pub struct LandlockPlan {
    /// Whether to ask for ABI V4 (network rules) rather than V3.
    pub abi_v4: bool,
    /// Whether TCP connections are handled (and so denied unless allowed).
    pub connect_tcp: bool,
    /// Paths that may be read.
    pub read: Vec<String>,
    /// Paths that may be read and written.
    pub write: Vec<String>,
    /// The one port that TCP connections may go to.
    pub port: Option<u16>,
}

/// How to confine the command.
#[derive(Debug)]
pub enum SandboxPlan {
    /// The sandbox is off: run the command as it is.
    Off,
    /// Restrict the process with these Landlock rules.
    Landlock(LandlockPlan),
    /// Enter this Seatbelt profile.
    Seatbelt(String),
    /// The platform has no kernel sandbox: print this and go on.
    Unsupported(String),
}

/// The warning on a platform without a kernel sandbox.
pub open spec fn unsupported_text(proxied: bool) -> Seq<char> {
    if proxied {
        "[shim] warning: kernel sandbox not available on this platform. Network filtering will be proxy-only (no kernel enforcement)."@
    } else {
        "[shim] sandbox not supported on this platform"@
    }
}

/// Decides how to confine the command run under the sandbox settings
/// `config` on `platform`, with the filtering proxy on `proxy_port` if one
/// runs: nothing when the sandbox is off; on Linux, Landlock with read rules
/// for the readable paths, full rules for the writable ones and, with a
/// proxy, TCP only to the proxy (ABI V4); on macOS, the Seatbelt profile;
/// elsewhere, a warning.
pub fn apply_sandbox(config: &SandboxConfig, proxy_port: Option<u16>, platform: Platform) -> (r:
    SandboxPlan)
    ensures
        !config.enabled ==> r is Off,
        config.enabled && platform == Platform::Linux ==> (r matches SandboxPlan::Landlock(p)
            && p.abi_v4 == proxy_port is Some && p.connect_tcp == proxy_port is Some
            && p.read.deep_view() == config@.read && p.write.deep_view() == config@.write
            && p.port == proxy_port),
        config.enabled && platform == Platform::MacOs ==> (r matches SandboxPlan::Seatbelt(s)
            && s@ == seatbelt_profile(config@, proxy_port)),
        config.enabled && platform == Platform::Other ==> (r matches SandboxPlan::Unsupported(s)
            && s@ == unsupported_text(proxy_port is Some)),
{
    if !config.enabled {
        return SandboxPlan::Off;
    }
    match platform {
        Platform::Linux => SandboxPlan::Landlock(
            LandlockPlan {
                abi_v4: proxy_port.is_some(),
                connect_tcp: proxy_port.is_some(),
                read: clone_strings(&config.read),
                write: clone_strings(&config.write),
                port: proxy_port,
            },
        ),
        Platform::MacOs => SandboxPlan::Seatbelt(build_seatbelt_profile(config, proxy_port)),
        Platform::Other => {
            let t = if proxy_port.is_some() {
                chars_of(
                    "[shim] warning: kernel sandbox not available on this platform. Network filtering will be proxy-only (no kernel enforcement).",
                )
            } else {
                chars_of("[shim] sandbox not supported on this platform")
            };
            SandboxPlan::Unsupported(string_of(&t))
        },
    }
}

/// How far Landlock enforced the rules.
#[derive(Debug, Clone, Copy, PartialEq, Eq, Structural)]
pub enum Enforcement {
    Full,
    Partial,
    NotEnforced,
}

/// The warning to print after Landlock restricted the process: none without
/// a proxy or when fully enforced, else that filtering is left to the proxy.
pub fn landlock_warning(status: Enforcement, proxied: bool) -> (r: Option<String>)
    ensures
        !proxied ==> r is None,
        proxied && status == Enforcement::Full ==> r is None,
        proxied && status == Enforcement::Partial ==> (r matches Some(s) && s@
            == "[shim] warning: kernel does not fully support network sandboxing (ABI V4+). Network filtering will be proxy-only (no kernel enforcement). Upgrade to Linux 5.19+ for TCP network sandboxing."@),
        proxied && status == Enforcement::NotEnforced ==> (r matches Some(s) && s@
            == "[shim] warning: Landlock not available on this kernel. Network filtering will be proxy-only (no kernel enforcement)."@),
{
    if !proxied {
        return None;
    }
    match status {
        Enforcement::Full => None,
        Enforcement::Partial => Some(
            string_of(
                &chars_of(
                    "[shim] warning: kernel does not fully support network sandboxing (ABI V4+). Network filtering will be proxy-only (no kernel enforcement). Upgrade to Linux 5.19+ for TCP network sandboxing.",
                ),
            ),
        ),
        Enforcement::NotEnforced => Some(
            string_of(
                &chars_of(
                    "[shim] warning: Landlock not available on this kernel. Network filtering will be proxy-only (no kernel enforcement).",
                ),
            ),
        ),
    }
}

// ---------------------------------------------------------------------------
// What the Seatbelt profile allows
// ---------------------------------------------------------------------------

proof fn lemma_read_rules_concat(a: Seq<Seq<char>>, b: Seq<Seq<char>>)
    ensures
        read_rules(a + b) == read_rules(a) + read_rules(b),
    decreases b.len(),
{
    if b.len() == 0 {
        assert(a + b =~= a);
        assert(read_rules(a) + Seq::<char>::empty() =~= read_rules(a));
    } else {
        lemma_read_rules_concat(a, b.drop_last());
        assert((a + b).drop_last() =~= a + b.drop_last());
        assert((a + b).last() == b.last());
    }
}

proof fn lemma_write_rules_concat(a: Seq<Seq<char>>, b: Seq<Seq<char>>)
    ensures
        write_rules(a + b) == write_rules(a) + write_rules(b),
    decreases b.len(),
{
    if b.len() == 0 {
        assert(a + b =~= a);
        assert(write_rules(a) + Seq::<char>::empty() =~= write_rules(a));
    } else {
        lemma_write_rules_concat(a, b.drop_last());
        assert((a + b).drop_last() =~= a + b.drop_last());
        assert((a + b).last() == b.last());
    }
}

/// The read rules of `s`: those before `s[k]`, its own, those after it.
proof fn lemma_read_rules_split(s: Seq<Seq<char>>, k: int)
    requires
        0 <= k < s.len(),
    ensures
        read_rules(s) == read_rules(s.take(k)) + allow_rule("file-read*"@, s[k]) + read_rules(
            s.skip(k + 1),
        ),
{
    assert(s =~= s.take(k) + seq![s[k]] + s.skip(k + 1));
    lemma_read_rules_concat(s.take(k) + seq![s[k]], s.skip(k + 1));
    lemma_read_rules_concat(s.take(k), seq![s[k]]);
    assert(seq![s[k]].drop_last() =~= Seq::<Seq<char>>::empty());
    assert(seq![s[k]].last() == s[k]);
    assert(read_rules(Seq::<Seq<char>>::empty()) == Seq::<char>::empty());
    assert(read_rules(seq![s[k]]) =~= allow_rule("file-read*"@, s[k]));
}

/// The write rules of `s`: those before `s[k]`, its own, those after it.
proof fn lemma_write_rules_split(s: Seq<Seq<char>>, k: int)
    requires
        0 <= k < s.len(),
    ensures
        write_rules(s) == write_rules(s.take(k)) + allow_rule("file-read*"@, s[k]) + allow_rule(
            "file-write*"@,
            s[k],
        ) + write_rules(s.skip(k + 1)),
{
    assert(s =~= s.take(k) + seq![s[k]] + s.skip(k + 1));
    lemma_write_rules_concat(s.take(k) + seq![s[k]], s.skip(k + 1));
    lemma_write_rules_concat(s.take(k), seq![s[k]]);
    assert(seq![s[k]].drop_last() =~= Seq::<Seq<char>>::empty());
    assert(seq![s[k]].last() == s[k]);
    assert(write_rules(Seq::<Seq<char>>::empty()) == Seq::<char>::empty());
    assert(write_rules(seq![s[k]]) =~= allow_rule("file-read*"@, s[k]) + allow_rule(
        "file-write*"@,
        s[k],
    ));
}

/// Every readable path of the settings gets its `file-read*` rule in the
/// profile, and a later path's rule comes after an earlier one's.
#[verifier::rlimit(60)]
pub proof fn lemma_seatbelt_reads(c: SandboxView, proxy_port: Option<u16>, i: int, j: int)
    requires
        0 <= i < c.read.len(),
        i < j < c.read.len() || j == i,
    ensures
        exists|pre: Seq<char>, post: Seq<char>|
            seatbelt_profile(c, proxy_port) == pre + allow_rule("file-read*"@, c.read[i]) + post,
        j > i ==> exists|pre: Seq<char>, mid: Seq<char>, post: Seq<char>|
            seatbelt_profile(c, proxy_port) == pre + allow_rule("file-read*"@, c.read[i]) + mid
                + allow_rule("file-read*"@, c.read[j]) + post,
{
    let head = "(\n(version 1)\n(deny default)\n"@;
    let rest = write_rules(c.write) + net_rules(c.net, proxy_port) + seq![')'];
    let r = c.read;
    lemma_read_rules_split(r, i);
    let pre = head + read_rules(r.take(i));
    let post = read_rules(r.skip(i + 1)) + rest;
    assert(seatbelt_profile(c, proxy_port) =~= pre + allow_rule("file-read*"@, r[i]) + post);
    if j > i {
        let t = r.skip(i + 1);
        lemma_read_rules_split(t, j - i - 1);
        assert(t[j - i - 1] == r[j]);
        let mid = read_rules(t.take(j - i - 1));
        let post2 = read_rules(t.skip(j - i)) + rest;
        assert(seatbelt_profile(c, proxy_port) =~= pre + allow_rule("file-read*"@, r[i]) + mid
            + allow_rule("file-read*"@, r[j]) + post2);
    }
}

/// Every writable path of the settings gets its `file-read*` and
/// `file-write*` rules in the profile, and a later path's rules come after
/// an earlier one's.
#[verifier::rlimit(60)]
pub proof fn lemma_seatbelt_writes(c: SandboxView, proxy_port: Option<u16>, i: int, j: int)
    requires
        0 <= i < c.write.len(),
        i < j < c.write.len() || j == i,
    ensures
        exists|pre: Seq<char>, post: Seq<char>|
            seatbelt_profile(c, proxy_port) == pre + allow_rule("file-read*"@, c.write[i])
                + allow_rule("file-write*"@, c.write[i]) + post,
        j > i ==> exists|pre: Seq<char>, mid: Seq<char>, post: Seq<char>|
            seatbelt_profile(c, proxy_port) == pre + allow_rule("file-read*"@, c.write[i])
                + allow_rule("file-write*"@, c.write[i]) + mid + allow_rule(
                "file-read*"@,
                c.write[j],
            ) + allow_rule("file-write*"@, c.write[j]) + post,
{
    let head = "(\n(version 1)\n(deny default)\n"@ + read_rules(c.read);
    let rest = net_rules(c.net, proxy_port) + seq![')'];
    let w = c.write;
    lemma_write_rules_split(w, i);
    let ri = allow_rule("file-read*"@, w[i]);
    let wi = allow_rule("file-write*"@, w[i]);
    let pre = head + write_rules(w.take(i));
    let post = write_rules(w.skip(i + 1)) + rest;
    assert(seatbelt_profile(c, proxy_port) =~= pre + ri + wi + post);
    if j > i {
        let t = w.skip(i + 1);
        lemma_write_rules_split(t, j - i - 1);
        assert(t[j - i - 1] == w[j]);
        let mid = write_rules(t.take(j - i - 1));
        let post2 = write_rules(t.skip(j - i)) + rest;
        assert(seatbelt_profile(c, proxy_port) =~= pre + ri + wi + mid + allow_rule(
            "file-read*"@,
            w[j],
        ) + allow_rule("file-write*"@, w[j]) + post2);
    }
}

/// With a proxy, the profile lets the command reach the proxy's port on the
/// local host over TCP, and any host over UDP; without one, it allows any TCP
/// connection when domains are allowed.
pub proof fn lemma_seatbelt_network(c: SandboxView, proxy_port: Option<u16>)
    ensures
        proxy_port is Some ==> exists|pre: Seq<char>, post: Seq<char>|
            seatbelt_profile(c, proxy_port) == pre
                + "  (allow network-outbound (remote ip \"127.0.0.1:"@ + dec(
                proxy_port->0 as nat,
            ) + "\"))\n"@ + "  (allow network-outbound (remote udp))\n"@ + post,
        proxy_port is None && c.net.len() > 0 ==> exists|pre: Seq<char>, post: Seq<char>|
            seatbelt_profile(c, proxy_port) == pre + "  (allow network* (remote tcp))\n"@ + post,
{
    let pre = "(\n(version 1)\n(deny default)\n"@ + read_rules(c.read) + write_rules(c.write);
    let close = seq![')'];
    match proxy_port {
        Some(port) => {
            assert(seatbelt_profile(c, proxy_port) =~= pre
                + "  (allow network-outbound (remote ip \"127.0.0.1:"@ + dec(port as nat)
                + "\"))\n"@ + "  (allow network-outbound (remote udp))\n"@ + close);
        },
        None => {
            if c.net.len() > 0 {
                assert(seatbelt_profile(c, proxy_port) =~= pre
                    + "  (allow network* (remote tcp))\n"@ + close);
            }
        },
    }
}

} // verus!
