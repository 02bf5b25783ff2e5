//! The text messages that the client and the shim exchange, and the sandbox
//! settings that one of them carries.
use vstd::prelude::*;

use crate::num::{
    dec, dec_of, int_error_message, int_error_text, parse_uint, parse_unsigned, IntErrorKind,
};
use crate::text::{
    chars_eq_str, chars_of, find, find_char, find_pattern, find_sub, has_prefix, join,
    lemma_find_sub_facts, lemma_join_push, push_all, push_str, rfind, rfind_char, slice,
    split_once, split_once_char, split_whitespace, starts_with, string_of, ws_tokens,
};

verus! {

/// Sandbox settings sent to the shim: whether to sandbox, the working
/// directory, writable and readable paths, and allowed network domains.
#[derive(Debug, Clone, Default)]
pub struct SandboxConfig {
    pub enabled: bool,
    pub workdir: String,
    pub write: Vec<String>,
    pub read: Vec<String>,
    pub net: Vec<String>,
}

/// The mathematical value of a [`SandboxConfig`].
#[verifier::ext_equal]
pub struct SandboxView {
    pub enabled: bool,
    pub workdir: Seq<char>,
    pub write: Seq<Seq<char>>,
    pub read: Seq<Seq<char>>,
    pub net: Seq<Seq<char>>,
}

impl View for SandboxConfig {
    type V = SandboxView;

    open spec fn view(&self) -> SandboxView {
        SandboxView {
            enabled: self.enabled,
            workdir: self.workdir@,
            write: self.write.deep_view(),
            read: self.read.deep_view(),
            net: self.net.deep_view(),
        }
    }
}

/// A protocol message.
#[derive(Debug, Clone)]
pub enum Message {
    Handshake { version: String, os: String, arch: String },
    List,
    File { path: String, size: u64, mtime: u64 },
    EndList,
    Skip { path: String },
    Delete { path: String },
    DeltaRequest { path: String },
    EndSigsRequest,
    Sig { path: String, sig: String },
    EndSigs,
    Delta { path: String, delta: String, sha256: String },
    Data { path: String, data: String },
    EndSync,
    Sandbox { enabled: bool, workdir: String, write: Vec<String>, read: Vec<String>, net: Vec<String> },
    Run { command: String },
    Error(String),
    Okay,
}

/// The mathematical value of a [`Message`].
#[verifier::ext_equal]
pub enum MessageView {
    Handshake { version: Seq<char>, os: Seq<char>, arch: Seq<char> },
    List,
    File { path: Seq<char>, size: u64, mtime: u64 },
    EndList,
    Skip { path: Seq<char> },
    Delete { path: Seq<char> },
    DeltaRequest { path: Seq<char> },
    EndSigsRequest,
    Sig { path: Seq<char>, sig: Seq<char> },
    EndSigs,
    Delta { path: Seq<char>, delta: Seq<char>, sha256: Seq<char> },
    Data { path: Seq<char>, data: Seq<char> },
    EndSync,
    Sandbox { config: SandboxView },
    Run { command: Seq<char> },
    Error { msg: Seq<char> },
    Okay,
}

impl View for Message {
    type V = MessageView;

    open spec fn view(&self) -> MessageView {
        match self {
            Message::Handshake { version, os, arch } => MessageView::Handshake {
                version: version@,
                os: os@,
                arch: arch@,
            },
            Message::List => MessageView::List,
            Message::File { path, size, mtime } => MessageView::File {
                path: path@,
                size: *size,
                mtime: *mtime,
            },
            Message::EndList => MessageView::EndList,
            Message::Skip { path } => MessageView::Skip { path: path@ },
            Message::Delete { path } => MessageView::Delete { path: path@ },
            Message::DeltaRequest { path } => MessageView::DeltaRequest { path: path@ },
            Message::EndSigsRequest => MessageView::EndSigsRequest,
            Message::Sig { path, sig } => MessageView::Sig { path: path@, sig: sig@ },
            Message::EndSigs => MessageView::EndSigs,
            Message::Delta { path, delta, sha256 } => MessageView::Delta {
                path: path@,
                delta: delta@,
                sha256: sha256@,
            },
            Message::Data { path, data } => MessageView::Data { path: path@, data: data@ },
            Message::EndSync => MessageView::EndSync,
            Message::Sandbox { enabled, workdir, write, read, net } => MessageView::Sandbox {
                config: SandboxView {
                    enabled: *enabled,
                    workdir: workdir@,
                    write: write.deep_view(),
                    read: read.deep_view(),
                    net: net.deep_view(),
                },
            },
            Message::Run { command } => MessageView::Run { command: command@ },
            Message::Error(msg) => MessageView::Error { msg: msg@ },
            Message::Okay => MessageView::Okay,
        }
    }
}

// ---------------------------------------------------------------------------
// Encoding
// ---------------------------------------------------------------------------

pub open spec fn sp() -> Seq<char> {
    seq![' ']
}

/// The separator between the path part and the network part of a sandbox line.
pub open spec fn net_sep() -> Seq<char> {
    seq![' ', '-', '-', ' ']
}

pub open spec fn dashes() -> Seq<char> {
    seq!['-', '-']
}

/// The space-separated items of an encoded sandbox configuration.
pub open spec fn sandbox_items(c: SandboxView) -> Seq<Seq<char>> {
    seq![
        if c.enabled {
            seq!['1']
        } else {
            seq!['0']
        },
        c.workdir,
    ] + c.write.map_values(|p: Seq<char>| "write:"@ + p) + c.read.map_values(
        |p: Seq<char>| "read:"@ + p,
    ) + if c.net.len() > 0 {
        seq![dashes()] + c.net
    } else {
        Seq::empty()
    }
}

/// `SandboxConfig::encode`: the items joined by single spaces.
pub open spec fn encode_sandbox(c: SandboxView) -> Seq<char> {
    join(sandbox_items(c), sp())
}

/// `Message::encode`: the type word, then the fields separated by spaces.
pub open spec fn encode_message(m: MessageView) -> Seq<char> {
    match m {
        MessageView::Handshake { version, os, arch } => "HANDSHAKE"@ + sp() + version + sp() + os
            + sp() + arch,
        MessageView::List => "LIST"@,
        MessageView::File { path, size, mtime } => "FILE"@ + sp() + path + sp() + dec(
            size as nat,
        ) + sp() + dec(mtime as nat),
        MessageView::EndList => "END_LIST"@,
        MessageView::Skip { path } => "SKIP"@ + sp() + path,
        MessageView::Delete { path } => "DELETE"@ + sp() + path,
        MessageView::DeltaRequest { path } => "DELTA_REQUEST"@ + sp() + path,
        MessageView::EndSigsRequest => "END_SIGS_REQUEST"@,
        MessageView::Sig { path, sig } => "SIG"@ + sp() + path + sp() + sig,
        MessageView::EndSigs => "END_SIGS"@,
        MessageView::Delta { path, delta, sha256 } => "DELTA"@ + sp() + path + sp() + delta + sp()
            + sha256,
        MessageView::Data { path, data } => "DATA"@ + sp() + path + sp() + data,
        MessageView::EndSync => "END_SYNC"@,
        MessageView::Sandbox { config } => "SANDBOX"@ + sp() + encode_sandbox(config),
        MessageView::Run { command } => "RUN"@ + sp() + command,
        MessageView::Error { msg } => "ERROR"@ + sp() + msg,
        MessageView::Okay => "OK"@,
    }
}

// ---------------------------------------------------------------------------
// Decoding
// ---------------------------------------------------------------------------

/// The first two parts of `s` split at `" -- "` (what `split(" -- ")` yields
/// first and second): the text before the first separator, and the text
/// between it and the next one (or the end), if there is a first one.
pub open spec fn split_net(s: Seq<char>) -> (Seq<char>, Option<Seq<char>>) {
    match find_sub(s, net_sep()) {
        None => (s, None),
        Some(i) => {
            let r = s.skip(i + 4);
            (
                s.take(i),
                Some(
                    match find_sub(r, net_sep()) {
                        None => r,
                        Some(j) => r.take(j),
                    },
                ),
            )
        },
    }
}

/// The tokens that start with `pre`, in order, with `pre` removed.
pub open spec fn strip_all(toks: Seq<Seq<char>>, pre: Seq<char>) -> Seq<Seq<char>>
    decreases toks.len(),
{
    if toks.len() == 0 {
        Seq::empty()
    } else {
        let r = strip_all(toks.drop_last(), pre);
        if has_prefix(toks.last(), pre) {
            r.push(toks.last().skip(pre.len() as int))
        } else {
            r
        }
    }
}

/// `SandboxConfig::decode`.
pub open spec fn decode_sandbox(s: Seq<char>) -> Result<SandboxView, Seq<char>> {
    let (before, after) = split_net(s);
    let toks = ws_tokens(before);
    let net = match after {
        Some(a) => ws_tokens(a),
        None => Seq::empty(),
    };
    if toks.len() == 0 {
        Err("missing SANDBOX enabled"@)
    } else if toks.len() == 1 {
        Err("missing SANDBOX workdir"@)
    } else {
        Ok(
            SandboxView {
                enabled: toks[0] == seq!['1'],
                workdir: toks[1],
                write: strip_all(toks.skip(2), "write:"@),
                read: strip_all(toks.skip(2), "read:"@),
                net,
            },
        )
    }
}

/// `rest` split at its last space, or the error `err` when it has none.
pub open spec fn split_last(rest: Seq<char>, err: Seq<char>) -> Result<
    (Seq<char>, Seq<char>),
    Seq<char>,
> {
    match rfind_char(rest, ' ') {
        Some(l) => Ok((rest.take(l), rest.skip(l + 1))),
        None => Err(err),
    }
}

pub open spec fn decode_handshake(rest: Seq<char>) -> Result<MessageView, Seq<char>> {
    match find_char(rest, ' ') {
        None => Err("invalid HANDSHAKE"@),
        Some(i) => {
            let r2 = rest.skip(i + 1);
            match find_char(r2, ' ') {
                None => Err("invalid HANDSHAKE"@),
                Some(j) => Ok(
                    MessageView::Handshake {
                        version: rest.take(i),
                        os: r2.take(j),
                        arch: r2.skip(j + 1),
                    },
                ),
            }
        },
    }
}

pub open spec fn decode_file(rest: Seq<char>) -> Result<MessageView, Seq<char>> {
    match split_last(rest, "invalid FILE"@) {
        Err(e) => Err(e),
        Ok((before, mtime_s)) => match split_last(before, "invalid FILE"@) {
            Err(e) => Err(e),
            Ok((path, size_s)) => match parse_uint(size_s, u64::MAX as nat) {
                Err(e) => Err("bad size: "@ + int_error_text(e)),
                Ok(size) => match parse_uint(mtime_s, u64::MAX as nat) {
                    Err(e) => Err("bad mtime: "@ + int_error_text(e)),
                    Ok(mtime) => Ok(
                        MessageView::File { path, size: size as u64, mtime: mtime as u64 },
                    ),
                },
            },
        },
    }
}

pub open spec fn decode_sig(rest: Seq<char>) -> Result<MessageView, Seq<char>> {
    match split_last(rest, "invalid SIG"@) {
        Err(e) => Err(e),
        Ok((path, sig)) => Ok(MessageView::Sig { path, sig }),
    }
}

pub open spec fn decode_delta(rest: Seq<char>) -> Result<MessageView, Seq<char>> {
    match split_last(rest, "invalid DELTA"@) {
        Err(e) => Err(e),
        Ok((before, sha256)) => match split_last(before, "invalid DELTA"@) {
            Err(e) => Err(e),
            Ok((path, delta)) => Ok(MessageView::Delta { path, delta, sha256 }),
        },
    }
}

pub open spec fn decode_data(rest: Seq<char>) -> Result<MessageView, Seq<char>> {
    match split_last(rest, "invalid DATA"@) {
        Err(e) => Err(e),
        Ok((path, data)) => Ok(MessageView::Data { path, data }),
    }
}

/// `Message::decode`: the type word is the text before the first space.
pub open spec fn decode_message(s: Seq<char>) -> Result<MessageView, Seq<char>> {
    let (t, rest) = split_once(s, ' ');
    if t == "HANDSHAKE"@ {
        decode_handshake(rest)
    } else if t == "LIST"@ {
        Ok(MessageView::List)
    } else if t == "FILE"@ {
        decode_file(rest)
    } else if t == "END_LIST"@ {
        Ok(MessageView::EndList)
    } else if t == "SKIP"@ {
        Ok(MessageView::Skip { path: rest })
    } else if t == "DELETE"@ {
        Ok(MessageView::Delete { path: rest })
    } else if t == "DELTA_REQUEST"@ {
        Ok(MessageView::DeltaRequest { path: rest })
    } else if t == "END_SIGS_REQUEST"@ {
        Ok(MessageView::EndSigsRequest)
    } else if t == "SIG"@ {
        decode_sig(rest)
    } else if t == "END_SIGS"@ {
        Ok(MessageView::EndSigs)
    } else if t == "DELTA"@ {
        decode_delta(rest)
    } else if t == "DATA"@ {
        decode_data(rest)
    } else if t == "END_SYNC"@ {
        Ok(MessageView::EndSync)
    } else if t == "SANDBOX"@ {
        match decode_sandbox(rest) {
            Ok(config) => Ok(MessageView::Sandbox { config }),
            Err(e) => Err(e),
        }
    } else if t == "RUN"@ {
        Ok(MessageView::Run { command: rest })
    } else if t == "ERROR"@ {
        Ok(MessageView::Error { msg: rest })
    } else if t == "OK"@ {
        Ok(MessageView::Okay)
    } else {
        Err("unknown message type: "@ + t)
    }
}

// ---------------------------------------------------------------------------
// Executable code
// ---------------------------------------------------------------------------

/// Appends `' '` and then `item` to `out`, growing the joined list by one item.
fn push_item(out: &mut Vec<char>, item: &[char], Ghost(items): Ghost<Seq<Seq<char>>>)
    requires
        items.len() > 0,
        old(out)@ == join(items, sp()),
    ensures
        final(out)@ == join(items.push(item@), sp()),
{
    out.push(' ');
    push_all(out, item);
    proof {
        lemma_join_push(items, item@, sp());
    }
}

/// The one-line text form of a sandbox configuration given by its parts.
fn encode_sandbox_parts(
    enabled: bool,
    workdir: &String,
    write: &Vec<String>,
    read: &Vec<String>,
    net: &Vec<String>,
) -> (r: String)
    ensures
        r@ == encode_sandbox(
            SandboxView {
                enabled,
                workdir: workdir@,
                write: write.deep_view(),
                read: read.deep_view(),
                net: net.deep_view(),
            },
        ),
{
    let ghost c = SandboxView {
        enabled,
        workdir: workdir@,
        write: write.deep_view(),
        read: read.deep_view(),
        net: net.deep_view(),
    };
    {
        let mut out: Vec<char> = Vec::new();
        if enabled {
            out.push('1');
        } else {
            out.push('0');
        }
        let ghost mut items: Seq<Seq<char>> = seq![out@];
        let wd = chars_of(workdir.as_str());
        push_item(&mut out, &wd, Ghost(items));
        proof {
            items = items.push(wd@);
        }
        let ghost head = items;
        let ghost wf = |p: Seq<char>| "write:"@ + p;
        let ghost rf = |p: Seq<char>| "read:"@ + p;
        let mut i: usize = 0;
        while i < write.len()
            invariant
                i <= write.len(),
                head.len() == 2,
                items == head + c.write.take(i as int).map_values(wf),
                c.write == write.deep_view(),
                c.write.len() == write.len(),
                out@ == join(items, sp()),
                wf == (|p: Seq<char>| "write:"@ + p),
            decreases write.len() - i,
        {
            let mut item = chars_of("write:");
            push_str(&mut item, write[i].as_str());
            push_item(&mut out, &item, Ghost(items));
            proof {
                assert(c.write[i as int] == write[i as int]@);
                assert(c.write.take(i + 1).map_values(wf) == c.write.take(
                    i as int,
                ).map_values(wf).push(wf(c.write[i as int])));
                items = items.push(item@);
            }
            i = i + 1;
        }
        assert(c.write.take(write.len() as int) == c.write);
        let ghost mid = items;
        let mut i: usize = 0;
        while i < read.len()
            invariant
                i <= read.len(),
                mid.len() >= 2,
                items == mid + c.read.take(i as int).map_values(rf),
                c.read == read.deep_view(),
                c.read.len() == read.len(),
                out@ == join(items, sp()),
                rf == (|p: Seq<char>| "read:"@ + p),
            decreases read.len() - i,
        {
            let mut item = chars_of("read:");
            push_str(&mut item, read[i].as_str());
            push_item(&mut out, &item, Ghost(items));
            proof {
                assert(c.read[i as int] == read[i as int]@);
                assert(c.read.take(i + 1).map_values(rf) == c.read.take(
                    i as int,
                ).map_values(rf).push(rf(c.read[i as int])));
                items = items.push(item@);
            }
            i = i + 1;
        }
        assert(c.read.take(read.len() as int) == c.read);
        if net.len() > 0 {
            let dd: Vec<char> = vec!['-', '-'];
            push_item(&mut out, &dd, Ghost(items));
            proof {
                items = items.push(dashes());
            }
            let ghost mid2 = items;
            let mut i: usize = 0;
            while i < net.len()
                invariant
                    i <= net.len(),
                    mid2.len() >= 2,
                    items == mid2 + c.net.take(i as int),
                    c.net == net.deep_view(),
                    c.net.len() == net.len(),
                    out@ == join(items, sp()),
                decreases net.len() - i,
            {
                let item = chars_of(net[i].as_str());
                push_item(&mut out, &item, Ghost(items));
                proof {
                    assert(c.net[i as int] == net[i as int]@);
                    assert(c.net.take(i + 1) == c.net.take(i as int).push(
                        c.net[i as int],
                    ));
                    items = items.push(item@);
                }
                i = i + 1;
            }
            assert(c.net.take(net.len() as int) == c.net);
            assert(items =~= sandbox_items(c));
        } else {
            assert(items =~= sandbox_items(c));
        }
        string_of(&out)
    }
}

impl SandboxConfig {
    /// The one-line text form of the configuration.
    pub fn encode(&self) -> (r: String)
        ensures
            r@ == encode_sandbox(self@),
    {
        encode_sandbox_parts(self.enabled, &self.workdir, &self.write, &self.read, &self.net)
    }
}

/// Appends a space and then `f`.
fn push_field(out: &mut Vec<char>, f: &str)
    ensures
        final(out)@ == old(out)@ + sp() + f@,
{
    out.push(' ');
    push_str(out, f);
}

impl Message {
    /// The text form of the message.
    pub fn encode(&self) -> (r: String)
        ensures
            r@ == encode_message(self@),
    {
        let mut out: Vec<char> = Vec::new();
        match self {
            Message::Handshake { version, os, arch } => {
                push_str(&mut out, "HANDSHAKE");
                push_field(&mut out, version.as_str());
                push_field(&mut out, os.as_str());
                push_field(&mut out, arch.as_str());
            },
            Message::List => {
                push_str(&mut out, "LIST");
            },
            Message::File { path, size, mtime } => {
                push_str(&mut out, "FILE");
                push_field(&mut out, path.as_str());
                out.push(' ');
                let d = dec_of(*size);
                push_all(&mut out, &d);
                out.push(' ');
                let d = dec_of(*mtime);
                push_all(&mut out, &d);
            },
            Message::EndList => {
                push_str(&mut out, "END_LIST");
            },
            Message::Skip { path } => {
                push_str(&mut out, "SKIP");
                push_field(&mut out, path.as_str());
            },
            Message::Delete { path } => {
                push_str(&mut out, "DELETE");
                push_field(&mut out, path.as_str());
            },
            Message::DeltaRequest { path } => {
                push_str(&mut out, "DELTA_REQUEST");
                push_field(&mut out, path.as_str());
            },
            Message::EndSigsRequest => {
                push_str(&mut out, "END_SIGS_REQUEST");
            },
            Message::Sig { path, sig } => {
                push_str(&mut out, "SIG");
                push_field(&mut out, path.as_str());
                push_field(&mut out, sig.as_str());
            },
            Message::EndSigs => {
                push_str(&mut out, "END_SIGS");
            },
            Message::Delta { path, delta, sha256 } => {
                push_str(&mut out, "DELTA");
                push_field(&mut out, path.as_str());
                push_field(&mut out, delta.as_str());
                push_field(&mut out, sha256.as_str());
            },
            Message::Data { path, data } => {
                push_str(&mut out, "DATA");
                push_field(&mut out, path.as_str());
                push_field(&mut out, data.as_str());
            },
            Message::EndSync => {
                push_str(&mut out, "END_SYNC");
            },
            Message::Sandbox { enabled, workdir, write, read, net } => {
                let c = encode_sandbox_parts(*enabled, workdir, write, read, net);
                push_str(&mut out, "SANDBOX");
                push_field(&mut out, c.as_str());
            },
            Message::Run { command } => {
                push_str(&mut out, "RUN");
                push_field(&mut out, command.as_str());
            },
            Message::Error(msg) => {
                push_str(&mut out, "ERROR");
                push_field(&mut out, msg.as_str());
            },
            Message::Okay => {
                push_str(&mut out, "OK");
            },
        }
        string_of(&out)
    }
}

// ---------------------------------------------------------------------------
// Decoding, executable
// ---------------------------------------------------------------------------

/// A `String` holding the text of `lit`.
fn owned(lit: &str) -> (r: String)
    ensures
        r@ == lit@,
{
    let v = chars_of(lit);
    string_of(&v)
}

/// The tokens from index `from` on that start with `pre`, with `pre` removed.
fn strip_tokens(toks: &Vec<Vec<char>>, from: usize, pre: &str) -> (r: Vec<String>)
    requires
        from <= toks.len(),
    ensures
        r.deep_view() == strip_all(
            toks@.map_values(|t: Vec<char>| t@).skip(from as int),
            pre@,
        ),
{
    let ghost tv = toks@.map_values(|t: Vec<char>| t@);
    let p = chars_of(pre);
    let mut r: Vec<String> = Vec::new();
    let mut i: usize = from;
    while i < toks.len()
        invariant
            from <= i <= toks.len(),
            tv == toks@.map_values(|t: Vec<char>| t@),
            p@ == pre@,
            r.deep_view() == strip_all(tv.subrange(from as int, i as int), pre@),
        decreases toks.len() - i,
    {
        let ghost sub = tv.subrange(from as int, i + 1);
        assert(sub.drop_last() == tv.subrange(from as int, i as int));
        assert(sub.last() == toks@[i as int]@);
        if starts_with(&toks[i], pre) {
            let rest = slice(&toks[i], p.len(), toks[i].len());
            let ghost old_r = r.deep_view();
            r.push(string_of(&rest));
            assert(r.deep_view() == old_r.push(rest@));
        }
        i = i + 1;
    }
    assert(tv.subrange(from as int, toks.len() as int) == tv.skip(from as int));
    r
}

/// Each token as a `String`.
fn strings_of(toks: &Vec<Vec<char>>) -> (r: Vec<String>)
    ensures
        r.deep_view() == toks@.map_values(|t: Vec<char>| t@),
{
    let mut r: Vec<String> = Vec::new();
    let mut i: usize = 0;
    while i < toks.len()
        invariant
            i <= toks.len(),
            r.deep_view() == toks@.map_values(|t: Vec<char>| t@).take(i as int),
        decreases toks.len() - i,
    {
        let ghost old_r = r.deep_view();
        r.push(string_of(&toks[i]));
        assert(r.deep_view() == old_r.push(toks@[i as int]@));
        assert(toks@.map_values(|t: Vec<char>| t@).take(i + 1) == toks@.map_values(
            |t: Vec<char>| t@,
        ).take(i as int).push(toks@[i as int]@));
        i = i + 1;
    }
    assert(toks@.map_values(|t: Vec<char>| t@).take(toks.len() as int) == toks@.map_values(
        |t: Vec<char>| t@,
    ));
    r
}

/// The two parts that `decode_sandbox` reads, as `split_net` describes them.
fn split_net_exec(cs: &Vec<char>) -> (r: (Vec<char>, Option<Vec<char>>))
    ensures
        split_net(cs@) == (r.0@, match r.1 {
            Some(a) => Some(a@),
            None => None::<Seq<char>>,
        }),
{
    let pat: Vec<char> = vec![' ', '-', '-', ' '];
    assert(pat@ == net_sep());
    match find_pattern(cs, &pat) {
        None => {
            let mut b: Vec<char> = Vec::new();
            push_all(&mut b, cs);
            (b, None)
        },
        Some(i) => {
            proof {
                lemma_find_sub_facts(cs@, net_sep());
            }
            assert(i + 4 <= cs.len());
            let r = slice(cs, i + 4, cs.len());
            assert(r@ == cs@.skip(i + 4));
            let second = match find_pattern(&r, &pat) {
                None => r,
                Some(j) => {
                    proof {
                        lemma_find_sub_facts(r@, net_sep());
                    }
                    let x = slice(&r, 0, j);
                    assert(x@ == r@.take(j as int));
                    x
                },
            };
            let first = slice(cs, 0, i);
            assert(first@ == cs@.take(i as int));
            (first, Some(second))
        },
    }
}

impl SandboxConfig {
    /// Reads a configuration back from its one-line text form.
    pub fn decode(s: &str) -> (r: Result<SandboxConfig, String>)
        ensures
            r matches Ok(c) ==> decode_sandbox(s@) == Ok::<SandboxView, Seq<char>>(c@),
            r matches Err(e) ==> decode_sandbox(s@) == Err::<SandboxView, Seq<char>>(e@),
    {
        let cs = chars_of(s);
        let (before, after) = split_net_exec(&cs);
        let toks = split_whitespace(&before);
        let ghost tv = toks@.map_values(|t: Vec<char>| t@);
        let ghost netv = match split_net(cs@).1 {
            Some(a) => ws_tokens(a),
            None => Seq::<Seq<char>>::empty(),
        };
        let net: Vec<String> = match after {
            Some(a) => {
                let nt = split_whitespace(&a);
                let n = strings_of(&nt);
                assert(n.deep_view() == netv);
                n
            },
            None => {
                let n: Vec<String> = Vec::new();
                assert(n.deep_view() =~= netv);
                n
            },
        };
        if toks.len() == 0 {
            return Err(owned("missing SANDBOX enabled"));
        }
        if toks.len() == 1 {
            return Err(owned("missing SANDBOX workdir"));
        }
        let enabled = toks[0].len() == 1 && toks[0][0] == '1';
        assert(tv[0] == toks@[0]@);
        if enabled {
            assert(tv[0] =~= seq!['1']);
        } else {
            assert(tv[0] != seq!['1']) by {
                if tv[0] == seq!['1'] {
                    assert(tv[0].len() == 1 && tv[0][0] == '1');
                }
            }
        }
        let workdir = string_of(&toks[1]);
        let write = strip_tokens(&toks, 2, "write:");
        let read = strip_tokens(&toks, 2, "read:");
        let c = SandboxConfig { enabled, workdir, write, read, net };
        assert(c@ =~= SandboxView {
            enabled: tv[0] == seq!['1'],
            workdir: tv[1],
            write: strip_all(tv.skip(2), "write:"@),
            read: strip_all(tv.skip(2), "read:"@),
            net: netv,
        });
        Ok(c)
    }
}

/// `rest` split at its last space, or `err` when it has none.
fn split_last_exec(rest: &Vec<char>, err: &str) -> (r: Result<(Vec<char>, Vec<char>), String>)
    ensures
        match r {
            Ok((a, b)) => split_last(rest@, err@) == Ok::<(Seq<char>, Seq<char>), Seq<char>>(
                (a@, b@),
            ),
            Err(e) => split_last(rest@, err@) == Err::<(Seq<char>, Seq<char>), Seq<char>>(e@),
        },
{
    match rfind(rest, ' ') {
        Some(l) => {
            let a = slice(rest, 0, l);
            let b = slice(rest, l + 1, rest.len());
            assert(a@ == rest@.take(l as int));
            assert(b@ == rest@.skip(l + 1));
            Ok((a, b))
        },
        None => Err(owned(err)),
    }
}

fn decode_handshake_exec(rest: &Vec<char>) -> (r: Result<Message, String>)
    ensures
        match r {
            Ok(m) => decode_handshake(rest@) == Ok::<MessageView, Seq<char>>(m@),
            Err(e) => decode_handshake(rest@) == Err::<MessageView, Seq<char>>(e@),
        },
{
    match find(rest, ' ') {
        None => Err(owned("invalid HANDSHAKE")),
        Some(i) => {
            let r2 = slice(rest, i + 1, rest.len());
            assert(r2@ == rest@.skip(i + 1));
            match find(&r2, ' ') {
                None => Err(owned("invalid HANDSHAKE")),
                Some(j) => {
                    let v = slice(rest, 0, i);
                    let o = slice(&r2, 0, j);
                    let a = slice(&r2, j + 1, r2.len());
                    assert(v@ == rest@.take(i as int));
                    assert(o@ == r2@.take(j as int));
                    assert(a@ == r2@.skip(j + 1));
                    Ok(
                        Message::Handshake {
                            version: string_of(&v),
                            os: string_of(&o),
                            arch: string_of(&a),
                        },
                    )
                },
            }
        },
    }
}

/// `prefix` followed by the display text of a parse error.
fn parse_error(prefix: &str, e: IntErrorKind) -> (r: String)
    ensures
        r@ == prefix@ + int_error_text(e),
{
    let mut v = chars_of(prefix);
    let m = int_error_message(e);
    push_all(&mut v, &m);
    string_of(&v)
}

fn decode_file_exec(rest: &Vec<char>) -> (r: Result<Message, String>)
    ensures
        match r {
            Ok(m) => decode_file(rest@) == Ok::<MessageView, Seq<char>>(m@),
            Err(e) => decode_file(rest@) == Err::<MessageView, Seq<char>>(e@),
        },
{
    let (before, mtime_s) = match split_last_exec(rest, "invalid FILE") {
        Ok(p) => p,
        Err(e) => {
            return Err(e);
        },
    };
    let (path, size_s) = match split_last_exec(&before, "invalid FILE") {
        Ok(p) => p,
        Err(e) => {
            return Err(e);
        },
    };
    let size = match parse_unsigned(&size_s, u64::MAX) {
        Ok(v) => v,
        Err(e) => {
            return Err(parse_error("bad size: ", e));
        },
    };
    let mtime = match parse_unsigned(&mtime_s, u64::MAX) {
        Ok(v) => v,
        Err(e) => {
            return Err(parse_error("bad mtime: ", e));
        },
    };
    Ok(Message::File { path: string_of(&path), size, mtime })
}

fn decode_sig_exec(rest: &Vec<char>) -> (r: Result<Message, String>)
    ensures
        match r {
            Ok(m) => decode_sig(rest@) == Ok::<MessageView, Seq<char>>(m@),
            Err(e) => decode_sig(rest@) == Err::<MessageView, Seq<char>>(e@),
        },
{
    match split_last_exec(rest, "invalid SIG") {
        Ok((p, s)) => Ok(Message::Sig { path: string_of(&p), sig: string_of(&s) }),
        Err(e) => Err(e),
    }
}

fn decode_delta_exec(rest: &Vec<char>) -> (r: Result<Message, String>)
    ensures
        match r {
            Ok(m) => decode_delta(rest@) == Ok::<MessageView, Seq<char>>(m@),
            Err(e) => decode_delta(rest@) == Err::<MessageView, Seq<char>>(e@),
        },
{
    let (before, sha) = match split_last_exec(rest, "invalid DELTA") {
        Ok(p) => p,
        Err(e) => {
            return Err(e);
        },
    };
    match split_last_exec(&before, "invalid DELTA") {
        Ok((p, d)) => Ok(
            Message::Delta { path: string_of(&p), delta: string_of(&d), sha256: string_of(&sha) },
        ),
        Err(e) => Err(e),
    }
}

fn decode_data_exec(rest: &Vec<char>) -> (r: Result<Message, String>)
    ensures
        match r {
            Ok(m) => decode_data(rest@) == Ok::<MessageView, Seq<char>>(m@),
            Err(e) => decode_data(rest@) == Err::<MessageView, Seq<char>>(e@),
        },
{
    match split_last_exec(rest, "invalid DATA") {
        Ok((p, d)) => Ok(Message::Data { path: string_of(&p), data: string_of(&d) }),
        Err(e) => Err(e),
    }
}

impl Message {
    /// Reads a message back from its text form.
    pub fn decode(s: &str) -> (r: Result<Message, String>)
        ensures
            r matches Ok(m) ==> decode_message(s@) == Ok::<MessageView, Seq<char>>(m@),
            r matches Err(e) ==> decode_message(s@) == Err::<MessageView, Seq<char>>(e@),
    {
        let cs = chars_of(s);
        let (t, rest) = split_once_char(&cs, ' ');
        if chars_eq_str(&t, "HANDSHAKE") {
            decode_handshake_exec(&rest)
        } else if chars_eq_str(&t, "LIST") {
            Ok(Message::List)
        } else if chars_eq_str(&t, "FILE") {
            decode_file_exec(&rest)
        } else if chars_eq_str(&t, "END_LIST") {
            Ok(Message::EndList)
        } else if chars_eq_str(&t, "SKIP") {
            Ok(Message::Skip { path: string_of(&rest) })
        } else if chars_eq_str(&t, "DELETE") {
            Ok(Message::Delete { path: string_of(&rest) })
        } else if chars_eq_str(&t, "DELTA_REQUEST") {
            Ok(Message::DeltaRequest { path: string_of(&rest) })
        } else if chars_eq_str(&t, "END_SIGS_REQUEST") {
            Ok(Message::EndSigsRequest)
        } else if chars_eq_str(&t, "SIG") {
            decode_sig_exec(&rest)
        } else if chars_eq_str(&t, "END_SIGS") {
            Ok(Message::EndSigs)
        } else if chars_eq_str(&t, "DELTA") {
            decode_delta_exec(&rest)
        } else if chars_eq_str(&t, "DATA") {
            decode_data_exec(&rest)
        } else if chars_eq_str(&t, "END_SYNC") {
            Ok(Message::EndSync)
        } else if chars_eq_str(&t, "SANDBOX") {
            let rs = string_of(&rest);
            match SandboxConfig::decode(rs.as_str()) {
                Ok(c) => Ok(
                    Message::Sandbox {
                        enabled: c.enabled,
                        workdir: c.workdir,
                        write: c.write,
                        read: c.read,
                        net: c.net,
                    },
                ),
                Err(e) => Err(e),
            }
        } else if chars_eq_str(&t, "RUN") {
            Ok(Message::Run { command: string_of(&rest) })
        } else if chars_eq_str(&t, "ERROR") {
            Ok(Message::Error(string_of(&rest)))
        } else if chars_eq_str(&t, "OK") {
            Ok(Message::Okay)
        } else {
            let mut e = chars_of("unknown message type: ");
            push_all(&mut e, &t);
            Err(string_of(&e))
        }
    }
}

} // verus!
