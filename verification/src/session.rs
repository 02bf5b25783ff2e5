//! The shim's side of a session: what it does with each message the client
//! sends, as a state machine. The caller performs the file work and the
//! replies that the actions ask for.
use vstd::prelude::*;

use crate::ext::{b64_decode, b64_encode, base64_encode, rsync_signature, sha256};
use crate::num::hex;
use crate::protocol::{Message, MessageView, SandboxConfig};
use crate::shim::{
    apply_delta, apply_delta_spec, compute_signature, decode_upload, validate_path, validate_spec,
    PathFacts,
};
use crate::text::{chars_of, push_str, string_of};

verus! {

/// A copy of a list of strings.
pub fn clone_strings(v: &Vec<String>) -> (r: Vec<String>)
    ensures
        r.deep_view() == v.deep_view(),
{
    let mut out: Vec<String> = Vec::new();
    let mut i: usize = 0;
    while i < v.len()
        invariant
            i <= v.len(),
            out.deep_view() == v.deep_view().take(i as int),
        decreases v.len() - i,
    {
        let s = v[i].clone();
        out.push(s);
        assert(v.deep_view().take(i + 1) == v.deep_view().take(i as int).push(v@[i as int]@));
        i = i + 1;
    }
    assert(v.deep_view().take(v.len() as int) == v.deep_view());
    out
}

/// A copy of a sandbox configuration.
pub fn copy_config(c: &SandboxConfig) -> (r: SandboxConfig)
    ensures
        r@ == c@,
{
    SandboxConfig {
        enabled: c.enabled,
        workdir: c.workdir.clone(),
        write: clone_strings(&c.write),
        read: clone_strings(&c.read),
        net: clone_strings(&c.net),
    }
}

/// The file work a message asks for, once its path has been checked.
#[derive(Debug)]
pub enum FileOp {
    /// Store the base64 `data` as the file.
    Upload { data: String },
    /// Remove the file or directory.
    Delete,
    /// Answer with the signature of the file.
    Signature,
    /// Rebuild the file from the base64 `delta`, checked against `sha256`.
    Delta { delta: String, sha256: String },
}

/// What the shim does next.
#[derive(Debug)]
pub enum ShimAction {
    /// Send this reply.
    Reply(Message),
    /// List the files under `workdir`, one `FILE` each, then `END_LIST`.
    List { workdir: String },
    /// Check `path` under `workdir` (see [`file_step`]), then do `op`.
    File { workdir: String, path: String, op: FileOp },
    /// Apply `sandbox` when there is one, then run `command` and exit with
    /// its status.
    Run { command: String, sandbox: Option<SandboxConfig> },
    /// Answer an error that names the unexpected message.
    Unexpected(Message),
    /// Stop the session with this error.
    Fail(String),
}

/// The shim's session state: the sandbox settings and the working
/// directory, once the client has sent them.
pub struct ShimState {
    pub sandbox: SandboxConfig,
    pub workdir: Option<String>,
}

/// The fatal error of a file message that comes before any `SANDBOX`.
pub open spec fn no_workdir(a: ShimAction) -> bool {
    a matches ShimAction::Fail(e) && e@ == "no workdir set"@
}

/// The action on a file message for `path` with operation `op`.
pub open spec fn file_action(workdir: Option<String>, a: ShimAction, path: Seq<char>, op: spec_fn(
    FileOp,
) -> bool) -> bool {
    match workdir {
        None => no_workdir(a),
        Some(w) => a matches ShimAction::File { workdir: aw, path: ap, op: aop } && aw@ == w@
            && ap@ == path && op(aop),
    }
}

/// How the shim answers message `m` in state `old`, moving to `new`.
pub open spec fn step_spec(old: ShimState, m: MessageView, new: ShimState, a: ShimAction) -> bool {
    match m {
        MessageView::Sandbox { config } => new.workdir matches Some(w) && w@ == config.workdir
            && new.sandbox@ == config && a matches ShimAction::Reply(Message::Okay),
        _ => new == old && match m {
            MessageView::List => match old.workdir {
                None => no_workdir(a),
                Some(w) => a matches ShimAction::List { workdir } && workdir@ == w@,
            },
            MessageView::Skip { .. } => a matches ShimAction::Reply(Message::Okay),
            MessageView::EndSync => a matches ShimAction::Reply(Message::Okay),
            MessageView::EndSigsRequest => a matches ShimAction::Reply(Message::EndSigs),
            MessageView::Data { path, data } => file_action(
                old.workdir,
                a,
                path,
                |op: FileOp| op matches FileOp::Upload { data: d } && d@ == data,
            ),
            MessageView::Delete { path } => file_action(
                old.workdir,
                a,
                path,
                |op: FileOp| op is Delete,
            ),
            MessageView::DeltaRequest { path } => file_action(
                old.workdir,
                a,
                path,
                |op: FileOp| op is Signature,
            ),
            MessageView::Delta { path, delta, sha256 } => file_action(
                old.workdir,
                a,
                path,
                |op: FileOp|
                    op matches FileOp::Delta { delta: d, sha256: h } && d@ == delta && h@
                        == sha256,
            ),
            MessageView::Run { command } => a matches ShimAction::Run { command: c, sandbox }
                && c@ == command && if old.sandbox.enabled {
                sandbox matches Some(s) && s@ == old.sandbox@
            } else {
                sandbox is None
            },
            _ => a matches ShimAction::Unexpected(u) && u@ == m,
        },
    }
}

fn fail_no_workdir() -> (a: ShimAction)
    ensures
        no_workdir(a),
{
    ShimAction::Fail(string_of(&chars_of("no workdir set")))
}

impl ShimState {
    /// The working directory, once set, is the one of the sandbox settings.
    pub open spec fn wf(&self) -> bool {
        self.workdir matches Some(w) ==> w@ == self.sandbox.workdir@
    }

    /// The state of a new session: default sandbox settings, no working
    /// directory.
    pub fn new() -> (s: ShimState)
        ensures
            s.workdir is None,
            !s.sandbox.enabled,
            s.sandbox@.workdir.len() == 0,
            s.sandbox@.write.len() == 0,
            s.sandbox@.read.len() == 0,
            s.sandbox@.net.len() == 0,
            s.wf(),
    {
        ShimState {
            sandbox: SandboxConfig {
                enabled: false,
                workdir: String::new(),
                write: Vec::new(),
                read: Vec::new(),
                net: Vec::new(),
            },
            workdir: None,
        }
    }

    /// Takes in one message of the client. `SANDBOX` sets the settings and
    /// the working directory; file messages need the working directory and
    /// name a path to be checked; `RUN` hands over to the command; other
    /// messages from the client's side are acknowledged; messages that only
    /// the shim sends are unexpected.
    pub fn step(&mut self, msg: Message) -> (a: ShimAction)
        requires
            old(self).wf(),
        ensures
            step_spec(*old(self), msg@, *final(self), a),
            final(self).wf(),
    {
        match msg {
            Message::List => match &self.workdir {
                None => fail_no_workdir(),
                Some(w) => ShimAction::List { workdir: w.clone() },
            },
            Message::Sandbox { enabled, workdir, write, read, net } => {
                self.workdir = Some(workdir.clone());
                self.sandbox = SandboxConfig { enabled, workdir, write, read, net };
                ShimAction::Reply(Message::Okay)
            },
            Message::Skip { .. } => ShimAction::Reply(Message::Okay),
            Message::Data { path, data } => match &self.workdir {
                None => fail_no_workdir(),
                Some(w) => ShimAction::File {
                    workdir: w.clone(),
                    path,
                    op: FileOp::Upload { data },
                },
            },
            Message::Delete { path } => match &self.workdir {
                None => fail_no_workdir(),
                Some(w) => ShimAction::File { workdir: w.clone(), path, op: FileOp::Delete },
            },
            Message::DeltaRequest { path } => match &self.workdir {
                None => fail_no_workdir(),
                Some(w) => ShimAction::File { workdir: w.clone(), path, op: FileOp::Signature },
            },
            Message::EndSigsRequest => ShimAction::Reply(Message::EndSigs),
            Message::Delta { path, delta, sha256 } => match &self.workdir {
                None => fail_no_workdir(),
                Some(w) => ShimAction::File {
                    workdir: w.clone(),
                    path,
                    op: FileOp::Delta { delta, sha256 },
                },
            },
            Message::EndSync => ShimAction::Reply(Message::Okay),
            Message::Run { command } => {
                let sandbox = if self.sandbox.enabled {
                    Some(copy_config(&self.sandbox))
                } else {
                    None
                };
                ShimAction::Run { command, sandbox }
            },
            other => ShimAction::Unexpected(other),
        }
    }
}

/// The file work to do once a path has been checked.
#[derive(Debug)]
pub enum FileAction {
    /// Write `bytes` as the file at `full` (making its directories), then
    /// answer `OK`; when that fails, answer `ERROR` with why.
    Write { full: String, bytes: Vec<u8> },
    /// Remove the file or directory at `full` if it exists, then answer `OK`;
    /// when that fails, answer `ERROR` with why.
    Remove { full: String },
    /// Read the file at `full` and answer with [`signature_reply`] for `path`;
    /// when it cannot be read, answer `ERROR` with why.
    Sign { full: String, path: String },
    /// Read the file at `full` and answer with [`delta_outcome`] for `path`,
    /// or with [`unreadable_for_delta`] when it cannot be read.
    Patch { full: String, path: String, delta: String, sha256: String },
    /// Send this reply (an `ERROR`) and go on serving.
    Reply(Message),
}

/// The file work for `op` on `path`: the path must pass `validate_path`, an
/// upload must decode.
pub open spec fn file_step_spec(
    workdir: Seq<char>,
    path: Seq<char>,
    facts: PathFacts,
    op: FileOp,
    a: FileAction,
) -> bool {
    match validate_spec(workdir, path, facts) {
        Err(e) => a matches FileAction::Reply(m) && m@ == (MessageView::Error { msg: e }),
        Ok(full) => match op {
            FileOp::Upload { data } => match b64_decode(data@) {
                Ok(bytes) => a matches FileAction::Write { full: f, bytes: b } && f@ == full && b@
                    == bytes,
                Err(e) => a matches FileAction::Reply(m) && m@ == (MessageView::Error {
                    msg: "base64 decode: "@ + e,
                }),
            },
            FileOp::Delete => a matches FileAction::Remove { full: f } && f@ == full,
            FileOp::Signature => a matches FileAction::Sign { full: f, path: p } && f@ == full
                && p@ == path,
            FileOp::Delta { delta, sha256 } => a matches FileAction::Patch {
                full: f,
                path: p,
                delta: d,
                sha256: h,
            } && f@ == full && p@ == path && d@ == delta@ && h@ == sha256@,
        },
    }
}

/// Checks the path of a file message against what the file system says of
/// it, and turns the operation into the file work to do.
pub fn file_step(workdir: &str, path: String, facts: &PathFacts, op: FileOp) -> (a: FileAction)
    ensures
        file_step_spec(workdir@, path@, *facts, op, a),
        validate_spec(workdir@, path@, *facts) is Ok ==> (op matches FileOp::Upload { data }
            ==> forall|b: Seq<u8>|
            #[trigger] b64_encode(b) == data@ ==> (a matches FileAction::Write { bytes, .. }
                && bytes@ == b)),
{
    let full = match validate_path(workdir, path.as_str(), facts) {
        Err(e) => return FileAction::Reply(Message::Error(e)),
        Ok(f) => f,
    };
    match op {
        FileOp::Upload { data } => match decode_upload(data.as_str()) {
            Ok(bytes) => FileAction::Write { full, bytes },
            Err(e) => FileAction::Reply(Message::Error(e)),
        },
        FileOp::Delete => FileAction::Remove { full },
        FileOp::Signature => FileAction::Sign { full, path },
        FileOp::Delta { delta, sha256 } => FileAction::Patch { full, path, delta, sha256 },
    }
}

/// The `SIG` reply for a file: its signature in base64.
pub fn signature_reply(path: String, data: &[u8]) -> (m: Message)
    requires
        data@.len() <= usize::MAX / 64,
    ensures
        m@ == (MessageView::Sig {
            path: path@,
            sig: b64_encode(rsync_signature(data@, 4096, 16)),
        }),
{
    let sig = compute_signature(data);
    assert(sig@.len() <= usize::MAX / 4) by (nonlinear_arith)
        requires
            sig@.len() == 12 + (data@.len() + 4095) / 4096 * 20,
            data@.len() <= usize::MAX / 64,
    ;
    let text = base64_encode(&sig);
    Message::Sig { path, sig: text }
}

/// What becomes of a delta: the rebuilt data to store (then `OK`), or the
/// error reply that asks the client for a full upload.
#[derive(Debug)]
pub enum DeltaOutcome {
    Store(Vec<u8>),
    Reply(Message),
}

/// Applies a delta to the old content of a file; a failure is answered with
/// an error that asks for a full upload.
pub fn delta_outcome(old_data: &[u8], delta: &str, sha256: &str) -> (r: DeltaOutcome)
    ensures
        match apply_delta_spec(old_data@, delta@, sha256@) {
            Ok(new) => r matches DeltaOutcome::Store(v) && v@ == new,
            Err(e) => r matches DeltaOutcome::Reply(m) && m@ == (MessageView::Error {
                msg: "delta failed: "@ + e + ", need full upload"@,
            }),
        },
{
    match apply_delta(old_data, delta, sha256) {
        Ok(v) => DeltaOutcome::Store(v),
        Err(e) => {
            let mut t = chars_of("delta failed: ");
            push_str(&mut t, e.as_str());
            push_str(&mut t, ", need full upload");
            DeltaOutcome::Reply(Message::Error(string_of(&t)))
        },
    }
}

/// A file rebuilt from a delta that carries the SHA-256 of the client's
/// file has that same SHA-256.
pub proof fn lemma_delta_integrity(old: Seq<u8>, delta_b64: Seq<char>, local: Seq<u8>)
    requires
        apply_delta_spec(old, delta_b64, hex(sha256(local))) is Ok,
    ensures
        hex(sha256(apply_delta_spec(old, delta_b64, hex(sha256(local)))->Ok_0)) == hex(
            sha256(local),
        ),
{
}

/// The reply when the file a delta is for cannot be read.
pub fn unreadable_for_delta(path: &str) -> (m: Message)
    ensures
        m@ == (MessageView::Error { msg: "cannot read "@ + path@ + " for delta, need full upload"@ }),
{
    let mut t = chars_of("cannot read ");
    push_str(&mut t, path);
    push_str(&mut t, " for delta, need full upload");
    Message::Error(string_of(&t))
}

} // verus!
