//! The client's side of a shim session: the sandbox settings it sends, how it
//! compares the two file listings, and the messages of the file transfer.
use vstd::prelude::*;

use crate::config::Config;
use crate::ext::{
    b64_decode, b64_encode, base64_decode, base64_encode, rsync_delta, rsync_diff, sha256,
    sha256_digest, sig_block_size,
};
use crate::num::{hex, hex_of};
use crate::protocol::{Message, MessageView, SandboxView};
use crate::sandbox::default_domains;
use crate::session::clone_strings;
use crate::shim::{excluded, should_exclude, RemoteFile};
use crate::text::{chars_eq, chars_of, push_str, string_of};

verus! {

// ---------------------------------------------------------------------------
// Sandbox settings
// ---------------------------------------------------------------------------

/// The `SANDBOX` message of a session whose sandbox is off: only the working
/// directory.
pub fn disabled_sandbox_message(remote_path: &str) -> (m: Message)
    ensures
        m@ == (MessageView::Sandbox {
            config: SandboxView {
                enabled: false,
                workdir: remote_path@,
                write: Seq::empty(),
                read: Seq::empty(),
                net: Seq::empty(),
            },
        }),
{
    let m = Message::Sandbox {
        enabled: false,
        workdir: string_of(&chars_of(remote_path)),
        write: Vec::new(),
        read: Vec::new(),
        net: Vec::new(),
    };
    assert(m@ matches MessageView::Sandbox { config } && config.write =~= Seq::<Seq<char>>::empty()
        && config.read =~= Seq::<Seq<char>>::empty() && config.net =~= Seq::<Seq<char>>::empty());
    m
}

/// The sandbox settings sent to the shim: off when the configuration turns
/// the sandbox off; else the cargo and rustup directories, the project and
/// `/tmp` writable, then the configured writable paths; the system headers
/// and helpers readable; the default domains, then the configured ones.
pub open spec fn sandbox_message_spec(config: Config, remote_path: Seq<char>, home: Seq<char>) -> MessageView {
    if !config.sandbox.enabled {
        MessageView::Sandbox {
            config: SandboxView {
                enabled: false,
                workdir: remote_path,
                write: Seq::empty(),
                read: Seq::empty(),
                net: Seq::empty(),
            },
        }
    } else {
        MessageView::Sandbox {
            config: SandboxView {
                enabled: true,
                workdir: remote_path,
                write: seq![home + "/.rustup"@, home + "/.cargo"@, remote_path, "/tmp"@]
                    + config.sandbox.allow.write.deep_view(),
                read: seq!["/usr/libexec"@, "/usr/include"@],
                net: default_domains() + config.sandbox.allow.net.deep_view(),
            },
        }
    }
}

fn append_strings(dst: &mut Vec<String>, src: &Vec<String>)
    ensures
        final(dst).deep_view() == old(dst).deep_view() + src.deep_view(),
{
    let c = clone_strings(src);
    let ghost before = dst.deep_view();
    let mut i: usize = 0;
    while i < c.len()
        invariant
            i <= c.len(),
            dst.deep_view() == before + c.deep_view().take(i as int),
        decreases c.len() - i,
    {
        let ghost prev = dst.deep_view();
        dst.push(c[i].clone());
        assert(dst.deep_view() == prev.push(c@[i as int]@));
        assert(c.deep_view().take(i + 1) == c.deep_view().take(i as int).push(c@[i as int]@));
        i = i + 1;
    }
    assert(c.deep_view().take(c.len() as int) == c.deep_view());
}

fn text(s: &str) -> (r: String)
    ensures
        r@ == s@,
{
    string_of(&chars_of(s))
}

/// The `SANDBOX` message for a session with the configured sandbox.
pub fn build_sandbox_message(config: &Config, remote_path: &str, home: &str) -> (m: Message)
    ensures
        m@ == sandbox_message_spec(*config, remote_path@, home@),
{
    if !config.sandbox.enabled {
        return disabled_sandbox_message(remote_path);
    }
    let mut rustup = chars_of(home);
    push_str(&mut rustup, "/.rustup");
    let mut cargo = chars_of(home);
    push_str(&mut cargo, "/.cargo");
    let mut write: Vec<String> = Vec::new();
    write.push(string_of(&rustup));
    write.push(string_of(&cargo));
    write.push(text(remote_path));
    write.push(text("/tmp"));
    append_strings(&mut write, &config.sandbox.allow.write);
    let mut read: Vec<String> = Vec::new();
    read.push(text("/usr/libexec"));
    read.push(text("/usr/include"));
    let mut net: Vec<String> = Vec::new();
    net.push(text("crates.io"));
    net.push(text("index.crates.io"));
    net.push(text("static.crates.io"));
    net.push(text("static.rust-lang.org"));
    net.push(text("github.com"));
    assert(net.deep_view() =~= default_domains());
    append_strings(&mut net, &config.sandbox.allow.net);
    let m = Message::Sandbox { enabled: true, workdir: text(remote_path), write, read, net };
    assert(m@ matches MessageView::Sandbox { config: c } && c.read =~= seq![
        "/usr/libexec"@,
        "/usr/include"@,
    ]);
    m
}

// ---------------------------------------------------------------------------
// Listings
// ---------------------------------------------------------------------------

/// Whether some entry of `files` has path `p`.
pub open spec fn has_path(files: Seq<RemoteFile>, p: Seq<char>) -> bool {
    exists|i: int| 0 <= i < files.len() && (#[trigger] files[i]).path@ == p
}

/// The size and modification time recorded for `p`: those of the last entry
/// with that path (later entries replace earlier ones).
pub open spec fn entry_of(files: Seq<RemoteFile>, p: Seq<char>) -> Option<(u64, u64)>
    decreases files.len(),
{
    if files.len() == 0 {
        None
    } else if files.last().path@ == p {
        Some((files.last().size, files.last().mtime))
    } else {
        entry_of(files.drop_last(), p)
    }
}

/// What the next message of a listing does.
#[derive(Debug)]
pub enum ListStep {
    /// A `FILE` was recorded; more follow.
    More,
    /// `END_LIST`: the listing is complete.
    Done,
    /// Any other message: the session fails, naming it.
    Unexpected(Message),
}

/// Takes in one message of the remote listing.
pub fn take_listing(files: &mut Vec<RemoteFile>, msg: Message) -> (r: ListStep)
    ensures
        match msg@ {
            MessageView::File { path, size, mtime } => r is More && final(files)@.len() == old(
                files,
            )@.len() + 1 && final(files)@.drop_last() == old(files)@ && final(files)@.last().path@
                == path && final(files)@.last().size == size && final(files)@.last().mtime == mtime,
            MessageView::EndList => r is Done && final(files)@ == old(files)@,
            _ => r matches ListStep::Unexpected(m) && m@ == msg@ && final(files)@ == old(files)@,
        },
{
    match msg {
        Message::File { path, size, mtime } => {
            files.push(RemoteFile { path, size, mtime });
            ListStep::More
        },
        Message::EndList => ListStep::Done,
        other => ListStep::Unexpected(other),
    }
}

/// How a local file compares with the remote listing.
#[derive(Debug, Clone, Copy, PartialEq, Eq, Structural)]
pub enum Disposition {
    /// Same size and modification time: skip it.
    Same,
    /// Present with another size or time: send a delta.
    Changed,
    /// Absent: upload it whole.
    New,
}

pub open spec fn disposition(remote: Seq<RemoteFile>, f: RemoteFile) -> Disposition {
    match entry_of(remote, f.path@) {
        Some((size, mtime)) => if size == f.size && mtime == f.mtime {
            Disposition::Same
        } else {
            Disposition::Changed
        },
        None => Disposition::New,
    }
}

/// Each local path once (at its last entry, whose size and time count), in
/// order, with how it compares with the remote listing.
pub open spec fn classify_spec(remote: Seq<RemoteFile>, local: Seq<RemoteFile>) -> Seq<
    (Seq<char>, Disposition),
>
    decreases local.len(),
{
    if local.len() == 0 {
        Seq::empty()
    } else {
        let rest = classify_spec(remote, local.drop_first());
        if has_path(local.drop_first(), local[0].path@) {
            rest
        } else {
            seq![(local[0].path@, disposition(remote, local[0]))] + rest
        }
    }
}

fn has_path_after(files: &Vec<RemoteFile>, i: usize) -> (r: bool)
    requires
        i < files.len(),
    ensures
        r == has_path(files@.skip(i + 1), files@[i as int].path@),
{
    let p = chars_of(files[i].path.as_str());
    let mut j: usize = i + 1;
    while j < files.len()
        invariant
            i < j <= files.len(),
            p@ == files@[i as int].path@,
            forall|k: int|
                i + 1 <= k < j ==> (#[trigger] files@[k]).path@ != files@[i as int].path@,
        decreases files.len() - j,
    {
        let q = chars_of(files[j].path.as_str());
        if chars_eq(&p, &q) {
            assert(files@.skip(i + 1)[j - i - 1] == files@[j as int]);
            return true;
        }
        j = j + 1;
    }
    assert forall|k: int| 0 <= k < files@.skip(i + 1).len() implies (#[trigger] files@.skip(
        i + 1,
    )[k]).path@ != files@[i as int].path@ by {
        assert(files@.skip(i + 1)[k] == files@[i + 1 + k]);
    }
    false
}

fn lookup_entry(files: &Vec<RemoteFile>, p: &str) -> (r: Option<(u64, u64)>)
    ensures
        r == entry_of(files@, p@),
{
    let pv = chars_of(p);
    let mut j: usize = files.len();
    assert(files@.take(j as int) == files@);
    while j > 0
        invariant
            j <= files.len(),
            pv@ == p@,
            entry_of(files@, p@) == entry_of(files@.take(j as int), p@),
        decreases j,
    {
        let q = chars_of(files[j - 1].path.as_str());
        assert(files@.take(j as int).last() == files@[j - 1]);
        assert(files@.take(j as int).drop_last() == files@.take(j - 1));
        if chars_eq(&pv, &q) {
            return Some((files[j - 1].size, files[j - 1].mtime));
        }
        j = j - 1;
    }
    None
}

/// The paths and dispositions of a comparison.
pub open spec fn plan_view(plan: Seq<(String, Disposition)>) -> Seq<(Seq<char>, Disposition)> {
    plan.map_values(|e: (String, Disposition)| (e.0@, e.1))
}

/// Compares the local files with the remote listing: each local path once,
/// in order, as unchanged, changed or new.
pub fn classify(remote: &Vec<RemoteFile>, local: &Vec<RemoteFile>) -> (r: Vec<(String, Disposition)>)
    ensures
        plan_view(r@) == classify_spec(remote@, local@),
{
    let ghost f = |e: (String, Disposition)| (e.0@, e.1);
    let mut out: Vec<(String, Disposition)> = Vec::new();
    let mut i: usize = 0;
    assert(local@.skip(0) == local@);
    assert(out@.map_values(f) + classify_spec(remote@, local@) == classify_spec(remote@, local@));
    while i < local.len()
        invariant
            i <= local.len(),
            f == (|e: (String, Disposition)| (e.0@, e.1)),
            out@.map_values(f) + classify_spec(remote@, local@.skip(i as int)) == classify_spec(
                remote@,
                local@,
            ),
        decreases local.len() - i,
    {
        let ghost rest = local@.skip(i as int);
        assert(rest.drop_first() == local@.skip(i + 1));
        assert(rest[0] == local@[i as int]);
        if !has_path_after(local, i) {
            let d = match lookup_entry(remote, local[i].path.as_str()) {
                Some((size, mtime)) => if size == local[i].size && mtime == local[i].mtime {
                    Disposition::Same
                } else {
                    Disposition::Changed
                },
                None => Disposition::New,
            };
            let ghost before = out@.map_values(f);
            out.push((local[i].path.clone(), d));
            assert(out@.map_values(f) == before.push(f(out@.last())));
            assert(seq![f(out@.last())] + classify_spec(remote@, local@.skip(i + 1))
                == classify_spec(remote@, rest));
            assert(before.push(f(out@.last())) + classify_spec(remote@, local@.skip(i + 1))
                == before + (seq![f(out@.last())] + classify_spec(remote@, local@.skip(i + 1))));
        }
        i = i + 1;
    }
    assert(local@.skip(local.len() as int) =~= Seq::<RemoteFile>::empty());
    assert(out@.map_values(f) + Seq::<(Seq<char>, Disposition)>::empty() == out@.map_values(f));
    out
}

/// The remote paths, each once, that no local file has and that are not
/// left out of listings: candidates for deletion (the caller also keeps the
/// ones that `.gitignore` matches).
pub open spec fn deletions_spec(remote: Seq<RemoteFile>, local: Seq<RemoteFile>) -> Seq<Seq<char>>
    decreases remote.len(),
{
    if remote.len() == 0 {
        Seq::empty()
    } else {
        let rest = deletions_spec(remote.drop_first(), local);
        let p = remote[0].path@;
        if has_path(remote.drop_first(), p) || has_path(local, p) || excluded(p) {
            rest
        } else {
            seq![p] + rest
        }
    }
}

fn has_path_in(files: &Vec<RemoteFile>, p: &str) -> (r: bool)
    ensures
        r == has_path(files@, p@),
{
    let pv = chars_of(p);
    let mut j: usize = 0;
    while j < files.len()
        invariant
            j <= files.len(),
            pv@ == p@,
            forall|k: int| 0 <= k < j ==> (#[trigger] files@[k]).path@ != p@,
        decreases files.len() - j,
    {
        let q = chars_of(files[j].path.as_str());
        if chars_eq(&pv, &q) {
            return true;
        }
        j = j + 1;
    }
    false
}

/// The remote paths to delete, before the `.gitignore` check.
pub fn deletions(remote: &Vec<RemoteFile>, local: &Vec<RemoteFile>) -> (r: Vec<String>)
    ensures
        r.deep_view() == deletions_spec(remote@, local@),
{
    let mut out: Vec<String> = Vec::new();
    let mut i: usize = 0;
    assert(remote@.skip(0) == remote@);
    assert(out.deep_view() + deletions_spec(remote@, local@) == deletions_spec(remote@, local@));
    while i < remote.len()
        invariant
            i <= remote.len(),
            out.deep_view() + deletions_spec(remote@.skip(i as int), local@) == deletions_spec(
                remote@,
                local@,
            ),
        decreases remote.len() - i,
    {
        let ghost rest = remote@.skip(i as int);
        assert(rest.drop_first() == remote@.skip(i + 1));
        assert(rest[0] == remote@[i as int]);
        if !has_path_after(remote, i) && !has_path_in(local, remote[i].path.as_str())
            && !should_exclude(remote[i].path.as_str()) {
            let ghost before = out.deep_view();
            out.push(remote[i].path.clone());
            assert(out.deep_view() == before.push(remote@[i as int].path@));
            assert(before.push(remote@[i as int].path@) + deletions_spec(remote@.skip(i + 1), local@)
                == before + (seq![remote@[i as int].path@] + deletions_spec(
                remote@.skip(i + 1),
                local@,
            )));
        }
        i = i + 1;
    }
    assert(remote@.skip(remote.len() as int) =~= Seq::<RemoteFile>::empty());
    assert(out.deep_view() + Seq::<Seq<char>>::empty() == out.deep_view());
    out
}

/// Every path the comparison reports is a local path; it is reported new
/// exactly when the remote listing lacks it, and unchanged only when the
/// remote listing has it with the same size and time as some local entry.
pub proof fn lemma_classify_sound(remote: Seq<RemoteFile>, local: Seq<RemoteFile>, i: int)
    requires
        0 <= i < classify_spec(remote, local).len(),
    ensures
        ({
            let (p, d) = classify_spec(remote, local)[i];
            &&& has_path(local, p)
            &&& (d == Disposition::New <==> entry_of(remote, p) is None)
            &&& (d == Disposition::Same ==> exists|j: int|
                0 <= j < local.len() && (#[trigger] local[j]).path@ == p && entry_of(remote, p)
                    == Some((local[j].size, local[j].mtime)))
        }),
    decreases local.len(),
{
    let rest = classify_spec(remote, local.drop_first());
    if has_path(local.drop_first(), local[0].path@) {
        lemma_classify_sound(remote, local.drop_first(), i);
        lemma_has_path_tail(local, classify_spec(remote, local)[i].0);
        lemma_same_tail(remote, local, classify_spec(remote, local)[i]);
    } else if i == 0 {
        assert(local[0].path@ == local[0].path@);
    } else {
        assert(classify_spec(remote, local)[i] == rest[i - 1]);
        lemma_classify_sound(remote, local.drop_first(), i - 1);
        lemma_has_path_tail(local, rest[i - 1].0);
        lemma_same_tail(remote, local, rest[i - 1]);
    }
}

proof fn lemma_has_path_tail(files: Seq<RemoteFile>, p: Seq<char>)
    requires
        files.len() > 0,
        has_path(files.drop_first(), p),
    ensures
        has_path(files, p),
{
    let j = choose|j: int| 0 <= j < files.drop_first().len() && (#[trigger] files.drop_first()[j]).path@ == p;
    assert(files[j + 1] == files.drop_first()[j]);
}

proof fn lemma_same_tail(remote: Seq<RemoteFile>, local: Seq<RemoteFile>, e: (Seq<char>, Disposition))
    requires
        local.len() > 0,
        e.1 == Disposition::Same ==> exists|j: int|
            0 <= j < local.drop_first().len() && (#[trigger] local.drop_first()[j]).path@ == e.0
                && entry_of(remote, e.0) == Some(
                (local.drop_first()[j].size, local.drop_first()[j].mtime),
            ),
    ensures
        e.1 == Disposition::Same ==> exists|j: int|
            0 <= j < local.len() && (#[trigger] local[j]).path@ == e.0 && entry_of(remote, e.0)
                == Some((local[j].size, local[j].mtime)),
{
    if e.1 == Disposition::Same {
        let j = choose|j: int|
            0 <= j < local.drop_first().len() && (#[trigger] local.drop_first()[j]).path@ == e.0
                && entry_of(remote, e.0) == Some(
                (local.drop_first()[j].size, local.drop_first()[j].mtime),
            );
        assert(local[j + 1] == local.drop_first()[j]);
    }
}

/// The comparison reports each local path at most once.
pub proof fn lemma_classify_once(remote: Seq<RemoteFile>, local: Seq<RemoteFile>, i: int, j: int)
    requires
        0 <= i < j < classify_spec(remote, local).len(),
    ensures
        classify_spec(remote, local)[i].0 != classify_spec(remote, local)[j].0,
    decreases local.len(),
{
    let rest = classify_spec(remote, local.drop_first());
    if has_path(local.drop_first(), local[0].path@) {
        lemma_classify_once(remote, local.drop_first(), i, j);
    } else if i == 0 {
        assert(classify_spec(remote, local)[j] == rest[j - 1]);
        lemma_classify_sound(remote, local.drop_first(), j - 1);
    } else {
        assert(classify_spec(remote, local)[i] == rest[i - 1]);
        assert(classify_spec(remote, local)[j] == rest[j - 1]);
        lemma_classify_once(remote, local.drop_first(), i - 1, j - 1);
    }
}

/// Every path proposed for deletion is in the remote listing, is not a
/// local path, and is not one that listings leave out.
pub proof fn lemma_deletions_sound(remote: Seq<RemoteFile>, local: Seq<RemoteFile>, i: int)
    requires
        0 <= i < deletions_spec(remote, local).len(),
    ensures
        has_path(remote, deletions_spec(remote, local)[i]),
        !has_path(local, deletions_spec(remote, local)[i]),
        !excluded(deletions_spec(remote, local)[i]),
    decreases remote.len(),
{
    let rest = deletions_spec(remote.drop_first(), local);
    let p = remote[0].path@;
    if has_path(remote.drop_first(), p) || has_path(local, p) || excluded(p) {
        lemma_deletions_sound(remote.drop_first(), local, i);
        lemma_has_path_tail(remote, rest[i]);
    } else if i == 0 {
        assert(remote[0].path@ == p);
    } else {
        assert(deletions_spec(remote, local)[i] == rest[i - 1]);
        lemma_deletions_sound(remote.drop_first(), local, i - 1);
        lemma_has_path_tail(remote, rest[i - 1]);
    }
}

/// No path is proposed for deletion twice.
pub proof fn lemma_deletions_once(remote: Seq<RemoteFile>, local: Seq<RemoteFile>, i: int, j: int)
    requires
        0 <= i < j < deletions_spec(remote, local).len(),
    ensures
        deletions_spec(remote, local)[i] != deletions_spec(remote, local)[j],
    decreases remote.len(),
{
    let rest = deletions_spec(remote.drop_first(), local);
    let p = remote[0].path@;
    if has_path(remote.drop_first(), p) || has_path(local, p) || excluded(p) {
        lemma_deletions_once(remote.drop_first(), local, i, j);
    } else if i == 0 {
        assert(deletions_spec(remote, local)[j] == rest[j - 1]);
        lemma_deletions_sound(remote.drop_first(), local, j - 1);
    } else {
        assert(deletions_spec(remote, local)[i] == rest[i - 1]);
        assert(deletions_spec(remote, local)[j] == rest[j - 1]);
        lemma_deletions_once(remote.drop_first(), local, i - 1, j - 1);
    }
}

/// Every remote path that no local file has and that listings do not leave
/// out is proposed for deletion.
pub proof fn lemma_deletions_complete(remote: Seq<RemoteFile>, local: Seq<RemoteFile>, j: int)
    requires
        0 <= j < remote.len(),
        !has_path(local, remote[j].path@),
        !excluded(remote[j].path@),
    ensures
        deletions_spec(remote, local).contains(remote[j].path@),
    decreases remote.len(),
{
    let t = remote.drop_first();
    let rest = deletions_spec(t, local);
    let p = remote[j].path@;
    let q = remote[0].path@;
    let out = deletions_spec(remote, local);
    if j == 0 && !has_path(t, p) {
        assert(out[0] == p);
    } else {
        let k: int = if j == 0 {
            choose|k: int| 0 <= k < t.len() && (#[trigger] t[k]).path@ == p
        } else {
            j - 1
        };
        assert(t[k].path@ == p);
        lemma_deletions_complete(t, local, k);
        let i = choose|i: int| 0 <= i < rest.len() && rest[i] == p;
        if has_path(t, q) || has_path(local, q) || excluded(q) {
            assert(out[i] == p);
        } else {
            assert(out[i + 1] == rest[i]);
        }
    }
}

/// A path has a recorded entry exactly when some entry has that path.
proof fn lemma_entry_of_some(files: Seq<RemoteFile>, p: Seq<char>)
    ensures
        entry_of(files, p) is Some <==> has_path(files, p),
    decreases files.len(),
{
    if files.len() > 0 {
        let t = files.drop_last();
        lemma_entry_of_some(t, p);
        if has_path(t, p) {
            let j = choose|j: int| 0 <= j < t.len() && (#[trigger] t[j]).path@ == p;
            assert(files[j] == t[j]);
        }
        if has_path(files, p) && files.last().path@ != p {
            let j = choose|j: int| 0 <= j < files.len() && (#[trigger] files[j]).path@ == p;
            assert(j < files.len() - 1);
            assert(t[j] == files[j]);
        }
        if files.last().path@ == p {
            assert(files[files.len() - 1] == files.last());
        }
    }
}

/// The entry recorded for `p` in a listing that starts with `files[0]`: that
/// of the rest when the rest has `p`, else that of `files[0]` when it is `p`.
proof fn lemma_entry_of_first(files: Seq<RemoteFile>, p: Seq<char>)
    requires
        files.len() > 0,
    ensures
        entry_of(files, p) == if has_path(files.drop_first(), p) {
            entry_of(files.drop_first(), p)
        } else if files[0].path@ == p {
            Some((files[0].size, files[0].mtime))
        } else {
            None::<(u64, u64)>
        },
    decreases files.len(),
{
    let t = files.drop_first();
    lemma_entry_of_some(t, p);
    if files.len() == 1 {
        assert(files.last() == files[0]);
        assert(files.drop_last() =~= Seq::<RemoteFile>::empty());
        assert(t =~= Seq::<RemoteFile>::empty());
    } else {
        assert(files.last() == t.last());
        assert(t.last() == t[t.len() - 1]);
        if files.last().path@ != p {
            let d = files.drop_last();
            assert(d.drop_first() =~= t.drop_last());
            assert(d[0] == files[0]);
            lemma_entry_of_first(d, p);
            lemma_entry_of_some(t.drop_last(), p);
            if has_path(t.drop_last(), p) {
                let j = choose|j: int| 0 <= j < t.drop_last().len() && (#[trigger] t.drop_last()[j]).path@ == p;
                assert(t[j] == t.drop_last()[j]);
            }
            if has_path(t, p) {
                let j = choose|j: int| 0 <= j < t.len() && (#[trigger] t[j]).path@ == p;
                assert(j < t.len() - 1);
                assert(t.drop_last()[j] == t[j]);
            }
        }
    }
}

/// Each reported path is a local path, and how it is reported is decided by
/// the entry the listings record for it (the last one with that path): the
/// path is unchanged exactly when the remote listing records the same size
/// and time as the local files do, changed exactly when it records others,
/// and new exactly when it records none.
pub proof fn lemma_classify_exact(remote: Seq<RemoteFile>, local: Seq<RemoteFile>, i: int)
    requires
        0 <= i < classify_spec(remote, local).len(),
    ensures
        ({
            let (p, d) = classify_spec(remote, local)[i];
            &&& entry_of(local, p) is Some
            &&& (d == Disposition::Same <==> entry_of(remote, p) is Some && entry_of(remote, p)
                == entry_of(local, p))
            &&& (d == Disposition::Changed <==> entry_of(remote, p) is Some && entry_of(remote, p)
                != entry_of(local, p))
            &&& (d == Disposition::New <==> entry_of(remote, p) is None)
        }),
    decreases local.len(),
{
    let t = local.drop_first();
    let rest = classify_spec(remote, t);
    let e = classify_spec(remote, local)[i];
    if has_path(t, local[0].path@) {
        lemma_classify_exact(remote, t, i);
    } else if i == 0 {
        assert(e == (local[0].path@, disposition(remote, local[0])));
    } else {
        assert(e == rest[i - 1]);
        lemma_classify_exact(remote, t, i - 1);
    }
    lemma_entry_of_first(local, e.0);
    lemma_entry_of_some(t, e.0);
}

/// Every local path is reported.
pub proof fn lemma_classify_complete(remote: Seq<RemoteFile>, local: Seq<RemoteFile>, j: int)
    requires
        0 <= j < local.len(),
    ensures
        exists|i: int|
            0 <= i < classify_spec(remote, local).len() && (#[trigger] classify_spec(remote, local)[i]).0
                == local[j].path@,
    decreases local.len(),
{
    let t = local.drop_first();
    let rest = classify_spec(remote, t);
    let out = classify_spec(remote, local);
    let p = local[j].path@;
    if j == 0 && !has_path(t, p) {
        assert(out[0].0 == p);
    } else {
        let k: int = if j == 0 {
            choose|k: int| 0 <= k < t.len() && (#[trigger] t[k]).path@ == p
        } else {
            j - 1
        };
        assert(t[k].path@ == p);
        lemma_classify_complete(remote, t, k);
        let i = choose|i: int| 0 <= i < rest.len() && (#[trigger] rest[i]).0 == t[k].path@;
        if has_path(t, local[0].path@) {
            assert(out[i].0 == p);
        } else {
            assert(out[i + 1] == rest[i]);
            assert(out[i + 1].0 == p);
        }
    }
}

// ---------------------------------------------------------------------------
// Transfers
// ---------------------------------------------------------------------------

/// The `DATA` message that uploads a file whole, in base64.
pub fn upload_message(path: String, data: &[u8]) -> (m: Message)
    requires
        data@.len() <= usize::MAX / 4,
    ensures
        m@ == (MessageView::Data { path: path@, data: b64_encode(data@) }),
{
    let text = base64_encode(data);
    Message::Data { path, data: text }
}

/// The signatures received so far, by path; a later one for a path replaces
/// an earlier one.
pub open spec fn sig_of(sigs: Seq<(String, String)>, p: Seq<char>) -> Option<Seq<char>>
    decreases sigs.len(),
{
    if sigs.len() == 0 {
        None
    } else if sigs.last().0@ == p {
        Some(sigs.last().1@)
    } else {
        sig_of(sigs.drop_last(), p)
    }
}

/// What the next message of the signature phase does.
#[derive(Debug)]
pub enum SigStep {
    More,
    Done,
    Unexpected(Message),
}

/// Takes in one message of the signature phase.
pub fn take_signature(sigs: &mut Vec<(String, String)>, msg: Message) -> (r: SigStep)
    ensures
        match msg@ {
            MessageView::Sig { path, sig } => r is More && final(sigs)@.len() == old(sigs)@.len()
                + 1 && final(sigs)@.drop_last() == old(sigs)@ && final(sigs)@.last().0@ == path
                && final(sigs)@.last().1@ == sig,
            MessageView::EndSigs => r is Done && final(sigs)@ == old(sigs)@,
            _ => r matches SigStep::Unexpected(m) && m@ == msg@ && final(sigs)@ == old(sigs)@,
        },
{
    match msg {
        Message::Sig { path, sig } => {
            sigs.push((path, sig));
            SigStep::More
        },
        Message::EndSigs => SigStep::Done,
        other => SigStep::Unexpected(other),
    }
}

/// The signature received for `path`, if any.
pub fn signature_for(sigs: &Vec<(String, String)>, path: &str) -> (r: Option<String>)
    ensures
        match sig_of(sigs@, path@) {
            Some(s) => r matches Some(t) && t@ == s,
            None => r is None,
        },
{
    let pv = chars_of(path);
    let mut j: usize = sigs.len();
    assert(sigs@.take(j as int) == sigs@);
    while j > 0
        invariant
            j <= sigs.len(),
            pv@ == path@,
            sig_of(sigs@, path@) == sig_of(sigs@.take(j as int), path@),
        decreases j,
    {
        let q = chars_of(sigs[j - 1].0.as_str());
        assert(sigs@.take(j as int).last() == sigs@[j - 1]);
        assert(sigs@.take(j as int).drop_last() == sigs@.take(j - 1));
        if chars_eq(&pv, &q) {
            return Some(sigs[j - 1].1.clone());
        }
        j = j - 1;
    }
    None
}

/// The `DELTA` message for a file: the base64 delta and the SHA-256 of the
/// local data in lowercase hexadecimal.
pub fn encode_delta(path: String, delta: &[u8], local: &[u8]) -> (m: Message)
    requires
        delta@.len() <= usize::MAX / 4,
    ensures
        m@ == (MessageView::Delta {
            path: path@,
            delta: b64_encode(delta@),
            sha256: hex(sha256(local@)),
        }),
{
    let text = base64_encode(delta);
    let digest = sha256_digest(local);
    let h = hex_of(&digest);
    Message::Delta { path, delta: text, sha256: string_of(&h) }
}

/// The delta message for a file against the remote signature `sig_b64`:
/// `Some(Err(..))` for a signature that is not base64, that `fast_rsync`
/// refuses, or a delta computation that fails; `None` where the computation
/// would not return: a signature with a zero block size, data within 4 GiB of
/// the address space, or a delta too long to encode.
pub open spec fn delta_message_spec(path: Seq<char>, sig_b64: Seq<char>, local: Seq<u8>) -> Option<
    Result<MessageView, Seq<char>>,
> {
    match b64_decode(sig_b64) {
        Err(e) => Some(Err(e)),
        Ok(sig) => if sig_block_size(sig) == 0 || local.len() + 0x1_0000_0000 > usize::MAX {
            None
        } else {
            match rsync_delta(sig, local) {
                Err(None) => Some(Err("bad signature: invalid or unsupported signature"@)),
                Err(Some(e)) => Some(Err("diff error: "@ + e)),
                Ok(delta) => if delta.len() > usize::MAX / 4 {
                    None
                } else {
                    Some(
                        Ok(
                            MessageView::Delta {
                                path,
                                delta: b64_encode(delta),
                                sha256: hex(sha256(local)),
                            },
                        ),
                    )
                },
            }
        },
    }
}

/// The delta message for a file against the remote signature `sig_b64`, or
/// the error that ends the session (see [`delta_message_spec`]).
pub fn delta_message(path: String, sig_b64: &str, local: &[u8]) -> (r: Option<
    Result<Message, String>,
>)
    ensures
        match delta_message_spec(path@, sig_b64@, local@) {
            None => r is None,
            Some(Err(e)) => r matches Some(Err(t)) && t@ == e,
            Some(Ok(mv)) => r matches Some(Ok(m)) && m@ == mv,
        },
{
    let sig = match base64_decode(sig_b64) {
        Err(e) => return Some(Err(e)),
        Ok(s) => s,
    };
    if sig.len() >= 12 {
        let b: u64 = (sig[4] as u64) * 0x1000000 + (sig[5] as u64) * 0x10000 + (sig[6] as u64) * 0x100
            + (sig[7] as u64);
        if b == 0 {
            return None;
        }
    }
    if (local.len() as u128) + 0x1_0000_0000 > (usize::MAX as u128) {
        return None;
    }
    match rsync_diff(&sig, local) {
        Err(None) => Some(
            Err(string_of(&chars_of("bad signature: invalid or unsupported signature"))),
        ),
        Err(Some(e)) => {
            let mut t = chars_of("diff error: ");
            push_str(&mut t, e.as_str());
            Some(Err(string_of(&t)))
        },
        Ok(delta) => {
            if delta.len() > usize::MAX / 4 {
                return None;
            }
            Some(Ok(encode_delta(path, &delta, local)))
        },
    }
}

/// How the shim answered a `DELTA`.
#[derive(Debug)]
pub enum DeltaReply {
    /// `OK`: the file was rebuilt.
    Applied,
    /// An error: upload the file whole instead; the text says why.
    Resend(String),
    /// Anything else: the session fails, naming it.
    Unexpected(Message),
}

/// Reads the shim's answer to a `DELTA`.
pub fn delta_reply(msg: Message) -> (r: DeltaReply)
    ensures
        match msg@ {
            MessageView::Okay => r is Applied,
            MessageView::Error { msg: e } => r matches DeltaReply::Resend(t) && t@ == e,
            _ => r matches DeltaReply::Unexpected(m) && m@ == msg@,
        },
{
    match msg {
        Message::Okay => DeltaReply::Applied,
        Message::Error(e) => DeltaReply::Resend(e),
        other => DeltaReply::Unexpected(other),
    }
}

} // verus!
