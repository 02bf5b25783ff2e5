//! The shim that runs on the remote host: which paths it accepts, how it
//! answers each message of a session, and the file synchronisation work
//! (signatures, deltas, uploads) that it computes.
use vstd::prelude::*;

use crate::ext::{
    b64_decode, b64_encode, base64_decode, path_starts_with, path_within, rsync_apply, rsync_patch,
    rsync_sign, rsync_signature, sha256, sha256_digest,
};
use crate::num::{hex, hex_of};

use crate::text::{
    chars_eq, chars_eq_str, chars_of, push_all, push_str, split_char, split_on, string_of,
};

verus! {

// ---------------------------------------------------------------------------
// Paths
// ---------------------------------------------------------------------------

/// The `/`-separated components of a relative path.
pub open spec fn components(path: Seq<char>) -> Seq<Seq<char>> {
    split_char(path, '/')
}

/// The path has a `..` component.
pub open spec fn has_parent_ref(path: Seq<char>) -> bool {
    exists|i: int| 0 <= i < components(path).len() && #[trigger] components(path)[i] == ".."@
}

/// `Path::join` on Unix: an absolute `path` replaces `base`; otherwise `path`
/// is appended, behind a `/` unless `base` is empty or already ends with one.
pub open spec fn join_spec(base: Seq<char>, path: Seq<char>) -> Seq<char> {
    if path.len() > 0 && path[0] == '/' {
        path
    } else if base.len() == 0 || base.last() == '/' {
        base + path
    } else {
        base + seq!['/'] + path
    }
}

/// `Path::join` on Unix.
pub fn join_path(base: &str, path: &str) -> (r: String)
    ensures
        r@ == join_spec(base@, path@),
{
    let b = chars_of(base);
    let p = chars_of(path);
    if p.len() > 0 && p[0] == '/' {
        return string_of(&p);
    }
    let mut out = b;
    if out.len() > 0 && out[out.len() - 1] != '/' {
        out.push('/');
    }
    push_all(&mut out, &p);
    string_of(&out)
}

/// What the file system says of the path under check, gathered by the caller
/// for `join_path(workdir, path)`.
#[derive(Debug)]
pub struct PathFacts {
    /// The canonical form of the working directory, or why it has none.
    pub workdir_canonical: Result<String, String>,
    /// When the joined path exists (its metadata, links not followed, can be
    /// read): whether it is a symbolic link, and its canonical form or why it
    /// has none.
    pub target: Option<(bool, Result<String, String>)>,
    /// The parent of the joined path, when it has one: its display text,
    /// whether it exists, and its canonical form or why it has none.
    pub parent: Option<(String, bool, Result<String, String>)>,
}

/// The outcome of `validate_path` on the given file-system facts.
pub open spec fn validate_spec(workdir: Seq<char>, path: Seq<char>, facts: PathFacts) -> Result<
    Seq<char>,
    Seq<char>,
> {
    let full = join_spec(workdir, path);
    if has_parent_ref(path) {
        Err("path component '..' is not allowed in "@ + path)
    } else {
        match facts.workdir_canonical {
            Err(e) => Err("cannot resolve workdir: "@ + e@),
            Ok(cw) => match facts.target {
                Some((is_link, canonical)) => if is_link {
                    Err("symlink "@ + path + " is not allowed"@)
                } else {
                    match canonical {
                        Err(e) => Err("cannot resolve "@ + full + ": "@ + e@),
                        Ok(c) => if path_within(c@, cw@) {
                            Ok(full)
                        } else {
                            Err("path "@ + path + " escapes workdir"@)
                        },
                    }
                },
                None => match facts.parent {
                    Some((shown, exists, canonical)) => if exists {
                        match canonical {
                            Err(e) => Err("cannot resolve "@ + shown@ + ": "@ + e@),
                            Ok(c) => if path_within(c@, cw@) {
                                Ok(full)
                            } else {
                                Err("path "@ + path + " escapes workdir"@)
                            },
                        }
                    } else {
                        Ok(full)
                    },
                    None => Ok(full),
                },
            },
        }
    }
}

fn check_components(path: &str) -> (r: bool)
    ensures
        r == has_parent_ref(path@),
{
    let cs = chars_of(path);
    let parts = split_on(&cs, '/');
    let ghost v = parts@.map_values(|t: Vec<char>| t@);
    assert(v == components(path@));
    let mut i: usize = 0;
    while i < parts.len()
        invariant
            i <= parts.len(),
            v == parts@.map_values(|t: Vec<char>| t@),
            v == components(path@),
            forall|j: int| 0 <= j < i ==> v[j] != ".."@,
        decreases parts.len() - i,
    {
        assert(v[i as int] == parts@[i as int]@);
        if chars_eq_str(&parts[i], "..") {
            return true;
        }
        i = i + 1;
    }
    false
}

fn within_or_escape(canonical: &str, workdir_canonical: &str, path: &str, full: String) -> (r:
    Result<String, String>)
    ensures
        path_within(canonical@, workdir_canonical@) ==> (r matches Ok(f) && f@ == full@),
        !path_within(canonical@, workdir_canonical@) ==> (r matches Err(e) && e@ == "path "@
            + path@ + " escapes workdir"@),
{
    if path_starts_with(canonical, workdir_canonical) {
        Ok(full)
    } else {
        let mut e = chars_of("path ");
        push_str(&mut e, path);
        push_str(&mut e, " escapes workdir");
        Err(string_of(&e))
    }
}

fn cannot_resolve(what: &str, e: &str) -> (r: String)
    ensures
        r@ == "cannot resolve "@ + what@ + ": "@ + e@,
{
    let mut v = chars_of("cannot resolve ");
    push_str(&mut v, what);
    push_str(&mut v, ": ");
    push_str(&mut v, e);
    string_of(&v)
}

/// Checks a path sent by the client before any file is touched: no `..`
/// component, no symbolic link, and nothing that resolves outside the
/// working directory. Returns the joined path. `facts` are what the file
/// system says of `join_path(workdir, path)`.
pub fn validate_path(workdir: &str, path: &str, facts: &PathFacts) -> (r: Result<String, String>)
    ensures
        match r {
            Ok(f) => validate_spec(workdir@, path@, *facts) == Ok::<Seq<char>, Seq<char>>(f@),
            Err(e) => validate_spec(workdir@, path@, *facts) == Err::<Seq<char>, Seq<char>>(e@),
        },
{
    if check_components(path) {
        let mut e = chars_of("path component '..' is not allowed in ");
        push_str(&mut e, path);
        return Err(string_of(&e));
    }
    let full = join_path(workdir, path);
    let cw = match &facts.workdir_canonical {
        Err(e) => {
            let mut m = chars_of("cannot resolve workdir: ");
            push_str(&mut m, e.as_str());
            return Err(string_of(&m));
        },
        Ok(c) => c,
    };
    match &facts.target {
        Some((is_link, canonical)) => {
            if *is_link {
                let mut e = chars_of("symlink ");
                push_str(&mut e, path);
                push_str(&mut e, " is not allowed");
                return Err(string_of(&e));
            }
            match canonical {
                Err(e) => Err(cannot_resolve(full.as_str(), e.as_str())),
                Ok(c) => within_or_escape(c.as_str(), cw.as_str(), path, full),
            }
        },
        None => match &facts.parent {
            Some((shown, exists, canonical)) => {
                if *exists {
                    match canonical {
                        Err(e) => Err(cannot_resolve(shown.as_str(), e.as_str())),
                        Ok(c) => within_or_escape(c.as_str(), cw.as_str(), path, full),
                    }
                } else {
                    Ok(full)
                }
            },
            None => Ok(full),
        },
    }
}

/// A path that `validate_path` accepts has no `..` component, the accepted
/// path is the working directory joined with it, and when it exists it is no
/// symbolic link and resolves inside the working directory.
pub proof fn lemma_validated_path(workdir: Seq<char>, path: Seq<char>, facts: PathFacts)
    requires
        validate_spec(workdir, path, facts) is Ok,
    ensures
        !has_parent_ref(path),
        validate_spec(workdir, path, facts)->Ok_0 == join_spec(workdir, path),
        facts.target matches Some((is_link, canonical)) ==> !is_link && (canonical matches Ok(c)
            && facts.workdir_canonical matches Ok(cw) && path_within(c@, cw@)),
{
}

// ---------------------------------------------------------------------------
// Listing
// ---------------------------------------------------------------------------

/// A file in the shim's working directory: its relative path, size and
/// modification time (seconds since the epoch).
#[derive(Debug, Clone)]
pub struct RemoteFile {
    pub path: String,
    pub size: u64,
    pub mtime: u64,
}

/// A relative path that the listing leaves out: one of its components is
/// `.git` or `target`.
pub open spec fn excluded(path: Seq<char>) -> bool {
    exists|i: int|
        0 <= i < components(path).len() && (#[trigger] components(path)[i] == ".git"@
            || components(path)[i] == "target"@)
}

/// Whether the listing leaves out a relative path: any of its components is
/// `.git` or `target`.
pub fn should_exclude(path: &str) -> (r: bool)
    ensures
        r == excluded(path@),
{
    let cs = chars_of(path);
    let parts = split_on(&cs, '/');
    let ghost v = parts@.map_values(|t: Vec<char>| t@);
    let mut i: usize = 0;
    while i < parts.len()
        invariant
            i <= parts.len(),
            v == parts@.map_values(|t: Vec<char>| t@),
            v == components(path@),
            forall|j: int| 0 <= j < i ==> v[j] != ".git"@ && v[j] != "target"@,
        decreases parts.len() - i,
    {
        assert(v[i as int] == parts@[i as int]@);
        if chars_eq_str(&parts[i], ".git") || chars_eq_str(&parts[i], "target") {
            return true;
        }
        i = i + 1;
    }
    false
}

/// Whether the listing skips a directory, given the last component of its
/// path relative to the root (`None` when it has none): `.git` and `target`
/// are skipped.
pub fn should_exclude_dir(name: Option<&str>) -> (r: bool)
    ensures
        r == match name {
            Some(n) => n@ == ".git"@ || n@ == "target"@,
            None => false,
        },
{
    match name {
        Some(n) => {
            let v = chars_of(n);
            chars_eq_str(&v, ".git") || chars_eq_str(&v, "target")
        },
        None => false,
    }
}

/// The files that the walk of the working directory `found`, without those
/// the listing leaves out, in the order they were found.
pub fn list_local_files(found: Vec<RemoteFile>) -> (r: Vec<RemoteFile>)
    ensures
        r@ == found@.filter(|f: RemoteFile| !excluded(f.path@)),
{
    let ghost pred = |f: RemoteFile| !excluded(f.path@);
    let mut out: Vec<RemoteFile> = Vec::new();
    let mut rest = found;
    let ghost all = rest@;
    let n = rest.len();
    assert(all.len() == n);
    let mut k: usize = 0;
    while rest.len() > 0
        invariant
            k <= all.len(),
            rest@ == all.skip(k as int),
            out@ == all.take(k as int).filter(pred),
            pred == (|f: RemoteFile| !excluded(f.path@)),
            all.len() <= usize::MAX,
        decreases rest.len(),
    {
        let f = rest.remove(0);
        assert(all.take(k + 1).drop_last() == all.take(k as int));
        assert(all.take(k + 1).last() == f);
        proof {
            reveal(Seq::filter);
        }
        let keep = !should_exclude(f.path.as_str());
        if keep {
            out.push(f);
        }
        k = k + 1;
        assert(rest@ == all.skip(k as int));
    }
    assert(all.take(k as int) == all);
    out
}

// ---------------------------------------------------------------------------
// Signatures, deltas, uploads
// ---------------------------------------------------------------------------

/// The block size of the shim's signatures.
pub const BLOCK_SIZE: u32 = 4096;

/// The number of hash bytes per block of the shim's signatures.
pub const HASH_SIZE: u32 = 16;

/// The rsync signature of some file data, with 4 KiB blocks and 16 hash
/// bytes per block.
pub fn compute_signature(data: &[u8]) -> (r: Vec<u8>)
    requires
        data@.len() <= usize::MAX / 64,
    ensures
        r@ == rsync_signature(data@, BLOCK_SIZE, HASH_SIZE),
        r@.len() == 12 + (data@.len() + 4095) / 4096 * 20,
{
    rsync_sign(data, BLOCK_SIZE, HASH_SIZE)
}

/// The base64 text of an upload, decoded; a decoding error is reported with
/// its text.
pub fn decode_upload(data_b64: &str) -> (r: Result<Vec<u8>, String>)
    ensures
        match b64_decode(data_b64@) {
            Ok(b) => r matches Ok(v) && v@ == b,
            Err(e) => r matches Err(m) && m@ == "base64 decode: "@ + e,
        },
        forall|b: Seq<u8>| #[trigger] b64_encode(b) == data_b64@ ==> r is Ok && r->Ok_0@ == b,
{
    match base64_decode(data_b64) {
        Ok(v) => Ok(v),
        Err(e) => {
            let mut m = chars_of("base64 decode: ");
            push_str(&mut m, e.as_str());
            Err(string_of(&m))
        },
    }
}

/// The result of applying a base64 delta to old data and checking the
/// SHA-256 of what comes out.
pub open spec fn apply_delta_spec(old: Seq<u8>, delta_b64: Seq<char>, expected: Seq<char>) -> Result<
    Seq<u8>,
    Seq<char>,
> {
    match b64_decode(delta_b64) {
        Err(e) => Err("base64 decode delta: "@ + e),
        Ok(delta) => match rsync_apply(old, delta) {
            Err(e) => Err("apply delta: "@ + e),
            Ok(new) => if hex(sha256(new)) == expected {
                Ok(new)
            } else {
                Err("SHA-256 mismatch: expected "@ + expected + ", got "@ + hex(sha256(new)))
            },
        },
    }
}

/// Applies a base64 rsync delta to `old_data`, and accepts the result only
/// when its SHA-256, in lowercase hexadecimal, is `expected_sha256`.
pub fn apply_delta(old_data: &[u8], delta_b64: &str, expected_sha256: &str) -> (r: Result<
    Vec<u8>,
    String,
>)
    ensures
        match r {
            Ok(v) => apply_delta_spec(old_data@, delta_b64@, expected_sha256@) == Ok::<
                Seq<u8>,
                Seq<char>,
            >(v@),
            Err(e) => apply_delta_spec(old_data@, delta_b64@, expected_sha256@) == Err::<
                Seq<u8>,
                Seq<char>,
            >(e@),
        },
{
    let delta = match base64_decode(delta_b64) {
        Ok(d) => d,
        Err(e) => {
            let mut m = chars_of("base64 decode delta: ");
            push_str(&mut m, e.as_str());
            return Err(string_of(&m));
        },
    };
    let new_data = match rsync_patch(old_data, &delta) {
        Ok(n) => n,
        Err(e) => {
            let mut m = chars_of("apply delta: ");
            push_str(&mut m, e.as_str());
            return Err(string_of(&m));
        },
    };
    let digest = sha256_digest(&new_data);
    let actual = hex_of(&digest);
    let expected = chars_of(expected_sha256);
    if !chars_eq(&actual, &expected) {
        let mut m = chars_of("SHA-256 mismatch: expected ");
        push_all(&mut m, &expected);
        push_str(&mut m, ", got ");
        push_all(&mut m, &actual);
        return Err(string_of(&m));
    }
    Ok(new_data)
}

} // verus!
