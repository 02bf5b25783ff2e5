//! Calls into std and into outside crates whose behaviour is taken on trust.
//! Each item names the function it calls and states what its contract claims.
use vstd::prelude::*;
use vstd::utf8::*;

use base64::Engine;
use sha2::Digest;

use crate::proxy::UrlParts;

verus! {

/// `String::push`: appends one character at the end of the string.
#[verifier::external_body]
pub(crate) fn push_char(s: &mut String, c: char)
    ensures
        final(s)@ == old(s)@.push(c),
{
    s.push(c);
}

/// `String::from_utf8`: succeeds exactly on valid UTF-8, and the string holds the
/// characters that the bytes encode.
#[verifier::external_body]
pub(crate) fn string_from_utf8(bytes: Vec<u8>) -> (r: Option<String>)
    ensures
        r is Some <==> valid_utf8(bytes@),
        r matches Some(s) ==> s@ == decode_utf8(bytes@),
{
    String::from_utf8(bytes).ok()
}

} // verus!

verus! {

/// The quoted form that `shell_quote::Sh::quote_vec` gives of a text, read
/// back as text.
pub uninterp spec fn sh_quote(s: Seq<char>) -> Seq<char>;

/// The bytes that `Sh` emits bare: ASCII letters and digits and `,./_-:@+`.
pub open spec fn sh_inert(c: char) -> bool {
    let u = c as u32;
    ||| (97 <= u && u <= 122)
    ||| (65 <= u && u <= 90)
    ||| (48 <= u && u <= 57)
    ||| c == ',' || c == '.' || c == '/' || c == '_' || c == '-' || c == ':' || c == '@' || c == '+'
}

/// `shell_quote::Sh::quote_vec`, read back with `String::from_utf8`.
/// The result is named [`sh_quote`]; as the crate's source shows, the empty
/// text quotes to `''` and a non-empty text of inert characters is left as
/// it is. How other texts are quoted is not stated. The quoted bytes are
/// UTF-8 whenever the input is (bytes from 0x80 up are copied in order and
/// quotes are only put between ASCII bytes), so the conversion cannot fail.
#[verifier::external_body]
pub(crate) fn quote_sh(s: &str) -> (r: String)
    ensures
        r@ == sh_quote(s@),
        s@.len() == 0 ==> r@ == seq!['\'', '\''],
        s@.len() > 0 && (forall|i: int| 0 <= i < s@.len() ==> sh_inert(#[trigger] s@[i]))
            ==> r@ == s@,
{
    String::from_utf8(shell_quote::Sh::quote_vec(s)).unwrap()
}

} // verus!

verus! {

/// What `base64::engine::general_purpose::STANDARD.encode` makes of some bytes.
pub uninterp spec fn b64_encode(bytes: Seq<u8>) -> Seq<char>;

/// What `base64::engine::general_purpose::STANDARD.decode` makes of a text:
/// the bytes, or the display text of the `DecodeError`.
pub uninterp spec fn b64_decode(text: Seq<char>) -> Result<Seq<u8>, Seq<char>>;

/// A character of the standard base64 alphabet, or the padding `=`.
pub open spec fn b64_char(c: char) -> bool {
    let u = c as u32;
    ||| (97 <= u && u <= 122)
    ||| (65 <= u && u <= 90)
    ||| (48 <= u && u <= 57)
    ||| c == '+' || c == '/' || c == '='
}

/// `Engine::encode` of the `STANDARD` engine (standard alphabet, with
/// padding). The result is named [`b64_encode`]; as the crate documents, it
/// is made of alphabet characters and `=` only. `encode` panics when the
/// length of the output overflows; `requires` keeps the input far below that.
#[verifier::external_body]
pub(crate) fn base64_encode(bytes: &[u8]) -> (r: String)
    requires
        bytes@.len() <= usize::MAX / 4,
    ensures
        r@ == b64_encode(bytes@),
        forall|i: int| 0 <= i < r@.len() ==> b64_char(#[trigger] r@[i]),
{
    base64::engine::general_purpose::STANDARD.encode(bytes)
}

/// `Engine::decode` of the `STANDARD` engine, with a `DecodeError` turned into
/// its display text. The result is named [`b64_decode`]; as the crate
/// documents for one engine, what `encode` wrote decodes to the same bytes.
#[verifier::external_body]
pub(crate) fn base64_decode(text: &str) -> (r: Result<Vec<u8>, String>)
    ensures
        r matches Ok(v) ==> b64_decode(text@) is Ok && b64_decode(text@)->Ok_0 == v@,
        r matches Err(e) ==> b64_decode(text@) is Err && b64_decode(text@)->Err_0 == e@,
        forall|b: Seq<u8>| #[trigger] b64_encode(b) == text@ ==> r is Ok && r->Ok_0@ == b,
{
    match base64::engine::general_purpose::STANDARD.decode(text) {
        Ok(v) => Ok(v),
        Err(e) => Err(format!("{e}")),
    }
}

/// The SHA-256 digest of some bytes.
pub uninterp spec fn sha256(bytes: Seq<u8>) -> Seq<u8>;

/// `sha2::Sha256::digest`: the digest, named [`sha256`], 32 bytes long.
#[verifier::external_body]
pub(crate) fn sha256_digest(bytes: &[u8]) -> (r: Vec<u8>)
    ensures
        r@ == sha256(bytes@),
        r@.len() == 32,
{
    sha2::Sha256::digest(bytes).to_vec()
}

/// The serialized signature that `fast_rsync::Signature::calculate` computes
/// of some data with a block size and a hash size.
pub uninterp spec fn rsync_signature(data: Seq<u8>, block_size: u32, hash_size: u32) -> Seq<u8>;

/// `fast_rsync::Signature::calculate(..).serialized()`. The result is named
/// [`rsync_signature`]; as the source shows, it is a 12-byte header and then,
/// for each block of the data, a 4-byte checksum and `hash_size` hash bytes.
/// `calculate` asserts a block size above zero and a hash size of at most 16,
/// and allocates a buffer of that length; `requires` keeps to those bounds.
#[verifier::external_body]
pub(crate) fn rsync_sign(data: &[u8], block_size: u32, hash_size: u32) -> (r: Vec<u8>)
    requires
        block_size > 0,
        hash_size <= 16,
        data@.len() <= usize::MAX / 64,
    ensures
        r@ == rsync_signature(data@, block_size, hash_size),
        r@.len() == 12 + (data@.len() + block_size - 1) / (block_size as int) * (4 + hash_size),
{
    let opts = fast_rsync::SignatureOptions { block_size, crypto_hash_size: hash_size };
    fast_rsync::Signature::calculate(data, opts).serialized().to_vec()
}

/// What `fast_rsync::apply` makes of a base and a delta: the new data, or the
/// display text of the `ApplyError`.
pub uninterp spec fn rsync_apply(base: Seq<u8>, delta: Seq<u8>) -> Result<Seq<u8>, Seq<char>>;

/// `fast_rsync::apply` into a fresh buffer, with an `ApplyError` turned into
/// its display text. The result is named [`rsync_apply`]. The crate warns
/// that a delta may rebuild the wrong data; nothing is stated of that here.
#[verifier::external_body]
pub(crate) fn rsync_patch(base: &[u8], delta: &[u8]) -> (r: Result<Vec<u8>, String>)
    ensures
        r matches Ok(v) ==> rsync_apply(base@, delta@) is Ok && rsync_apply(base@, delta@)->Ok_0
            == v@,
        r matches Err(e) ==> rsync_apply(base@, delta@) is Err && rsync_apply(base@, delta@)->Err_0
            == e@,
{
    let mut out: Vec<u8> = Vec::new();
    match fast_rsync::apply(base, delta, &mut out) {
        Ok(()) => Ok(out),
        Err(e) => Err(format!("{e}")),
    }
}

/// What a delta computation makes of a serialized signature and some data:
/// the delta, `Err(None)` when `fast_rsync::Signature::deserialize` refuses the
/// signature, or `Err(Some(text))` with the display text of the `DiffError`.
pub uninterp spec fn rsync_delta(sig: Seq<u8>, data: Seq<u8>) -> Result<Seq<u8>, Option<Seq<char>>>;

/// The block size field of a serialized signature (bytes 4 to 8, big-endian),
/// when the signature is long enough to have one.
pub open spec fn sig_block_size(sig: Seq<u8>) -> int {
    if sig.len() < 12 {
        1
    } else {
        sig[4] * 0x1000000int + sig[5] * 0x10000int + sig[6] * 0x100int + sig[7]
    }
}

/// `fast_rsync::Signature::deserialize`, then `fast_rsync::diff` against its
/// `index()`. The result is named [`rsync_delta`]. `diff` loops or panics on a
/// signature whose block size is zero, and adds the block size to offsets into
/// the data; `requires` leaves those inputs out.
#[verifier::external_body]
pub(crate) fn rsync_diff(sig: &[u8], data: &[u8]) -> (r: Result<Vec<u8>, Option<String>>)
    requires
        sig_block_size(sig@) != 0,
        data@.len() + 0x1_0000_0000 <= usize::MAX,
    ensures
        r matches Ok(v) ==> rsync_delta(sig@, data@) is Ok && rsync_delta(sig@, data@)->Ok_0 == v@,
        r matches Err(e) ==> rsync_delta(sig@, data@) is Err && rsync_delta(sig@, data@)->Err_0
            == e.deep_view(),
{
    let parsed = match fast_rsync::Signature::deserialize(sig.to_vec()) {
        Ok(s) => s,
        Err(_) => return Err(None),
    };
    let mut out: Vec<u8> = Vec::new();
    match fast_rsync::diff(&parsed.index(), data, &mut out) {
        Ok(()) => Ok(out),
        Err(e) => Err(Some(format!("{e}"))),
    }
}

/// What `url::Url::parse` makes of a text, read as host, port, path and query;
/// or the display text of the `ParseError`.
pub uninterp spec fn url_parse(text: Seq<char>) -> Result<
    (Option<Seq<char>>, Option<u16>, Seq<char>, Option<Seq<char>>),
    Seq<char>,
>;

/// `url::Url::parse`, read through `host_str`, `port`, `path` and `query`. The
/// result is named [`url_parse`].
#[verifier::external_body]
pub(crate) fn parse_url(text: &str) -> (r: Result<UrlParts, String>)
    ensures
        r matches Ok(u) ==> url_parse(text@) is Ok && url_parse(text@)->Ok_0 == (
            u.host.deep_view(),
            u.port,
            u.path@,
            u.query.deep_view(),
        ),
        r matches Err(e) ==> url_parse(text@) is Err && url_parse(text@)->Err_0 == e@,
{
    match url::Url::parse(text) {
        Ok(u) => Ok(UrlParts {
            host: u.host_str().map(String::from),
            port: u.port(),
            path: u.path().to_string(),
            query: u.query().map(String::from),
        }),
        Err(e) => Err(format!("{e}")),
    }
}

/// Whether a `.gitignore` made of `lines` ignores the file `path` (relative
/// to the project root), as the `ignore` crate decides it; or the display
/// text of the error when a line is not a valid glob or the matcher cannot
/// be built.
pub uninterp spec fn gitignore_ignored(lines: Seq<Seq<char>>, path: Seq<char>) -> Result<
    bool,
    Seq<char>,
>;

/// `ignore::gitignore::GitignoreBuilder::new(".")`, `add_line` for each line,
/// `build`, then `Gitignore::matched(path, false).is_ignore()`. The result is
/// named [`gitignore_ignored`].
#[verifier::external_body]
pub(crate) fn gitignored(lines: &Vec<String>, path: &str) -> (r: Result<bool, String>)
    ensures
        r matches Ok(b) ==> gitignore_ignored(lines.deep_view(), path@) is Ok && gitignore_ignored(
            lines.deep_view(),
            path@,
        )->Ok_0 == b,
        r matches Err(e) ==> gitignore_ignored(lines.deep_view(), path@) is Err
            && gitignore_ignored(lines.deep_view(), path@)->Err_0 == e@,
{
    let mut builder = ignore::gitignore::GitignoreBuilder::new(".");
    for line in lines {
        if let Err(e) = builder.add_line(None, line) {
            return Err(format!("{e}"));
        }
    }
    match builder.build() {
        Ok(g) => Ok(g.matched(path, false).is_ignore()),
        Err(e) => Err(format!("{e}")),
    }
}

/// The lowercase form of a text, as `str::to_lowercase` gives it.
pub uninterp spec fn lowercase(s: Seq<char>) -> Seq<char>;

/// `str::to_lowercase`; the result is named [`lowercase`].
#[verifier::external_body]
pub(crate) fn to_lowercase(s: &str) -> (r: String)
    ensures
        r@ == lowercase(s@),
{
    s.to_lowercase()
}

/// Whether `std::path::Path::starts_with` holds: the components of `base`
/// are the first components of `path`.
pub uninterp spec fn path_within(path: Seq<char>, base: Seq<char>) -> bool;

/// `std::path::Path::starts_with`; the result is named [`path_within`].
#[verifier::external_body]
pub(crate) fn path_starts_with(path: &str, base: &str) -> (r: bool)
    ensures
        r == path_within(path@, base@),
{
    std::path::Path::new(path).starts_with(base)
}

/// The `Debug` text of a list of strings (`format!("{:?}", v)`).
pub uninterp spec fn debug_list(v: Seq<Seq<char>>) -> Seq<char>;

/// `format!("{:?}")` of a `Vec<String>`; the result is named [`debug_list`].
#[verifier::external_body]
pub(crate) fn debug_strings(v: &Vec<String>) -> (r: String)
    ensures
        r@ == debug_list(v.deep_view()),
{
    format!("{v:?}")
}

} // verus!
