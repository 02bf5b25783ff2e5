//! Quoting for the remote shell, and the filter that keeps colour sequences
//! and drops every other terminal control sequence from remote output.
use vstd::prelude::*;

use crate::ext::{quote_sh, sh_quote};

verus! {

/// Quotes `s` for safe use in POSIX shell commands.
pub fn shell_quote(s: &str) -> (r: String)
    ensures
        r@ == sh_quote(s@),
{
    quote_sh(s)
}

pub const ESC: u8 = 0x1b;

/// A byte that ends a CSI sequence: an ASCII letter or `~`.
pub open spec fn is_final(b: u8) -> bool {
    (65 <= b && b <= 90) || (97 <= b && b <= 122) || b == 126
}

/// Filter state: 0 in plain text, 1 after ESC, 2 inside a CSI sequence; the
/// bytes of the sequence being read; the bytes written so far.
pub open spec fn sgr_step(st: u8, buf: Seq<u8>, b: u8) -> (u8, Seq<u8>, Seq<u8>) {
    if st == 0 {
        if b == ESC {
            (1, seq![b], Seq::empty())
        } else {
            (0, buf, seq![b])
        }
    } else if st == 1 {
        if b == 91 {
            (2, buf.push(b), Seq::empty())
        } else {
            (0, Seq::empty(), buf.push(b))
        }
    } else {
        if is_final(b) {
            if b == 109 {
                (0, Seq::empty(), buf.push(b))
            } else {
                (0, Seq::empty(), Seq::empty())
            }
        } else {
            (2, buf.push(b), Seq::empty())
        }
    }
}

/// State, pending sequence and output after reading `input` from the start.
pub open spec fn sgr_run(input: Seq<u8>) -> (u8, Seq<u8>, Seq<u8>)
    decreases input.len(),
{
    if input.len() == 0 {
        (0, Seq::empty(), Seq::empty())
    } else {
        let (st, buf, out) = sgr_run(input.drop_last());
        let (st2, buf2, o) = sgr_step(st, buf, input.last());
        (st2, buf2, out + o)
    }
}

/// The whole filter: the output, then any sequence left unfinished at the end.
pub open spec fn sgr_filter(input: Seq<u8>) -> Seq<u8> {
    let (st, buf, out) = sgr_run(input);
    out + buf
}

/// The streaming form of the filter, fed one byte at a time.
pub struct SgrFilter {
    state: u8,
    seq_buf: Vec<u8>,
}

impl View for SgrFilter {
    type V = (u8, Seq<u8>);

    closed spec fn view(&self) -> (u8, Seq<u8>) {
        (self.state, self.seq_buf@)
    }
}

impl SgrFilter {
    pub fn new() -> (f: SgrFilter)
        ensures
            f@ == (0u8, Seq::<u8>::empty()),
    {
        SgrFilter { state: 0, seq_buf: Vec::new() }
    }

    /// Reads one byte; returns the bytes to write.
    pub fn feed(&mut self, b: u8) -> (out: Vec<u8>)
        ensures
            final(self)@.0 == sgr_step(old(self)@.0, old(self)@.1, b).0,
            final(self)@.1 == sgr_step(old(self)@.0, old(self)@.1, b).1,
            out@ == sgr_step(old(self)@.0, old(self)@.1, b).2,
    {
        let mut out: Vec<u8> = Vec::new();
        if self.state == 0 {
            if b == ESC {
                self.seq_buf = Vec::new();
                self.seq_buf.push(b);
                self.state = 1;
            } else {
                out.push(b);
            }
        } else if self.state == 1 {
            self.seq_buf.push(b);
            if b == 91 {
                self.state = 2;
            } else {
                std::mem::swap(&mut out, &mut self.seq_buf);
                self.state = 0;
            }
        } else {
            self.seq_buf.push(b);
            if (65 <= b && b <= 90) || (97 <= b && b <= 122) || b == 126 {
                if b == 109 {
                    std::mem::swap(&mut out, &mut self.seq_buf);
                }
                self.seq_buf = Vec::new();
                self.state = 0;
            } else {
                self.state = 2;
            }
        }
        out
    }

    /// The sequence left unfinished at the end of the input, written as it is.
    pub fn finish(&self) -> (out: Vec<u8>)
        ensures
            out@ == self@.1,
    {
        let mut out: Vec<u8> = Vec::new();
        let mut i: usize = 0;
        while i < self.seq_buf.len()
            invariant
                i <= self.seq_buf.len(),
                out@ == self.seq_buf@.take(i as int),
            decreases self.seq_buf.len() - i,
        {
            out.push(self.seq_buf[i]);
            assert(self.seq_buf@.take(i as int).push(self.seq_buf@[i as int]) == self.seq_buf@.take(i + 1));
            i = i + 1;
        }
        assert(self.seq_buf@.take(self.seq_buf.len() as int) == self.seq_buf@);
        out
    }
}

/// Passes plain text and SGR sequences (`ESC [ ... m`) through and drops
/// every other CSI sequence; an unfinished sequence at the end is kept.
pub fn filter_sgr(input: &[u8]) -> (out: Vec<u8>)
    ensures
        out@ == sgr_filter(input@),
{
    let mut f = SgrFilter::new();
    let mut out: Vec<u8> = Vec::new();
    let mut i: usize = 0;
    while i < input.len()
        invariant
            i <= input.len(),
            (f@.0, f@.1, out@) == sgr_run(input@.take(i as int)),
        decreases input.len() - i,
    {
        let ghost pre = input@.take(i as int);
        assert(input@.take(i + 1).drop_last() == pre);
        assert(input@.take(i + 1).last() == input@[i as int]);
        let o = f.feed(input[i]);
        let mut k: usize = 0;
        let ghost out0 = out@;
        while k < o.len()
            invariant
                k <= o.len(),
                out@ == out0 + o@.take(k as int),
            decreases o.len() - k,
        {
            out.push(o[k]);
            assert(o@.take(k as int).push(o@[k as int]) == o@.take(k + 1));
            k = k + 1;
        }
        assert(o@.take(o.len() as int) == o@);
        i = i + 1;
    }
    assert(input@.take(input.len() as int) == input@);
    let rest = f.finish();
    let ghost out0 = out@;
    let mut k: usize = 0;
    while k < rest.len()
        invariant
            k <= rest.len(),
            out@ == out0 + rest@.take(k as int),
        decreases rest.len() - k,
    {
        out.push(rest[k]);
        assert(rest@.take(k as int).push(rest@[k as int]) == rest@.take(k + 1));
        k = k + 1;
    }
    assert(rest@.take(rest.len() as int) == rest@);
    out
}

// ---------------------------------------------------------------------------
// Laws of the filter
// ---------------------------------------------------------------------------

/// The filter reads from the state it starts in: after a prefix that ends
/// in plain text with nothing pending, the rest is filtered as if from the
/// start.
proof fn lemma_run_concat(a: Seq<u8>, b: Seq<u8>)
    requires
        sgr_run(a).0 == 0,
        sgr_run(a).1 == Seq::<u8>::empty(),
    ensures
        sgr_run(a + b) == (sgr_run(b).0, sgr_run(b).1, sgr_run(a).2 + sgr_run(b).2),
    decreases b.len(),
{
    if b.len() == 0 {
        assert(a + b == a);
        assert(sgr_run(a).2 + Seq::<u8>::empty() == sgr_run(a).2);
    } else {
        lemma_run_concat(a, b.drop_last());
        assert((a + b).drop_last() == a + b.drop_last());
        assert((a + b).last() == b.last());
        let (st, buf, out) = sgr_run(b.drop_last());
        let (st2, buf2, o) = sgr_step(st, buf, b.last());
        assert(sgr_run(a).2 + out + o == sgr_run(a).2 + (out + o));
    }
}

/// Text without ESC passes through unchanged, whatever follows it.
pub proof fn lemma_sgr_plain_text(text: Seq<u8>, rest: Seq<u8>)
    requires
        forall|i: int| 0 <= i < text.len() ==> text[i] != ESC,
    ensures
        sgr_filter(text + rest) == text + sgr_filter(rest),
{
    lemma_run_plain(text);
    lemma_run_concat(text, rest);
    let (st, buf, out) = sgr_run(rest);
    assert(text + out + buf == text + (out + buf));
}

proof fn lemma_run_plain(text: Seq<u8>)
    requires
        forall|i: int| 0 <= i < text.len() ==> text[i] != ESC,
    ensures
        sgr_run(text) == (0u8, Seq::<u8>::empty(), text),
    decreases text.len(),
{
    if text.len() > 0 {
        lemma_run_plain(text.drop_last());
        assert(text.drop_last().push(text.last()) == text);
    }
}

/// A complete CSI sequence `ESC [ params final`, with no final byte among
/// the parameters, is kept when its final byte is `m` (SGR) and dropped
/// otherwise; what follows it is filtered as from the start.
pub proof fn lemma_sgr_csi(params: Seq<u8>, fin: u8, rest: Seq<u8>)
    requires
        forall|i: int| 0 <= i < params.len() ==> !is_final(#[trigger] params[i]),
        is_final(fin),
    ensures
        sgr_filter(seq![ESC, 91u8] + params + seq![fin] + rest) == (if fin == 109 {
            seq![ESC, 91u8] + params + seq![fin]
        } else {
            Seq::<u8>::empty()
        }) + sgr_filter(rest),
{
    let csi = seq![ESC, 91u8] + params + seq![fin];
    lemma_run_params(params);
    assert(csi.drop_last() == seq![ESC, 91u8] + params);
    assert(csi.last() == fin);
    assert(sgr_run(csi).0 == 0);
    lemma_run_concat(csi, rest);
    let (st, buf, out) = sgr_run(rest);
    if fin == 109 {
        assert(sgr_run(csi).2 =~= csi);
    } else {
        assert(sgr_run(csi).2 =~= Seq::<u8>::empty());
    }
    assert(sgr_run(csi).2 + out + buf == sgr_run(csi).2 + (out + buf));
}

/// Output that the filter gives back unchanged, ending in plain text with
/// nothing pending.
spec fn sgr_stable(s: Seq<u8>) -> bool {
    sgr_run(s) == (0u8, Seq::<u8>::empty(), s)
}

/// What holds after any input: the output so far is stable, and the pending
/// bytes are nothing in plain text, `ESC` after an escape, and `ESC [` and
/// parameters without a final byte inside a CSI sequence.
spec fn sgr_run_inv(x: Seq<u8>) -> bool {
    let (st, buf, out) = sgr_run(x);
    &&& sgr_stable(out)
    &&& st <= 2
    &&& st == 0 ==> buf == Seq::<u8>::empty()
    &&& st == 1 ==> buf == seq![ESC]
    &&& st == 2 ==> buf.len() >= 2 && buf.take(2) == seq![ESC, 91u8] && forall|i: int|
        2 <= i < buf.len() ==> !is_final(#[trigger] buf[i])
}

proof fn lemma_stable_concat(a: Seq<u8>, b: Seq<u8>)
    requires
        sgr_stable(a),
        sgr_stable(b),
    ensures
        sgr_stable(a + b),
{
    lemma_run_concat(a, b);
}

proof fn lemma_run_single(b: u8)
    ensures
        sgr_run(seq![b]) == sgr_step(0u8, Seq::<u8>::empty(), b),
{
    let e = Seq::<u8>::empty();
    assert(seq![b].drop_last() =~= e);
    assert(seq![b].last() == b);
    assert(sgr_run(e) == (0u8, e, e));
    assert(e + sgr_step(0u8, e, b).2 =~= sgr_step(0u8, e, b).2);
}

proof fn lemma_stable_byte(b: u8)
    requires
        b != ESC,
    ensures
        sgr_stable(seq![b]),
{
    lemma_run_single(b);
}

proof fn lemma_stable_escape_pair(b: u8)
    requires
        b != 91,
    ensures
        sgr_stable(seq![ESC, b]),
{
    let s = seq![ESC, b];
    assert(s.drop_last() =~= seq![ESC]);
    assert(s.last() == b);
    lemma_run_single(ESC);
    assert(seq![ESC].push(b) =~= s);
    assert(Seq::<u8>::empty() + s =~= s);
}

proof fn lemma_params_split(buf: Seq<u8>)
    requires
        buf.len() >= 2,
        buf.take(2) == seq![ESC, 91u8],
        forall|i: int| 2 <= i < buf.len() ==> !is_final(#[trigger] buf[i]),
    ensures
        buf == seq![ESC, 91u8] + buf.skip(2),
        forall|i: int| 0 <= i < buf.skip(2).len() ==> !is_final(#[trigger] buf.skip(2)[i]),
{
    assert(buf =~= seq![ESC, 91u8] + buf.skip(2)) by {
        assert(buf[0] == buf.take(2)[0]);
        assert(buf[1] == buf.take(2)[1]);
    }
    assert forall|i: int| 0 <= i < buf.skip(2).len() implies !is_final(#[trigger] buf.skip(2)[i]) by {
        assert(buf.skip(2)[i] == buf[i + 2]);
    }
}

proof fn lemma_sgr_run_inv(x: Seq<u8>)
    ensures
        sgr_run_inv(x),
    decreases x.len(),
{
    if x.len() == 0 {
        assert(sgr_run(Seq::<u8>::empty()) == (0u8, Seq::<u8>::empty(), Seq::<u8>::empty()));
    } else {
        lemma_sgr_run_inv(x.drop_last());
        let (st, buf, out) = sgr_run(x.drop_last());
        let b = x.last();
        let (st2, buf2, o) = sgr_step(st, buf, b);
        if st == 0 {
            if b == ESC {
                assert(out + o == out);
            } else {
                lemma_stable_byte(b);
                lemma_stable_concat(out, o);
            }
        } else if st == 1 {
            if b == 91 {
                assert(out + o == out);
                assert(buf2 == seq![ESC, 91u8]);
                assert(buf2.take(2) == buf2);
            } else {
                assert(o == seq![ESC, b]);
                lemma_stable_escape_pair(b);
                lemma_stable_concat(out, o);
            }
        } else {
            lemma_params_split(buf);
            let params = buf.skip(2);
            if is_final(b) {
                if b == 109 {
                    lemma_run_params(params);
                    let csi = seq![ESC, 91u8] + params + seq![b];
                    assert(csi.drop_last() == seq![ESC, 91u8] + params);
                    assert(csi.last() == b);
                    assert(o == csi);
                    assert(Seq::<u8>::empty() + csi == csi);
                    lemma_stable_concat(out, o);
                } else {
                    assert(out + o == out);
                }
            } else {
                assert(out + o == out);
                assert(buf2.take(2) == buf.take(2));
                assert forall|i: int| 2 <= i < buf2.len() implies !is_final(#[trigger] buf2[i]) by {
                    if i < buf.len() {
                        assert(buf2[i] == buf[i]);
                    }
                }
            }
        }
    }
}

/// Filtering twice gives what filtering once gives: the filter's output
/// holds only plain text, escapes it passes on and SGR sequences, and a
/// sequence left unfinished at the end stays as it is.
pub proof fn lemma_sgr_filter_idempotent(x: Seq<u8>)
    ensures
        sgr_filter(sgr_filter(x)) == sgr_filter(x),
{
    lemma_sgr_run_inv(x);
    let (st, buf, out) = sgr_run(x);
    lemma_run_concat(out, buf);
    if st == 0 {
        assert(sgr_run(Seq::<u8>::empty()) == (0u8, Seq::<u8>::empty(), Seq::<u8>::empty()));
        assert(out + buf == out);
    } else if st == 1 {
        lemma_run_single(ESC);
    } else {
        lemma_params_split(buf);
        lemma_run_params(buf.skip(2));
    }
    let (st3, buf3, out3) = sgr_run(buf);
    assert(out + out3 + buf3 == out + (out3 + buf3));
}

proof fn lemma_run_params(params: Seq<u8>)
    requires
        forall|i: int| 0 <= i < params.len() ==> !is_final(#[trigger] params[i]),
    ensures
        sgr_run(seq![ESC, 91u8] + params) == (2u8, seq![ESC, 91u8] + params, Seq::<u8>::empty()),
    decreases params.len(),
{
    let s = seq![ESC, 91u8] + params;
    if params.len() == 0 {
        assert(s == seq![ESC, 91u8]);
        assert(s.drop_last() == seq![ESC]);
        assert(seq![ESC].drop_last() == Seq::<u8>::empty());
        assert(seq![ESC].last() == ESC);
        assert(sgr_run(Seq::<u8>::empty()) == (0u8, Seq::<u8>::empty(), Seq::<u8>::empty()));
        assert(sgr_run(seq![ESC]).0 == 1u8);
        assert(sgr_run(seq![ESC]).1 =~= seq![ESC]);
        assert(sgr_run(seq![ESC]).2 =~= Seq::<u8>::empty());
        assert(sgr_run(s).1 =~= seq![ESC, 91u8]);
        assert(sgr_run(s).2 =~= Seq::<u8>::empty());
    } else {
        lemma_run_params(params.drop_last());
        assert(s.drop_last() == seq![ESC, 91u8] + params.drop_last());
        assert(s.last() == params.last());
        assert(!is_final(params[params.len() - 1]));
        assert((seq![ESC, 91u8] + params.drop_last()).push(params.last()) == s);
    }
}

} // verus!
