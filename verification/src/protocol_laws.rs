//! What decoding gives back of an encoded message.
use vstd::prelude::*;

use crate::num::{dec, is_digit, lemma_dec_digits, lemma_parse_dec};
use crate::protocol::{
    dashes, decode_data, decode_delta, decode_file, decode_handshake, decode_message,
    decode_sandbox, encode_message, encode_sandbox, net_sep, sandbox_items, sp, split_last,
    split_net, strip_all, MessageView, SandboxView,
};
use crate::text::{
    find_char, find_sub, has_prefix, is_ws, join, lemma_find_char_facts, lemma_find_char_none,
    lemma_find_char_some, lemma_find_sub_none, lemma_find_sub_some, lemma_join_push,
    lemma_rfind_char_facts, lemma_rfind_char_some, no_ws, occurs, rfind_char, split_once, ws_scan,
    ws_tokens,
};

verus! {

// ---------------------------------------------------------------------------
// Which configurations and messages survive the text form
// ---------------------------------------------------------------------------

/// A sandbox configuration whose text form reads back unchanged: no entry
/// holds white space, the working directory and the network domains are
/// non-empty, and none of them (but the first domain) is `--`, the word
/// that separates the network part.
pub open spec fn sandbox_safe(c: SandboxView) -> bool {
    &&& c.workdir.len() > 0
    &&& no_ws(c.workdir)
    &&& c.workdir != dashes()
    &&& forall|i: int| 0 <= i < c.write.len() ==> no_ws(#[trigger] c.write[i])
    &&& forall|i: int| 0 <= i < c.read.len() ==> no_ws(#[trigger] c.read[i])
    &&& forall|i: int|
        0 <= i < c.net.len() ==> (#[trigger] c.net[i]).len() > 0 && no_ws(c.net[i]) && (i > 0
            ==> c.net[i] != dashes())
}

/// A message whose text form decodes to a message with the same text form:
/// every message but a sandbox message whose configuration is not
/// [`sandbox_safe`].
pub open spec fn message_safe(m: MessageView) -> bool {
    m matches MessageView::Sandbox { config } ==> sandbox_safe(config)
}

// ---------------------------------------------------------------------------
// Joined words
// ---------------------------------------------------------------------------

/// Non-empty words without white space.
pub open spec fn words(items: Seq<Seq<char>>) -> bool {
    forall|k: int| 0 <= k < items.len() ==> (#[trigger] items[k]).len() > 0 && no_ws(items[k])
}

/// Words of which none but the first is `--`.
pub open spec fn sep_free_words(items: Seq<Seq<char>>) -> bool {
    &&& words(items)
    &&& forall|k: int| 1 <= k < items.len() ==> #[trigger] items[k] != dashes()
}

proof fn lemma_occurs_chars(s: Seq<char>, j: int)
    ensures
        occurs(s, net_sep(), j) <==> (0 <= j && j + 4 <= s.len() && s[j] == ' ' && s[j + 1]
            == '-' && s[j + 2] == '-' && s[j + 3] == ' '),
{
    if 0 <= j && j + 4 <= s.len() && s[j] == ' ' && s[j + 1] == '-' && s[j + 2] == '-' && s[j
        + 3] == ' ' {
        assert(s.subrange(j, j + 4) =~= net_sep());
    }
    if occurs(s, net_sep(), j) {
        assert(s.subrange(j, j + 4)[0] == s[j]);
        assert(s.subrange(j, j + 4)[1] == s[j + 1]);
        assert(s.subrange(j, j + 4)[2] == s[j + 2]);
        assert(s.subrange(j, j + 4)[3] == s[j + 3]);
    }
}

/// In words joined by single spaces and followed by text that starts with a
/// space, `" -- "` starts at no position inside the joined words.
proof fn lemma_no_sep_in_join(items: Seq<Seq<char>>, x: Seq<char>)
    requires
        items.len() > 0,
        sep_free_words(items),
        x.len() > 0,
        x[0] == ' ',
    ensures
        forall|j: int|
            0 <= j < join(items, sp()).len() ==> !#[trigger] occurs(
                join(items, sp()) + x,
                net_sep(),
                j,
            ),
    decreases items.len(),
{
    let jn = join(items, sp());
    let s = jn + x;
    assert(is_ws(' '));
    if items.len() == 1 {
        assert forall|j: int| 0 <= j < jn.len() implies !#[trigger] occurs(s, net_sep(), j) by {
            lemma_occurs_chars(s, j);
            assert(items[0].len() > 0 && no_ws(items[0]));
            assert(s[j] == items[0][j]);
        }
    } else {
        let init = items.drop_last();
        let last = items.last();
        let j0 = join(init, sp());
        assert(jn == j0 + sp() + last);
        assert(sep_free_words(init)) by {
            assert forall|k: int| 0 <= k < init.len() implies (#[trigger] init[k]).len() > 0
                && no_ws(init[k]) by {
                assert(init[k] == items[k]);
            }
            assert forall|k: int| 1 <= k < init.len() implies #[trigger] init[k] != dashes() by {
                assert(init[k] == items[k]);
            }
        }
        let x2 = sp() + last + x;
        lemma_no_sep_in_join(init, x2);
        assert(j0 + x2 == s);
        assert(last == items[items.len() - 1]);
        assert(last.len() > 0 && no_ws(last) && last != dashes());
        assert forall|j: int| 0 <= j < jn.len() implies !#[trigger] occurs(s, net_sep(), j) by {
            lemma_occurs_chars(s, j);
            if j < j0.len() {
                assert(!occurs(j0 + x2, net_sep(), j));
            } else if j == j0.len() {
                if last.len() >= 3 {
                    assert(s[j + 3] == last[2]);
                } else if last.len() == 2 {
                    assert(s[j + 1] == last[0]);
                    assert(s[j + 2] == last[1]);
                    if s[j + 1] == '-' && s[j + 2] == '-' {
                        assert(last =~= dashes());
                    }
                } else {
                    assert(s[j + 2] == x[0]);
                }
            } else {
                assert(s[j] == last[j - j0.len() - 1]);
            }
        }
    }
}

/// `" -- "` does not occur in sep-free words joined by spaces.
proof fn lemma_no_sep_in_words(items: Seq<Seq<char>>)
    requires
        items.len() > 0,
        sep_free_words(items),
    ensures
        find_sub(join(items, sp()), net_sep()) is None,
{
    let jn = join(items, sp());
    lemma_no_sep_in_join(items, sp());
    assert forall|j: int| !#[trigger] occurs(jn, net_sep(), j) by {
        if occurs(jn, net_sep(), j) {
            assert((jn + sp()).subrange(j, j + 4) == jn.subrange(j, j + 4));
            assert(occurs(jn + sp(), net_sep(), j));
        }
    }
    lemma_find_sub_none(jn, net_sep());
}

proof fn lemma_join_concat(a: Seq<Seq<char>>, b: Seq<Seq<char>>)
    requires
        a.len() > 0,
        b.len() > 0,
    ensures
        join(a + b, sp()) == join(a, sp()) + sp() + join(b, sp()),
    decreases b.len(),
{
    if b.len() == 1 {
        assert((a + b) == a.push(b[0]));
        lemma_join_push(a, b[0], sp());
    } else {
        let b0 = b.drop_last();
        lemma_join_concat(a, b0);
        assert(a + b == (a + b0).push(b.last()));
        lemma_join_push(a + b0, b.last(), sp());
        lemma_join_push(b0, b.last(), sp());
        assert(b0.push(b.last()) == b);
    }
}

proof fn lemma_scan_plain(x: Seq<char>, y: Seq<char>)
    requires
        no_ws(y),
    ensures
        ws_scan(x + y) == (ws_scan(x).0, ws_scan(x).1 + y),
    decreases y.len(),
{
    if y.len() == 0 {
        assert(x + y == x);
        assert(ws_scan(x).1 + y == ws_scan(x).1);
    } else {
        let y0 = y.drop_last();
        assert(no_ws(y0)) by {
            assert forall|i: int| 0 <= i < y0.len() implies !is_ws(#[trigger] y0[i]) by {
                assert(y0[i] == y[i]);
            }
        }
        lemma_scan_plain(x, y0);
        assert((x + y).drop_last() == x + y0);
        assert((x + y).last() == y.last());
        assert(!is_ws(y[y.len() - 1]));
        assert(ws_scan(x).1 + y0 + seq![y.last()] == ws_scan(x).1 + y);
    }
}

proof fn lemma_scan_join(items: Seq<Seq<char>>)
    requires
        items.len() > 0,
        words(items),
    ensures
        ws_scan(join(items, sp())) == (items.drop_last(), items.last()),
    decreases items.len(),
{
    if items.len() == 1 {
        assert(items[0].len() > 0 && no_ws(items[0]));
        lemma_scan_plain(Seq::empty(), items[0]);
        assert(Seq::<char>::empty() + items[0] == items[0]);
        assert(items.drop_last() =~= Seq::<Seq<char>>::empty());
    } else {
        let init = items.drop_last();
        let last = items.last();
        assert(words(init)) by {
            assert forall|k: int| 0 <= k < init.len() implies (#[trigger] init[k]).len() > 0
                && no_ws(init[k]) by {
                assert(init[k] == items[k]);
            }
        }
        lemma_scan_join(init);
        let j0 = join(init, sp());
        assert(init.last() == items[items.len() - 2]);
        assert(init.last().len() > 0);
        assert((j0 + sp()).drop_last() == j0);
        assert((j0 + sp()).last() == ' ');
        assert(is_ws(' '));
        assert(init.drop_last().push(init.last()) == init);
        assert(ws_scan(j0 + sp()) == (init, Seq::<char>::empty()));
        assert(last == items[items.len() - 1]);
        lemma_scan_plain(j0 + sp(), last);
        assert(j0 + sp() + last == join(items, sp()));
        assert(Seq::<char>::empty() + last == last);
    }
}

/// White-space tokens of words joined by spaces are the words.
pub proof fn lemma_tokens_join(items: Seq<Seq<char>>)
    requires
        items.len() > 0,
        words(items),
    ensures
        ws_tokens(join(items, sp())) == items,
{
    lemma_scan_join(items);
    assert(items.last() == items[items.len() - 1]);
    assert(items.drop_last().push(items.last()) == items);
}

// ---------------------------------------------------------------------------
// Prefix stripping
// ---------------------------------------------------------------------------

proof fn lemma_strip_concat(xs: Seq<Seq<char>>, ys: Seq<Seq<char>>, pre: Seq<char>)
    ensures
        strip_all(xs + ys, pre) == strip_all(xs, pre) + strip_all(ys, pre),
    decreases ys.len(),
{
    if ys.len() == 0 {
        assert(xs + ys == xs);
        assert(strip_all(ys, pre) == Seq::<Seq<char>>::empty());
        assert(strip_all(xs, pre) + strip_all(ys, pre) == strip_all(xs, pre));
    } else {
        lemma_strip_concat(xs, ys.drop_last(), pre);
        assert((xs + ys).drop_last() == xs + ys.drop_last());
        assert((xs + ys).last() == ys.last());
    }
}

proof fn lemma_strip_mapped(ps: Seq<Seq<char>>, pre: Seq<char>)
    ensures
        strip_all(ps.map_values(|p: Seq<char>| pre + p), pre) == ps,
    decreases ps.len(),
{
    let m = ps.map_values(|p: Seq<char>| pre + p);
    if ps.len() > 0 {
        lemma_strip_mapped(ps.drop_last(), pre);
        assert(m.drop_last() == ps.drop_last().map_values(|p: Seq<char>| pre + p));
        assert(m.last() == pre + ps.last());
        assert((pre + ps.last()).take(pre.len() as int) == pre);
        assert((pre + ps.last()).skip(pre.len() as int) == ps.last());
        assert(ps.drop_last().push(ps.last()) == ps);
    } else {
        assert(m.len() == 0);
    }
}

proof fn lemma_strip_other(ps: Seq<Seq<char>>, other: Seq<char>, pre: Seq<char>)
    requires
        other.len() > 0,
        pre.len() > 0,
        other[0] != pre[0],
    ensures
        strip_all(ps.map_values(|p: Seq<char>| other + p), pre) == Seq::<Seq<char>>::empty(),
    decreases ps.len(),
{
    let m = ps.map_values(|p: Seq<char>| other + p);
    if ps.len() > 0 {
        lemma_strip_other(ps.drop_last(), other, pre);
        assert(m.drop_last() == ps.drop_last().map_values(|p: Seq<char>| other + p));
        let l = m.last();
        assert(l == other + ps.last());
        if has_prefix(l, pre) {
            assert(l.take(pre.len() as int)[0] == l[0]);
        }
    }
}

// ---------------------------------------------------------------------------
// The sandbox line
// ---------------------------------------------------------------------------

proof fn lemma_mapped_words(ps: Seq<Seq<char>>, pre: Seq<char>)
    requires
        pre.len() > 2,
        no_ws(pre),
        forall|i: int| 0 <= i < ps.len() ==> no_ws(#[trigger] ps[i]),
    ensures
        sep_free_words(ps.map_values(|p: Seq<char>| pre + p)),
{
    let m = ps.map_values(|p: Seq<char>| pre + p);
    assert forall|k: int| 0 <= k < m.len() implies (#[trigger] m[k]).len() > 0 && no_ws(m[k])
        by {
        assert(m[k] == pre + ps[k]);
        assert(no_ws(ps[k]));
        assert forall|i: int| 0 <= i < m[k].len() implies !is_ws(#[trigger] m[k][i]) by {
            if i < pre.len() {
                assert(m[k][i] == pre[i]);
            } else {
                assert(m[k][i] == ps[k][i - pre.len()]);
            }
        }
    }
    assert forall|k: int| 1 <= k < m.len() implies #[trigger] m[k] != dashes() by {
        assert(m[k].len() > 2);
    }
}

proof fn lemma_sep_free_concat(a: Seq<Seq<char>>, b: Seq<Seq<char>>)
    requires
        sep_free_words(a),
        words(b),
        forall|k: int| 0 <= k < b.len() ==> #[trigger] b[k] != dashes(),
    ensures
        sep_free_words(a + b),
{
    let c = a + b;
    assert forall|k: int| 0 <= k < c.len() implies (#[trigger] c[k]).len() > 0 && no_ws(c[k]) by {
        if k < a.len() {
            assert(c[k] == a[k]);
        } else {
            assert(c[k] == b[k - a.len()]);
        }
    }
    assert forall|k: int| 1 <= k < c.len() implies #[trigger] c[k] != dashes() by {
        if k < a.len() {
            assert(c[k] == a[k]);
        } else {
            assert(c[k] == b[k - a.len()]);
        }
    }
}

/// Decoding the text form of a [`sandbox_safe`] configuration gives the
/// configuration back.
pub proof fn lemma_sandbox_roundtrip(c: SandboxView)
    requires
        sandbox_safe(c),
    ensures
        decode_sandbox(encode_sandbox(c)) == Ok::<SandboxView, Seq<char>>(c),
{
    reveal_strlit("write:");
    reveal_strlit("read:");
    let en: Seq<char> = if c.enabled {
        seq!['1']
    } else {
        seq!['0']
    };
    let wf = |p: Seq<char>| "write:"@ + p;
    let rf = |p: Seq<char>| "read:"@ + p;
    let head = seq![en, c.workdir];
    let wi = c.write.map_values(wf);
    let ri = c.read.map_values(rf);
    let a = head + wi + ri;
    let items = sandbox_items(c);
    assert(no_ws("write:"@)) by {
        assert forall|i: int| 0 <= i < "write:"@.len() implies !is_ws(#[trigger] "write:"@[i]) by {}
    }
    assert(no_ws("read:"@)) by {
        assert forall|i: int| 0 <= i < "read:"@.len() implies !is_ws(#[trigger] "read:"@[i]) by {}
    }
    // the words before the network part
    assert(sep_free_words(head)) by {
        assert(no_ws(en)) by {
            assert forall|i: int| 0 <= i < en.len() implies !is_ws(#[trigger] en[i]) by {}
        }
        assert(head[0] == en);
        assert(head[1] == c.workdir);
    }
    lemma_mapped_words(c.write, "write:"@);
    lemma_mapped_words(c.read, "read:"@);
    assert(forall|k: int| 0 <= k < wi.len() ==> #[trigger] wi[k] != dashes()) by {
        assert forall|k: int| 0 <= k < wi.len() implies #[trigger] wi[k] != dashes() by {
            assert(wi[k] == "write:"@ + c.write[k]);
            assert(wi[k].len() > 2);
        }
    }
    assert(forall|k: int| 0 <= k < ri.len() ==> #[trigger] ri[k] != dashes()) by {
        assert forall|k: int| 0 <= k < ri.len() implies #[trigger] ri[k] != dashes() by {
            assert(ri[k] == "read:"@ + c.read[k]);
            assert(ri[k].len() > 2);
        }
    }
    lemma_sep_free_concat(head, wi);
    lemma_sep_free_concat(head + wi, ri);
    assert(a.len() >= 2);
    let ja = join(a, sp());
    let s = encode_sandbox(c);
    let net_words = c.net;
    if c.net.len() > 0 {
        assert(items == a + (seq![dashes()] + c.net));
        assert(words(c.net)) by {
            assert forall|k: int| 0 <= k < c.net.len() implies (#[trigger] c.net[k]).len() > 0
                && no_ws(c.net[k]) by {}
        }
        assert(sep_free_words(c.net));
        lemma_join_concat(a, seq![dashes()] + c.net);
        lemma_join_concat(seq![dashes()], c.net);
        assert(join(seq![dashes()], sp()) == dashes());
        let jn = join(c.net, sp());
        assert(s == ja + net_sep() + jn);
        // first separator
        lemma_no_sep_in_join(a, net_sep() + jn);
        assert(s.subrange(ja.len() as int, ja.len() as int + 4) == net_sep());
        assert forall|j: int| 0 <= j < ja.len() implies !#[trigger] occurs(s, net_sep(), j) by {
            assert(!occurs(ja + (net_sep() + jn), net_sep(), j));
            assert(ja + (net_sep() + jn) == s);
        }
        lemma_find_sub_some(s, net_sep(), ja.len() as int);
        assert(s.skip(ja.len() as int + 4) == jn);
        lemma_no_sep_in_words(c.net);
        assert(s.take(ja.len() as int) == ja);
        assert(split_net(s) == (ja, Some(jn)));
        lemma_tokens_join(c.net);
        assert(ws_tokens(jn) == c.net);
    } else {
        assert(items == a);
        lemma_no_sep_in_words(a);
        assert(split_net(s) == (ja, None::<Seq<char>>));
        assert(c.net =~= Seq::<Seq<char>>::empty());
    }
    let netv = match split_net(s).1 {
        Some(x) => ws_tokens(x),
        None => Seq::<Seq<char>>::empty(),
    };
    assert(netv == c.net);
    lemma_tokens_join(a);
    let toks = ws_tokens(ja);
    assert(toks == a);
    assert(toks[0] == en);
    assert(toks[1] == c.workdir);
    assert(toks.skip(2) == wi + ri);
    lemma_strip_concat(wi, ri, "write:"@);
    lemma_strip_concat(wi, ri, "read:"@);
    lemma_strip_mapped(c.write, "write:"@);
    lemma_strip_mapped(c.read, "read:"@);
    lemma_strip_other(c.read, "read:"@, "write:"@);
    lemma_strip_other(c.write, "write:"@, "read:"@);
    assert(strip_all(toks.skip(2), "write:"@) == c.write);
    assert(strip_all(toks.skip(2), "read:"@) == c.read);
    assert((en == seq!['1']) == c.enabled) by {
        if !c.enabled {
            assert(en[0] != seq!['1'][0]);
        }
    }
    assert(split_net(s).0 == ja);
    let v = SandboxView {
        enabled: toks[0] == seq!['1'],
        workdir: toks[1],
        write: strip_all(toks.skip(2), "write:"@),
        read: strip_all(toks.skip(2), "read:"@),
        net: netv,
    };
    assert(decode_sandbox(s) == Ok::<SandboxView, Seq<char>>(v));
    assert(v =~= c);
}

// ---------------------------------------------------------------------------
// Messages
// ---------------------------------------------------------------------------

/// No space character in `s`.
pub open spec fn no_space(s: Seq<char>) -> bool {
    forall|i: int| 0 <= i < s.len() ==> s[i] != ' '
}

/// A message that decodes back to itself: besides [`message_safe`], the fields
/// that the decoder splits off at a space (all but the last field of a
/// handshake, the fields after the path in `SIG`, `DELTA` and `DATA`) hold no
/// space.
pub open spec fn message_exact(m: MessageView) -> bool {
    match m {
        MessageView::Handshake { version, os, arch } => no_space(version) && no_space(os),
        MessageView::Sig { path, sig } => no_space(sig),
        MessageView::Delta { path, delta, sha256 } => no_space(delta) && no_space(sha256),
        MessageView::Data { path, data } => no_space(data),
        MessageView::Sandbox { config } => sandbox_safe(config),
        _ => true,
    }
}

proof fn lemma_split_kw(kw: Seq<char>, rest: Seq<char>)
    requires
        no_space(kw),
    ensures
        split_once(kw + sp() + rest, ' ') == (kw, rest),
{
    let s = kw + sp() + rest;
    assert forall|j: int| 0 <= j < kw.len() implies s[j] != ' ' by {
        assert(s[j] == kw[j]);
    }
    lemma_find_char_some(s, ' ', kw.len() as int);
    assert(s.take(kw.len() as int) == kw);
    assert(s.skip(kw.len() as int + 1) == rest);
}

proof fn lemma_split_kw_alone(kw: Seq<char>)
    requires
        no_space(kw),
    ensures
        split_once(kw, ' ') == (kw, Seq::<char>::empty()),
{
    lemma_find_char_none(kw, ' ');
}

/// Splitting at a found character and joining the parts back gives the text.
proof fn lemma_rejoin(s: Seq<char>, i: int)
    requires
        0 <= i < s.len(),
        s[i] == ' ',
    ensures
        s == s.take(i) + sp() + s.skip(i + 1),
{
    assert(s =~= s.take(i) + sp() + s.skip(i + 1));
}

proof fn lemma_handshake(v: Seq<char>, o: Seq<char>, a: Seq<char>)
    ensures
        decode_handshake(v + sp() + o + sp() + a) matches Ok(
            MessageView::Handshake { version, os, arch },
        ) && version + sp() + os + sp() + arch == v + sp() + o + sp() + a && (no_space(v)
            && no_space(o) ==> version == v && os == o && arch == a),
{
    let rest = v + sp() + o + sp() + a;
    lemma_find_char_facts(rest, ' ');
    assert(rest[v.len() as int] == ' ');
    let i = find_char(rest, ' ')->0;
    assert(i <= v.len());
    let r2 = rest.skip(i + 1);
    lemma_find_char_facts(r2, ' ');
    assert(r2[v.len() + 1 + o.len() - (i + 1)] == ' ');
    let j = find_char(r2, ' ')->0;
    lemma_rejoin(rest, i);
    lemma_rejoin(r2, j);
    if no_space(v) && no_space(o) {
        assert forall|k: int| 0 <= k < v.len() implies rest[k] != ' ' by {
            assert(rest[k] == v[k]);
        }
        lemma_find_char_some(rest, ' ', v.len() as int);
        assert(r2 == o + sp() + a);
        assert forall|k: int| 0 <= k < o.len() implies r2[k] != ' ' by {
            assert(r2[k] == o[k]);
        }
        lemma_find_char_some(r2, ' ', o.len() as int);
        assert(rest.take(i) == v);
        assert(r2.take(j) == o);
        assert(r2.skip(j + 1) == a);
    }
}

/// The last space of `p + " " + x` when `x` holds none is the one after `p`.
proof fn lemma_last_space(p: Seq<char>, x: Seq<char>)
    ensures
        split_last(p + sp() + x, seq![]) matches Ok((a, b)) && a + sp() + b == p + sp() + x && (
        no_space(x) ==> a == p && b == x),
{
    let rest = p + sp() + x;
    lemma_rfind_char_facts(rest, ' ');
    assert(rest[p.len() as int] == ' ');
    let l = rfind_char(rest, ' ')->0;
    lemma_rejoin(rest, l);
    if no_space(x) {
        assert forall|k: int| p.len() < k < rest.len() implies rest[k] != ' ' by {
            assert(rest[k] == x[k - p.len() - 1]);
        }
        lemma_rfind_char_some(rest, ' ', p.len() as int);
        assert(rest.take(l) == p);
        assert(rest.skip(l + 1) == x);
    }
}

proof fn lemma_split_last_any(rest: Seq<char>, e1: Seq<char>, e2: Seq<char>)
    ensures
        split_last(rest, e1) is Ok <==> split_last(rest, e2) is Ok,
        split_last(rest, e1) is Ok ==> split_last(rest, e1) == split_last(rest, e2),
{
}

proof fn lemma_sig_like(p: Seq<char>, x: Seq<char>, e: Seq<char>)
    ensures
        split_last(p + sp() + x, e) matches Ok((a, b)) && a + sp() + b == p + sp() + x && (
        no_space(x) ==> a == p && b == x),
{
    lemma_last_space(p, x);
    lemma_split_last_any(p + sp() + x, seq![], e);
}

proof fn lemma_delta(p: Seq<char>, d: Seq<char>, h: Seq<char>)
    ensures
        decode_delta(p + sp() + d + sp() + h) matches Ok(
            MessageView::Delta { path, delta, sha256 },
        ) && path + sp() + delta + sp() + sha256 == p + sp() + d + sp() + h && (no_space(d)
            && no_space(h) ==> path == p && delta == d && sha256 == h),
{
    let rest = p + sp() + d + sp() + h;
    lemma_rfind_char_facts(rest, ' ');
    let k2: int = p.len() as int + 1 + d.len();
    assert(rest[k2] == ' ');
    let l = rfind_char(rest, ' ')->0;
    assert(l >= k2);
    lemma_rejoin(rest, l);
    let before = rest.take(l);
    lemma_rfind_char_facts(before, ' ');
    assert(before[p.len() as int] == ' ');
    let l2 = rfind_char(before, ' ')->0;
    lemma_rejoin(before, l2);
    if no_space(d) && no_space(h) {
        assert forall|k: int| k2 < k < rest.len() implies rest[k] != ' ' by {
            assert(rest[k] == h[k - k2 - 1]);
        }
        lemma_rfind_char_some(rest, ' ', k2);
        assert(before == p + sp() + d);
        assert forall|k: int| p.len() < k < before.len() implies before[k] != ' ' by {
            assert(before[k] == d[k - p.len() - 1]);
        }
        lemma_rfind_char_some(before, ' ', p.len() as int);
        assert(rest.skip(l + 1) == h);
        assert(before.take(l2) == p);
        assert(before.skip(l2 + 1) == d);
    }
}

proof fn lemma_file(p: Seq<char>, size: u64, mtime: u64)
    ensures
        decode_file(p + sp() + dec(size as nat) + sp() + dec(mtime as nat)) == Ok::<
            MessageView,
            Seq<char>,
        >(MessageView::File { path: p, size, mtime }),
{
    let ds = dec(size as nat);
    let dm = dec(mtime as nat);
    lemma_dec_digits(size as nat);
    lemma_dec_digits(mtime as nat);
    let rest = p + sp() + ds + sp() + dm;
    let k2: int = p.len() as int + 1 + ds.len();
    assert forall|k: int| k2 < k < rest.len() implies rest[k] != ' ' by {
        assert(rest[k] == dm[k - k2 - 1]);
        assert(is_digit(dm[k - k2 - 1]));
    }
    lemma_rfind_char_some(rest, ' ', k2);
    let before = rest.take(k2);
    assert(before == p + sp() + ds);
    assert forall|k: int| p.len() < k < before.len() implies before[k] != ' ' by {
        assert(before[k] == ds[k - p.len() - 1]);
        assert(is_digit(ds[k - p.len() - 1]));
    }
    lemma_rfind_char_some(before, ' ', p.len() as int);
    assert(rest.skip(k2 + 1) == dm);
    assert(before.take(p.len() as int) == p);
    assert(before.skip(p.len() as int + 1) == ds);
    lemma_parse_dec(size as nat, u64::MAX as nat);
    lemma_parse_dec(mtime as nat, u64::MAX as nat);
}

proof fn reveal_keywords()
    ensures
        no_space("HANDSHAKE"@),
        no_space("LIST"@),
        no_space("FILE"@),
        no_space("END_LIST"@),
        no_space("SKIP"@),
        no_space("DELETE"@),
        no_space("DELTA_REQUEST"@),
        no_space("END_SIGS_REQUEST"@),
        no_space("SIG"@),
        no_space("END_SIGS"@),
        no_space("DELTA"@),
        no_space("DATA"@),
        no_space("END_SYNC"@),
        no_space("SANDBOX"@),
        no_space("RUN"@),
        no_space("ERROR"@),
        no_space("OK"@),
{
    reveal_strlit("HANDSHAKE");
    reveal_strlit("LIST");
    reveal_strlit("FILE");
    reveal_strlit("END_LIST");
    reveal_strlit("SKIP");
    reveal_strlit("DELETE");
    reveal_strlit("DELTA_REQUEST");
    reveal_strlit("END_SIGS_REQUEST");
    reveal_strlit("SIG");
    reveal_strlit("END_SIGS");
    reveal_strlit("DELTA");
    reveal_strlit("DATA");
    reveal_strlit("END_SYNC");
    reveal_strlit("SANDBOX");
    reveal_strlit("RUN");
    reveal_strlit("ERROR");
    reveal_strlit("OK");
}

proof fn lemma_decode_handshake(m: MessageView)
    requires
        m matches MessageView::Handshake { .. },
        message_safe(m),
    ensures
        decode_message(encode_message(m)) matches Ok(m2) && encode_message(m2) == encode_message(
            m,
        ) && (message_exact(m) ==> m2 == m),
{
    reveal_keywords();
    reveal_strlit("HANDSHAKE");
    match m {
        MessageView::Handshake { version, os, arch } => {
            let rest = version + sp() + os + sp() + arch;
            lemma_split_kw("HANDSHAKE"@, rest);
            assert(encode_message(m) == "HANDSHAKE"@ + sp() + rest);
            lemma_handshake(version, os, arch);
        },
        _ => {},
    }
}

proof fn lemma_decode_list(m: MessageView)
    requires
        m matches MessageView::List,
        message_safe(m),
    ensures
        decode_message(encode_message(m)) matches Ok(m2) && encode_message(m2) == encode_message(
            m,
        ) && (message_exact(m) ==> m2 == m),
{
    reveal_keywords();
    reveal_strlit("HANDSHAKE");
    reveal_strlit("LIST");
    match m {
        MessageView::List => {
            lemma_split_kw_alone("LIST"@);
        },
        _ => {},
    }
}

proof fn lemma_decode_file(m: MessageView)
    requires
        m matches MessageView::File { .. },
        message_safe(m),
    ensures
        decode_message(encode_message(m)) matches Ok(m2) && encode_message(m2) == encode_message(
            m,
        ) && (message_exact(m) ==> m2 == m),
{
    reveal_keywords();
    reveal_strlit("HANDSHAKE");
    reveal_strlit("LIST");
    reveal_strlit("FILE");
    match m {
        MessageView::File { path, size, mtime } => {
            let rest = path + sp() + dec(size as nat) + sp() + dec(mtime as nat);
            lemma_split_kw("FILE"@, rest);
            assert(encode_message(m) == "FILE"@ + sp() + rest);
            lemma_file(path, size, mtime);
        },
        _ => {},
    }
}

proof fn lemma_decode_end_list(m: MessageView)
    requires
        m matches MessageView::EndList,
        message_safe(m),
    ensures
        decode_message(encode_message(m)) matches Ok(m2) && encode_message(m2) == encode_message(
            m,
        ) && (message_exact(m) ==> m2 == m),
{
    reveal_keywords();
    reveal_strlit("HANDSHAKE");
    reveal_strlit("LIST");
    reveal_strlit("FILE");
    reveal_strlit("END_LIST");
    match m {
        MessageView::EndList => {
            lemma_split_kw_alone("END_LIST"@);
        },
        _ => {},
    }
}

proof fn lemma_decode_skip(m: MessageView)
    requires
        m matches MessageView::Skip { .. },
        message_safe(m),
    ensures
        decode_message(encode_message(m)) matches Ok(m2) && encode_message(m2) == encode_message(
            m,
        ) && (message_exact(m) ==> m2 == m),
{
    reveal_keywords();
    reveal_strlit("HANDSHAKE");
    reveal_strlit("LIST");
    reveal_strlit("FILE");
    reveal_strlit("END_LIST");
    reveal_strlit("SKIP");
    match m {
        MessageView::Skip { path } => {
            lemma_split_kw("SKIP"@, path);
        },
        _ => {},
    }
}

proof fn lemma_decode_delete(m: MessageView)
    requires
        m matches MessageView::Delete { .. },
        message_safe(m),
    ensures
        decode_message(encode_message(m)) matches Ok(m2) && encode_message(m2) == encode_message(
            m,
        ) && (message_exact(m) ==> m2 == m),
{
    reveal_keywords();
    reveal_strlit("HANDSHAKE");
    reveal_strlit("LIST");
    reveal_strlit("FILE");
    reveal_strlit("END_LIST");
    reveal_strlit("SKIP");
    reveal_strlit("DELETE");
    match m {
        MessageView::Delete { path } => {
            lemma_split_kw("DELETE"@, path);
        },
        _ => {},
    }
}

proof fn lemma_decode_delta_request(m: MessageView)
    requires
        m matches MessageView::DeltaRequest { .. },
        message_safe(m),
    ensures
        decode_message(encode_message(m)) matches Ok(m2) && encode_message(m2) == encode_message(
            m,
        ) && (message_exact(m) ==> m2 == m),
{
    reveal_keywords();
    reveal_strlit("HANDSHAKE");
    reveal_strlit("LIST");
    reveal_strlit("FILE");
    reveal_strlit("END_LIST");
    reveal_strlit("SKIP");
    reveal_strlit("DELETE");
    reveal_strlit("DELTA_REQUEST");
    match m {
        MessageView::DeltaRequest { path } => {
            lemma_split_kw("DELTA_REQUEST"@, path);
        },
        _ => {},
    }
}

proof fn lemma_decode_end_sigs_request(m: MessageView)
    requires
        m matches MessageView::EndSigsRequest,
        message_safe(m),
    ensures
        decode_message(encode_message(m)) matches Ok(m2) && encode_message(m2) == encode_message(
            m,
        ) && (message_exact(m) ==> m2 == m),
{
    reveal_keywords();
    reveal_strlit("HANDSHAKE");
    reveal_strlit("LIST");
    reveal_strlit("FILE");
    reveal_strlit("END_LIST");
    reveal_strlit("SKIP");
    reveal_strlit("DELETE");
    reveal_strlit("DELTA_REQUEST");
    reveal_strlit("END_SIGS_REQUEST");
    match m {
        MessageView::EndSigsRequest => {
            lemma_split_kw_alone("END_SIGS_REQUEST"@);
        },
        _ => {},
    }
}

proof fn lemma_decode_sig(m: MessageView)
    requires
        m matches MessageView::Sig { .. },
        message_safe(m),
    ensures
        decode_message(encode_message(m)) matches Ok(m2) && encode_message(m2) == encode_message(
            m,
        ) && (message_exact(m) ==> m2 == m),
{
    reveal_keywords();
    reveal_strlit("HANDSHAKE");
    reveal_strlit("LIST");
    reveal_strlit("FILE");
    reveal_strlit("END_LIST");
    reveal_strlit("SKIP");
    reveal_strlit("DELETE");
    reveal_strlit("DELTA_REQUEST");
    reveal_strlit("END_SIGS_REQUEST");
    reveal_strlit("SIG");
    match m {
        MessageView::Sig { path, sig } => {
            let rest = path + sp() + sig;
            lemma_split_kw("SIG"@, rest);
            assert(encode_message(m) == "SIG"@ + sp() + rest);
            lemma_sig_like(path, sig, "invalid SIG"@);
        },
        _ => {},
    }
}

proof fn lemma_decode_end_sigs(m: MessageView)
    requires
        m matches MessageView::EndSigs,
        message_safe(m),
    ensures
        decode_message(encode_message(m)) matches Ok(m2) && encode_message(m2) == encode_message(
            m,
        ) && (message_exact(m) ==> m2 == m),
{
    reveal_keywords();
    reveal_strlit("HANDSHAKE");
    reveal_strlit("LIST");
    reveal_strlit("FILE");
    reveal_strlit("END_LIST");
    reveal_strlit("SKIP");
    reveal_strlit("DELETE");
    reveal_strlit("DELTA_REQUEST");
    reveal_strlit("END_SIGS_REQUEST");
    reveal_strlit("SIG");
    reveal_strlit("END_SIGS");
    match m {
        MessageView::EndSigs => {
            lemma_split_kw_alone("END_SIGS"@);
            assert("END_SIGS"@ != "END_SIGS_REQUEST"@) by {
                assert("END_SIGS"@.len() != "END_SIGS_REQUEST"@.len());
            }
            assert("END_SIGS"@ != "END_LIST"@) by {
                assert("END_SIGS"@[4] != "END_LIST"@[4]);
            }
        },
        _ => {},
    }
}

proof fn lemma_dispatch_delta(rest: Seq<char>)
    ensures
        decode_message("DELTA"@ + sp() + rest) == decode_delta(rest),
{
    reveal_keywords();
    reveal_strlit("HANDSHAKE");
    reveal_strlit("LIST");
    reveal_strlit("FILE");
    reveal_strlit("END_LIST");
    reveal_strlit("SKIP");
    reveal_strlit("DELETE");
    reveal_strlit("DELTA_REQUEST");
    reveal_strlit("END_SIGS_REQUEST");
    reveal_strlit("SIG");
    reveal_strlit("END_SIGS");
    reveal_strlit("DELTA");
    lemma_split_kw("DELTA"@, rest);
}

proof fn lemma_decode_delta(m: MessageView)
    requires
        m matches MessageView::Delta { .. },
        message_safe(m),
    ensures
        decode_message(encode_message(m)) matches Ok(m2) && encode_message(m2) == encode_message(
            m,
        ) && (message_exact(m) ==> m2 == m),
{
    match m {
        MessageView::Delta { path, delta, sha256 } => {
            let rest = path + sp() + delta + sp() + sha256;
            lemma_dispatch_delta(rest);
            assert(encode_message(m) == "DELTA"@ + sp() + rest);
            lemma_delta(path, delta, sha256);
        },
        _ => {},
    }
}

proof fn lemma_dispatch_data(rest: Seq<char>)
    ensures
        decode_message("DATA"@ + sp() + rest) == decode_data(rest),
{
    reveal_keywords();
    reveal_strlit("HANDSHAKE");
    reveal_strlit("LIST");
    reveal_strlit("FILE");
    reveal_strlit("END_LIST");
    reveal_strlit("SKIP");
    reveal_strlit("DELETE");
    reveal_strlit("DELTA_REQUEST");
    reveal_strlit("END_SIGS_REQUEST");
    reveal_strlit("SIG");
    reveal_strlit("END_SIGS");
    reveal_strlit("DELTA");
    reveal_strlit("DATA");
    lemma_split_kw("DATA"@, rest);
}

proof fn lemma_decode_data(m: MessageView)
    requires
        m matches MessageView::Data { .. },
        message_safe(m),
    ensures
        decode_message(encode_message(m)) matches Ok(m2) && encode_message(m2) == encode_message(
            m,
        ) && (message_exact(m) ==> m2 == m),
{
    match m {
        MessageView::Data { path, data } => {
            let rest = path + sp() + data;
            lemma_dispatch_data(rest);
            assert(encode_message(m) == "DATA"@ + sp() + rest);
            lemma_sig_like(path, data, "invalid DATA"@);
        },
        _ => {},
    }
}

proof fn lemma_decode_end_sync(m: MessageView)
    requires
        m matches MessageView::EndSync,
        message_safe(m),
    ensures
        decode_message(encode_message(m)) matches Ok(m2) && encode_message(m2) == encode_message(
            m,
        ) && (message_exact(m) ==> m2 == m),
{
    reveal_keywords();
    reveal_strlit("HANDSHAKE");
    reveal_strlit("LIST");
    reveal_strlit("FILE");
    reveal_strlit("END_LIST");
    reveal_strlit("SKIP");
    reveal_strlit("DELETE");
    reveal_strlit("DELTA_REQUEST");
    reveal_strlit("END_SIGS_REQUEST");
    reveal_strlit("SIG");
    reveal_strlit("END_SIGS");
    reveal_strlit("DELTA");
    reveal_strlit("DATA");
    reveal_strlit("END_SYNC");
    match m {
        MessageView::EndSync => {
            lemma_split_kw_alone("END_SYNC"@);
            assert("END_SYNC"@ != "END_SIGS_REQUEST"@) by {
                assert("END_SYNC"@.len() != "END_SIGS_REQUEST"@.len());
            }
            assert("END_SYNC"@ != "END_LIST"@) by {
                assert("END_SYNC"@[4] != "END_LIST"@[4]);
            }
            assert("END_SYNC"@ != "END_SIGS"@) by {
                assert("END_SYNC"@[5] != "END_SIGS"@[5]);
            }
        },
        _ => {},
    }
}

proof fn lemma_decode_sandbox(m: MessageView)
    requires
        m matches MessageView::Sandbox { .. },
        message_safe(m),
    ensures
        decode_message(encode_message(m)) matches Ok(m2) && encode_message(m2) == encode_message(
            m,
        ) && (message_exact(m) ==> m2 == m),
{
    reveal_keywords();
    reveal_strlit("HANDSHAKE");
    reveal_strlit("LIST");
    reveal_strlit("FILE");
    reveal_strlit("END_LIST");
    reveal_strlit("SKIP");
    reveal_strlit("DELETE");
    reveal_strlit("DELTA_REQUEST");
    reveal_strlit("END_SIGS_REQUEST");
    reveal_strlit("SIG");
    reveal_strlit("END_SIGS");
    reveal_strlit("DELTA");
    reveal_strlit("DATA");
    reveal_strlit("END_SYNC");
    reveal_strlit("SANDBOX");
    match m {
        MessageView::Sandbox { config } => {
            lemma_split_kw("SANDBOX"@, encode_sandbox(config));
            lemma_sandbox_roundtrip(config);
        },
        _ => {},
    }
}

proof fn lemma_decode_run(m: MessageView)
    requires
        m matches MessageView::Run { .. },
        message_safe(m),
    ensures
        decode_message(encode_message(m)) matches Ok(m2) && encode_message(m2) == encode_message(
            m,
        ) && (message_exact(m) ==> m2 == m),
{
    reveal_keywords();
    reveal_strlit("HANDSHAKE");
    reveal_strlit("LIST");
    reveal_strlit("FILE");
    reveal_strlit("END_LIST");
    reveal_strlit("SKIP");
    reveal_strlit("DELETE");
    reveal_strlit("DELTA_REQUEST");
    reveal_strlit("END_SIGS_REQUEST");
    reveal_strlit("SIG");
    reveal_strlit("END_SIGS");
    reveal_strlit("DELTA");
    reveal_strlit("DATA");
    reveal_strlit("END_SYNC");
    reveal_strlit("SANDBOX");
    reveal_strlit("RUN");
    match m {
        MessageView::Run { command } => {
            lemma_split_kw("RUN"@, command);
        },
        _ => {},
    }
}

proof fn lemma_decode_error(m: MessageView)
    requires
        m matches MessageView::Error { .. },
        message_safe(m),
    ensures
        decode_message(encode_message(m)) matches Ok(m2) && encode_message(m2) == encode_message(
            m,
        ) && (message_exact(m) ==> m2 == m),
{
    reveal_keywords();
    reveal_strlit("HANDSHAKE");
    reveal_strlit("LIST");
    reveal_strlit("FILE");
    reveal_strlit("END_LIST");
    reveal_strlit("SKIP");
    reveal_strlit("DELETE");
    reveal_strlit("DELTA_REQUEST");
    reveal_strlit("END_SIGS_REQUEST");
    reveal_strlit("SIG");
    reveal_strlit("END_SIGS");
    reveal_strlit("DELTA");
    reveal_strlit("DATA");
    reveal_strlit("END_SYNC");
    reveal_strlit("SANDBOX");
    reveal_strlit("RUN");
    reveal_strlit("ERROR");
    match m {
        MessageView::Error { msg } => {
            lemma_split_kw("ERROR"@, msg);
        },
        _ => {},
    }
}

proof fn lemma_decode_ok(m: MessageView)
    requires
        m matches MessageView::Okay,
        message_safe(m),
    ensures
        decode_message(encode_message(m)) matches Ok(m2) && encode_message(m2) == encode_message(
            m,
        ) && (message_exact(m) ==> m2 == m),
{
    reveal_keywords();
    reveal_strlit("HANDSHAKE");
    reveal_strlit("LIST");
    reveal_strlit("FILE");
    reveal_strlit("END_LIST");
    reveal_strlit("SKIP");
    reveal_strlit("DELETE");
    reveal_strlit("DELTA_REQUEST");
    reveal_strlit("END_SIGS_REQUEST");
    reveal_strlit("SIG");
    reveal_strlit("END_SIGS");
    reveal_strlit("DELTA");
    reveal_strlit("DATA");
    reveal_strlit("END_SYNC");
    reveal_strlit("SANDBOX");
    reveal_strlit("RUN");
    reveal_strlit("ERROR");
    reveal_strlit("OK");
    match m {
        MessageView::Okay => {
            lemma_split_kw_alone("OK"@);
        },
        _ => {},
    }
}

/// The result of decoding the text of `m`.
proof fn lemma_decode_parts(m: MessageView)
    requires
        message_safe(m),
    ensures
        decode_message(encode_message(m)) matches Ok(m2) && encode_message(m2) == encode_message(
            m,
        ) && (message_exact(m) ==> m2 == m),
{
    match m {
        MessageView::Handshake { .. } => lemma_decode_handshake(m),
        MessageView::List => lemma_decode_list(m),
        MessageView::File { .. } => lemma_decode_file(m),
        MessageView::EndList => lemma_decode_end_list(m),
        MessageView::Skip { .. } => lemma_decode_skip(m),
        MessageView::Delete { .. } => lemma_decode_delete(m),
        MessageView::DeltaRequest { .. } => lemma_decode_delta_request(m),
        MessageView::EndSigsRequest => lemma_decode_end_sigs_request(m),
        MessageView::Sig { .. } => lemma_decode_sig(m),
        MessageView::EndSigs => lemma_decode_end_sigs(m),
        MessageView::Delta { .. } => lemma_decode_delta(m),
        MessageView::Data { .. } => lemma_decode_data(m),
        MessageView::EndSync => lemma_decode_end_sync(m),
        MessageView::Sandbox { .. } => lemma_decode_sandbox(m),
        MessageView::Run { .. } => lemma_decode_run(m),
        MessageView::Error { .. } => lemma_decode_error(m),
        MessageView::Okay => lemma_decode_ok(m),
    }
}

/// Decoding the text form of a [`message_safe`] message succeeds and gives a
/// message with the same text form; for a [`message_exact`] message it gives
/// the message itself.
pub proof fn lemma_message_roundtrip(m: MessageView)
    requires
        message_safe(m),
    ensures
        decode_message(encode_message(m)) matches Ok(m2) && encode_message(m2) == encode_message(
            m,
        ),
        message_exact(m) ==> decode_message(encode_message(m)) == Ok::<MessageView, Seq<char>>(m),
{
    lemma_decode_parts(m);
}

} // verus!
