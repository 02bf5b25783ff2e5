//! The parentheses of a Seatbelt profile balance: the profile is one
//! parenthesised list, and each rule in it is closed before the next opens.
use vstd::prelude::*;

use crate::confine::{allow_rule, escape_spec, net_rules, read_rules, seatbelt_profile, write_rules};
use crate::num::{dec, digit_char};
use crate::protocol::SandboxView;
use crate::text::{find_sub, replace_all};

verus! {

/// What a character adds to the nesting depth.
pub open spec fn paren_step(c: char) -> int {
    if c == '(' {
        1
    } else if c == ')' {
        -1
    } else {
        0
    }
}

/// The nesting depth after reading `s`: the opening parentheses less the
/// closing ones.
pub open spec fn depth(s: Seq<char>) -> int
    decreases s.len(),
{
    if s.len() == 0 {
        0
    } else {
        depth(s.drop_last()) + paren_step(s.last())
    }
}

/// Every `)` closes an earlier `(`, and every `(` is closed.
pub open spec fn balanced(s: Seq<char>) -> bool {
    &&& depth(s) == 0
    &&& forall|i: int| 0 <= i <= s.len() ==> depth(#[trigger] s.take(i)) >= 0
}

/// `s` holds no parenthesis.
pub open spec fn paren_free(s: Seq<char>) -> bool {
    forall|i: int| 0 <= i < s.len() ==> #[trigger] s[i] != '(' && s[i] != ')'
}

/// `s` in a pair of parentheses.
pub open spec fn wrap(s: Seq<char>) -> Seq<char> {
    seq!['('] + s + seq![')']
}

proof fn lemma_depth_concat(a: Seq<char>, b: Seq<char>)
    ensures
        depth(a + b) == depth(a) + depth(b),
    decreases b.len(),
{
    if b.len() == 0 {
        assert(a + b =~= a);
    } else {
        lemma_depth_concat(a, b.drop_last());
        assert((a + b).drop_last() =~= a + b.drop_last());
        assert((a + b).last() == b.last());
    }
}

proof fn lemma_paren_free_depth(s: Seq<char>)
    requires
        paren_free(s),
    ensures
        depth(s) == 0,
    decreases s.len(),
{
    if s.len() > 0 {
        let t = s.drop_last();
        assert forall|i: int| 0 <= i < t.len() implies #[trigger] t[i] != '(' && t[i] != ')' by {
            assert(t[i] == s[i]);
        }
        lemma_paren_free_depth(t);
        assert(s[s.len() - 1] != '(' && s[s.len() - 1] != ')');
    }
}

proof fn lemma_paren_free_balanced(s: Seq<char>)
    requires
        paren_free(s),
    ensures
        balanced(s),
{
    lemma_paren_free_depth(s);
    assert forall|i: int| 0 <= i <= s.len() implies depth(#[trigger] s.take(i)) >= 0 by {
        let t = s.take(i);
        assert forall|j: int| 0 <= j < t.len() implies #[trigger] t[j] != '(' && t[j] != ')' by {
            assert(t[j] == s[j]);
        }
        lemma_paren_free_depth(t);
    }
}

proof fn lemma_concat_balanced(a: Seq<char>, b: Seq<char>)
    requires
        balanced(a),
        balanced(b),
    ensures
        balanced(a + b),
{
    lemma_depth_concat(a, b);
    assert forall|i: int| 0 <= i <= (a + b).len() implies depth(#[trigger] (a + b).take(i)) >= 0 by {
        if i <= a.len() {
            assert((a + b).take(i) =~= a.take(i));
        } else {
            let k = i - a.len();
            assert((a + b).take(i) =~= a + b.take(k));
            assert(a.take(a.len() as int) =~= a);
            lemma_depth_concat(a, b.take(k));
        }
    }
}

proof fn lemma_wrap_balanced(s: Seq<char>)
    requires
        balanced(s),
    ensures
        balanced(wrap(s)),
{
    let o = seq!['('];
    let c = seq![')'];
    lemma_depth_concat(o + s, c);
    lemma_depth_concat(o, s);
    assert(depth(o) == 1) by {
        assert(o.drop_last() =~= Seq::<char>::empty());
        assert(depth(Seq::<char>::empty()) == 0);
        assert(o.last() == '(');
    }
    assert(depth(c) == -1) by {
        assert(c.drop_last() =~= Seq::<char>::empty());
        assert(depth(Seq::<char>::empty()) == 0);
        assert(c.last() == ')');
    }
    let w = wrap(s);
    assert forall|i: int| 0 <= i <= w.len() implies depth(#[trigger] w.take(i)) >= 0 by {
        if i == 0 {
            assert(w.take(0) =~= Seq::<char>::empty());
        } else if i <= s.len() + 1 {
            assert(w.take(i) =~= o + s.take(i - 1));
            lemma_depth_concat(o, s.take(i - 1));
        } else {
            assert(w.take(i) =~= w);
        }
    }
}

proof fn lemma_concat_paren_free(a: Seq<char>, b: Seq<char>)
    requires
        paren_free(a),
        paren_free(b),
    ensures
        paren_free(a + b),
{
    assert forall|i: int| 0 <= i < (a + b).len() implies #[trigger] (a + b)[i] != '(' && (a
        + b)[i] != ')' by {
        if i < a.len() {
            assert((a + b)[i] == a[i]);
        } else {
            assert((a + b)[i] == b[i - a.len()]);
        }
    }
}

proof fn lemma_replace_paren_free(s: Seq<char>, p: Seq<char>, r: Seq<char>)
    requires
        paren_free(s),
        paren_free(r),
    ensures
        paren_free(replace_all(s, p, r)),
    decreases s.len(),
{
    if p.len() > 0 {
        match find_sub(s, p) {
            None => {},
            Some(i) => {
                if i + p.len() <= s.len() && 0 <= i {
                    let rest = s.skip(i + p.len());
                    assert forall|j: int| 0 <= j < rest.len() implies #[trigger] rest[j] != '('
                        && rest[j] != ')' by {
                        assert(rest[j] == s[j + i + p.len()]);
                    }
                    lemma_replace_paren_free(rest, p, r);
                    let head = s.take(i);
                    assert forall|j: int| 0 <= j < head.len() implies #[trigger] head[j] != '('
                        && head[j] != ')' by {
                        assert(head[j] == s[j]);
                    }
                    lemma_concat_paren_free(head, r);
                    lemma_concat_paren_free(head + r, replace_all(rest, p, r));
                }
            },
        }
    }
}

proof fn lemma_dec_paren_free(n: nat)
    ensures
        paren_free(dec(n)),
    decreases n,
{
    if n >= 10 {
        lemma_dec_paren_free(n / 10);
        let d = dec(n / 10);
        assert(digit_char(n % 10) != '(' && digit_char(n % 10) != ')');
        assert forall|i: int| 0 <= i < d.push(digit_char(n % 10)).len() implies #[trigger] d.push(
            digit_char(n % 10),
        )[i] != '(' && d.push(digit_char(n % 10))[i] != ')' by {
            if i < d.len() {
                assert(d.push(digit_char(n % 10))[i] == d[i]);
            }
        }
    } else {
        assert(digit_char(n) != '(' && digit_char(n) != ')');
        assert(seq![digit_char(n)][0] == digit_char(n));
    }
}

/// A rule `  (allow <what> (subpath "<p>"))` is balanced when `what` and `p`
/// hold no parenthesis.
proof fn lemma_allow_rule_balanced(what: Seq<char>, p: Seq<char>)
    requires
        paren_free(what),
        paren_free(p),
    ensures
        balanced(allow_rule(what, p)),
{
    reveal_strlit("  (allow ");
    reveal_strlit(" (subpath \"");
    reveal_strlit("\"))\n");
    let q = seq!['"'];
    let e = escape_spec(p);
    lemma_replace_paren_free(p, seq!['\\'], seq!['\\', '\\']);
    lemma_replace_paren_free(replace_all(p, seq!['\\'], seq!['\\', '\\']), seq!['"'], seq!['\\', '"']);
    // subpath "<e>"
    let sub = seq!['s', 'u', 'b', 'p', 'a', 't', 'h', ' ', '"'] + e + q;
    lemma_concat_paren_free(seq!['s', 'u', 'b', 'p', 'a', 't', 'h', ' ', '"'], e);
    lemma_concat_paren_free(seq!['s', 'u', 'b', 'p', 'a', 't', 'h', ' ', '"'] + e, q);
    lemma_paren_free_balanced(sub);
    lemma_wrap_balanced(sub);
    // allow <what> (subpath "<e>")
    let pre = seq!['a', 'l', 'l', 'o', 'w', ' '] + what + seq![' '];
    lemma_concat_paren_free(seq!['a', 'l', 'l', 'o', 'w', ' '], what);
    lemma_concat_paren_free(seq!['a', 'l', 'l', 'o', 'w', ' '] + what, seq![' ']);
    lemma_paren_free_balanced(pre);
    lemma_concat_balanced(pre, wrap(sub));
    lemma_wrap_balanced(pre + wrap(sub));
    let sp = seq![' ', ' '];
    let nl = seq!['\n'];
    lemma_paren_free_balanced(sp);
    lemma_paren_free_balanced(nl);
    lemma_concat_balanced(sp, wrap(pre + wrap(sub)));
    lemma_concat_balanced(sp + wrap(pre + wrap(sub)), nl);
    assert(allow_rule(what, p) =~= sp + wrap(pre + wrap(sub)) + nl);
}

proof fn lemma_read_rules_balanced(ps: Seq<Seq<char>>)
    requires
        forall|i: int| 0 <= i < ps.len() ==> paren_free(#[trigger] ps[i]),
    ensures
        balanced(read_rules(ps)),
    decreases ps.len(),
{
    reveal_strlit("file-read*");
    if ps.len() == 0 {
        lemma_paren_free_balanced(Seq::empty());
    } else {
        let t = ps.drop_last();
        assert forall|i: int| 0 <= i < t.len() implies paren_free(#[trigger] t[i]) by {
            assert(t[i] == ps[i]);
        }
        lemma_read_rules_balanced(t);
        assert(paren_free(ps[ps.len() - 1]));
        lemma_allow_rule_balanced("file-read*"@, ps.last());
        lemma_concat_balanced(read_rules(t), allow_rule("file-read*"@, ps.last()));
    }
}

proof fn lemma_write_rules_balanced(ps: Seq<Seq<char>>)
    requires
        forall|i: int| 0 <= i < ps.len() ==> paren_free(#[trigger] ps[i]),
    ensures
        balanced(write_rules(ps)),
    decreases ps.len(),
{
    reveal_strlit("file-read*");
    reveal_strlit("file-write*");
    if ps.len() == 0 {
        lemma_paren_free_balanced(Seq::empty());
    } else {
        let t = ps.drop_last();
        assert forall|i: int| 0 <= i < t.len() implies paren_free(#[trigger] t[i]) by {
            assert(t[i] == ps[i]);
        }
        lemma_write_rules_balanced(t);
        assert(paren_free(ps[ps.len() - 1]));
        lemma_allow_rule_balanced("file-read*"@, ps.last());
        lemma_allow_rule_balanced("file-write*"@, ps.last());
        lemma_concat_balanced(write_rules(t), allow_rule("file-read*"@, ps.last()));
        lemma_concat_balanced(
            write_rules(t) + allow_rule("file-read*"@, ps.last()),
            allow_rule("file-write*"@, ps.last()),
        );
    }
}

/// `  (allow network-outbound ` as the start of a rule.
spec fn outbound() -> Seq<char> {
    seq!['a', 'l', 'l', 'o', 'w', ' ', 'n', 'e', 't', 'w', 'o', 'r', 'k', '-', 'o', 'u', 't', 'b',
        'o', 'u', 'n', 'd', ' ']
}

/// A rule `  (<head> (<tail>))` and a newline is balanced when `head` and
/// `tail` hold no parenthesis.
proof fn lemma_nested_rule_balanced(head: Seq<char>, tail: Seq<char>)
    requires
        paren_free(head),
        paren_free(tail),
    ensures
        balanced(seq![' ', ' '] + wrap(head + wrap(tail)) + seq!['\n']),
{
    let sp = seq![' ', ' '];
    let nl = seq!['\n'];
    lemma_paren_free_balanced(sp);
    lemma_paren_free_balanced(nl);
    lemma_paren_free_balanced(head);
    lemma_paren_free_balanced(tail);
    lemma_wrap_balanced(tail);
    lemma_concat_balanced(head, wrap(tail));
    lemma_wrap_balanced(head + wrap(tail));
    lemma_concat_balanced(sp, wrap(head + wrap(tail)));
    lemma_concat_balanced(sp + wrap(head + wrap(tail)), nl);
}

#[verifier::rlimit(40)]
proof fn lemma_proxy_tcp_rule_balanced(port: u16)
    ensures
        balanced("  (allow network-outbound (remote ip \"127.0.0.1:"@ + dec(port as nat)
            + "\"))\n"@),
{
    reveal_strlit("  (allow network-outbound (remote ip \"127.0.0.1:");
    reveal_strlit("\"))\n");
    let d = dec(port as nat);
    lemma_dec_paren_free(port as nat);
    let ip = seq!['r', 'e', 'm', 'o', 't', 'e', ' ', 'i', 'p', ' ', '"', '1', '2', '7', '.', '0',
        '.', '0', '.', '1', ':'];
    let q = seq!['"'];
    let a = "  (allow network-outbound (remote ip \"127.0.0.1:"@;
    let b = "\"))\n"@;
    assert(a =~= seq![' ', ' ', '('] + outbound() + seq!['('] + ip);
    assert(b =~= q + seq![')', ')', '\n']);
    lemma_concat_paren_free(ip, d);
    lemma_concat_paren_free(ip + d, q);
    lemma_nested_rule_balanced(outbound(), ip + d + q);
    assert(a + d + b =~= seq![' ', ' '] + wrap(outbound() + wrap(ip + d + q)) + seq!['\n']);
}

proof fn lemma_net_rules_balanced(net: Seq<Seq<char>>, proxy_port: Option<u16>)
    ensures
        balanced(net_rules(net, proxy_port)),
{
    match proxy_port {
        Some(port) => {
            reveal_strlit("  (allow network-outbound (remote udp))\n");
            let udp = seq!['r', 'e', 'm', 'o', 't', 'e', ' ', 'u', 'd', 'p'];
            lemma_nested_rule_balanced(outbound(), udp);
            assert("  (allow network-outbound (remote udp))\n"@ =~= seq![' ', ' '] + wrap(
                outbound() + wrap(udp),
            ) + seq!['\n']);
            lemma_proxy_tcp_rule_balanced(port);
            lemma_concat_balanced(
                "  (allow network-outbound (remote ip \"127.0.0.1:"@ + dec(port as nat)
                    + "\"))\n"@,
                "  (allow network-outbound (remote udp))\n"@,
            );
        },
        None => {
            if net.len() > 0 {
                reveal_strlit("  (allow network* (remote tcp))\n");
                let any = seq!['a', 'l', 'l', 'o', 'w', ' ', 'n', 'e', 't', 'w', 'o', 'r', 'k', '*',
                    ' '];
                let tcp = seq!['r', 'e', 'm', 'o', 't', 'e', ' ', 't', 'c', 'p'];
                lemma_nested_rule_balanced(any, tcp);
                assert("  (allow network* (remote tcp))\n"@ =~= seq![' ', ' '] + wrap(
                    any + wrap(tcp),
                ) + seq!['\n']);
            } else {
                lemma_paren_free_balanced(Seq::empty());
            }
        },
    }
}

/// The start of the profile: its opening parenthesis, then the version and
/// the default rule, each closed on its own line.
proof fn lemma_profile_head() -> (head: Seq<char>)
    ensures
        "(\n(version 1)\n(deny default)\n"@ == seq!['('] + head,
        balanced(head),
{
    reveal_strlit("(\n(version 1)\n(deny default)\n");
    let nl = seq!['\n'];
    let version = seq!['v', 'e', 'r', 's', 'i', 'o', 'n', ' ', '1'];
    let deny = seq!['d', 'e', 'n', 'y', ' ', 'd', 'e', 'f', 'a', 'u', 'l', 't'];
    lemma_paren_free_balanced(nl);
    lemma_paren_free_balanced(version);
    lemma_paren_free_balanced(deny);
    lemma_wrap_balanced(version);
    lemma_wrap_balanced(deny);
    let head = nl + wrap(version) + nl + wrap(deny) + nl;
    lemma_concat_balanced(nl, wrap(version));
    lemma_concat_balanced(nl + wrap(version), nl);
    lemma_concat_balanced(nl + wrap(version) + nl, wrap(deny));
    lemma_concat_balanced(nl + wrap(version) + nl + wrap(deny), nl);
    assert("(\n(version 1)\n(deny default)\n"@ =~= seq!['('] + head);
    head
}

/// Where no readable or writable path holds a parenthesis, the parentheses
/// of the Seatbelt profile balance: the profile is one list, opened by its
/// first character and closed by its last.
pub proof fn seatbelt_profile_balanced(c: SandboxView, proxy_port: Option<u16>)
    requires
        forall|i: int| 0 <= i < c.read.len() ==> paren_free(#[trigger] c.read[i]),
        forall|i: int| 0 <= i < c.write.len() ==> paren_free(#[trigger] c.write[i]),
    ensures
        balanced(seatbelt_profile(c, proxy_port)),
        seatbelt_profile(c, proxy_port)[0] == '(',
        seatbelt_profile(c, proxy_port).last() == ')',
{
    let head = lemma_profile_head();
    let r = read_rules(c.read);
    let w = write_rules(c.write);
    let n = net_rules(c.net, proxy_port);
    lemma_read_rules_balanced(c.read);
    lemma_write_rules_balanced(c.write);
    lemma_net_rules_balanced(c.net, proxy_port);
    lemma_concat_balanced(r, w);
    lemma_concat_balanced(r + w, n);
    lemma_concat_balanced(head, r + w + n);
    lemma_wrap_balanced(head + (r + w + n));
    assert(seatbelt_profile(c, proxy_port) =~= wrap(head + (r + w + n)));
}

} // verus!
