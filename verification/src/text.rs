//! Character-sequence helpers shared by the protocol and the command builders.
//! Strings are handled as sequences of `char`; every helper states its result
//! over those sequences.
use vstd::prelude::*;

use crate::ext::push_char;

verus! {

// ---------------------------------------------------------------------------
// Specifications
// ---------------------------------------------------------------------------

/// Unicode `White_Space`, the set that `char::is_whitespace` tests.
pub open spec fn is_ws(c: char) -> bool {
    let u = c as u32;
    ||| (0x09 <= u && u <= 0x0d)
    ||| u == 0x20
    ||| u == 0x85
    ||| u == 0xa0
    ||| u == 0x1680
    ||| (0x2000 <= u && u <= 0x200a)
    ||| u == 0x2028
    ||| u == 0x2029
    ||| u == 0x202f
    ||| u == 0x205f
    ||| u == 0x3000
}

/// A sequence in which no character is white space.
pub open spec fn no_ws(s: Seq<char>) -> bool {
    forall|i: int| 0 <= i < s.len() ==> !is_ws(#[trigger] s[i])
}

/// Index of the first occurrence of `c` in `s`.
pub open spec fn find_char(s: Seq<char>, c: char) -> Option<int>
    decreases s.len(),
{
    if s.len() == 0 {
        None
    } else if s[0] == c {
        Some(0)
    } else {
        match find_char(s.drop_first(), c) {
            Some(i) => Some(i + 1),
            None => None,
        }
    }
}

/// Index of the last occurrence of `c` in `s`.
pub open spec fn rfind_char(s: Seq<char>, c: char) -> Option<int>
    decreases s.len(),
{
    if s.len() == 0 {
        None
    } else if s.last() == c {
        Some(s.len() - 1)
    } else {
        rfind_char(s.drop_last(), c)
    }
}

/// Index of the first occurrence of the pattern `p` (non-empty) in `s`.
pub open spec fn find_sub(s: Seq<char>, p: Seq<char>) -> Option<int>
    decreases s.len(),
{
    if s.len() < p.len() || p.len() == 0 {
        None
    } else if s.take(p.len() as int) == p {
        Some(0)
    } else {
        match find_sub(s.drop_first(), p) {
            Some(i) => Some(i + 1),
            None => None,
        }
    }
}

/// `s` split once at the first `c`: the part before it and the part after it,
/// or the whole of `s` and nothing when `c` does not occur.
pub open spec fn split_once(s: Seq<char>, c: char) -> (Seq<char>, Seq<char>) {
    match find_char(s, c) {
        Some(i) => (s.take(i), s.skip(i + 1)),
        None => (s, Seq::empty()),
    }
}

/// Scan state of `split_whitespace` after reading `s`: the completed tokens
/// and the token being read.
pub open spec fn ws_scan(s: Seq<char>) -> (Seq<Seq<char>>, Seq<char>)
    decreases s.len(),
{
    if s.len() == 0 {
        (Seq::empty(), Seq::empty())
    } else {
        let (toks, cur) = ws_scan(s.drop_last());
        let c = s.last();
        if is_ws(c) {
            if cur.len() > 0 {
                (toks.push(cur), Seq::empty())
            } else {
                (toks, cur)
            }
        } else {
            (toks, cur.push(c))
        }
    }
}

/// The maximal runs of non-white-space characters of `s`, in order
/// (what `str::split_whitespace` yields).
pub open spec fn ws_tokens(s: Seq<char>) -> Seq<Seq<char>> {
    let (toks, cur) = ws_scan(s);
    if cur.len() > 0 {
        toks.push(cur)
    } else {
        toks
    }
}

/// The items joined with `sep` between consecutive items.
pub open spec fn join(items: Seq<Seq<char>>, sep: Seq<char>) -> Seq<char>
    decreases items.len(),
{
    if items.len() == 0 {
        Seq::empty()
    } else if items.len() == 1 {
        items[0]
    } else {
        join(items.drop_last(), sep) + sep + items.last()
    }
}

/// `s` starts with `p`.
pub open spec fn has_prefix(s: Seq<char>, p: Seq<char>) -> bool {
    p.len() <= s.len() && s.take(p.len() as int) == p
}

/// `s` ends with `p`.
pub open spec fn has_suffix(s: Seq<char>, p: Seq<char>) -> bool {
    p.len() <= s.len() && s.skip(s.len() - p.len()) == p
}

/// The pattern `p` occurs in `s` at position `j`.
pub open spec fn occurs(s: Seq<char>, p: Seq<char>, j: int) -> bool {
    0 <= j && j + p.len() <= s.len() && s.subrange(j, j + p.len()) == p
}

/// `s` with every trailing `c` removed (`trim_end_matches(c)`).
pub open spec fn trim_end_char(s: Seq<char>, c: char) -> Seq<char>
    decreases s.len(),
{
    if s.len() > 0 && s.last() == c {
        trim_end_char(s.drop_last(), c)
    } else {
        s
    }
}

/// Number of leading white-space characters.
pub open spec fn lead_ws(s: Seq<char>) -> nat
    decreases s.len(),
{
    if s.len() > 0 && is_ws(s[0]) {
        1 + lead_ws(s.drop_first())
    } else {
        0
    }
}

/// `s` with trailing white space removed.
pub open spec fn trim_end_ws(s: Seq<char>) -> Seq<char>
    decreases s.len(),
{
    if s.len() > 0 && is_ws(s.last()) {
        trim_end_ws(s.drop_last())
    } else {
        s
    }
}

/// `str::trim`: leading and trailing white space removed.
pub open spec fn trim(s: Seq<char>) -> Seq<char> {
    trim_end_ws(s.skip(lead_ws(s) as int))
}

/// Scan state of `split(c)`: the finished parts and the part being read.
pub open spec fn split_scan(s: Seq<char>, c: char) -> (Seq<Seq<char>>, Seq<char>)
    decreases s.len(),
{
    if s.len() == 0 {
        (Seq::empty(), Seq::empty())
    } else {
        let (parts, cur) = split_scan(s.drop_last(), c);
        if s.last() == c {
            (parts.push(cur), Seq::empty())
        } else {
            (parts, cur.push(s.last()))
        }
    }
}

/// `str::split(c)`, collected: the texts between occurrences of `c`.
pub open spec fn split_char(s: Seq<char>, c: char) -> Seq<Seq<char>> {
    split_scan(s, c).0.push(split_scan(s, c).1)
}

/// `str::replace`: every non-overlapping occurrence of `p`, from the left,
/// replaced by `r`.
pub open spec fn replace_all(s: Seq<char>, p: Seq<char>, r: Seq<char>) -> Seq<char>
    decreases s.len(),
{
    if p.len() == 0 {
        s
    } else {
        match find_sub(s, p) {
            None => s,
            Some(i) => if i + p.len() <= s.len() && 0 <= i {
                s.take(i) + r + replace_all(s.skip(i + p.len()), p, r)
            } else {
                s
            },
        }
    }
}

// ---------------------------------------------------------------------------
// Lemmas on the specifications
// ---------------------------------------------------------------------------

pub proof fn lemma_find_char_some(s: Seq<char>, c: char, i: int)
    requires
        0 <= i < s.len(),
        s[i] == c,
        forall|j: int| 0 <= j < i ==> s[j] != c,
    ensures
        find_char(s, c) == Some(i),
    decreases s.len(),
{
    if i > 0 {
        lemma_find_char_some(s.drop_first(), c, i - 1);
    }
}

pub proof fn lemma_find_char_none(s: Seq<char>, c: char)
    requires
        forall|j: int| 0 <= j < s.len() ==> s[j] != c,
    ensures
        find_char(s, c) is None,
    decreases s.len(),
{
    if s.len() > 0 {
        lemma_find_char_none(s.drop_first(), c);
    }
}

pub proof fn lemma_find_char_facts(s: Seq<char>, c: char)
    ensures
        find_char(s, c) matches Some(i) ==> {
            &&& 0 <= i < s.len()
            &&& s[i] == c
            &&& forall|j: int| 0 <= j < i ==> s[j] != c
        },
        find_char(s, c) is None ==> forall|j: int| 0 <= j < s.len() ==> s[j] != c,
    decreases s.len(),
{
    if s.len() > 0 {
        lemma_find_char_facts(s.drop_first(), c);
        if s[0] != c {
            assert forall|j: int| 1 <= j < s.len() implies s[j] == s.drop_first()[j - 1] by {}
        }
    }
}

pub proof fn lemma_rfind_char_some(s: Seq<char>, c: char, i: int)
    requires
        0 <= i < s.len(),
        s[i] == c,
        forall|j: int| i < j < s.len() ==> s[j] != c,
    ensures
        rfind_char(s, c) == Some(i),
    decreases s.len(),
{
    if i < s.len() - 1 {
        lemma_rfind_char_some(s.drop_last(), c, i);
    }
}

pub proof fn lemma_rfind_char_none(s: Seq<char>, c: char)
    requires
        forall|j: int| 0 <= j < s.len() ==> s[j] != c,
    ensures
        rfind_char(s, c) is None,
    decreases s.len(),
{
    if s.len() > 0 {
        lemma_rfind_char_none(s.drop_last(), c);
    }
}

pub proof fn lemma_rfind_char_facts(s: Seq<char>, c: char)
    ensures
        rfind_char(s, c) matches Some(i) ==> {
            &&& 0 <= i < s.len()
            &&& s[i] == c
            &&& forall|j: int| i < j < s.len() ==> s[j] != c
        },
        rfind_char(s, c) is None ==> forall|j: int| 0 <= j < s.len() ==> s[j] != c,
    decreases s.len(),
{
    if s.len() > 0 {
        lemma_rfind_char_facts(s.drop_last(), c);
        assert forall|j: int| 0 <= j < s.len() - 1 implies s[j] == s.drop_last()[j] by {}
    }
}

pub proof fn lemma_find_sub_some(s: Seq<char>, p: Seq<char>, i: int)
    requires
        p.len() > 0,
        occurs(s, p, i),
        forall|j: int| 0 <= j < i ==> !#[trigger] occurs(s, p, j),
    ensures
        find_sub(s, p) == Some(i),
    decreases s.len(),
{
    assert(s.take(p.len() as int) == s.subrange(0, p.len() as int));
    if i > 0 {
        let t = s.drop_first();
        assert(t.subrange(i - 1, i - 1 + p.len()) == s.subrange(i, i + p.len()));
        assert forall|j: int| 0 <= j < i - 1 implies !#[trigger] occurs(t, p, j) by {
            assert(t.subrange(j, j + p.len()) == s.subrange(j + 1, j + 1 + p.len()));
            assert(!occurs(s, p, j + 1));
        }
        assert(!occurs(s, p, 0));
        lemma_find_sub_some(t, p, i - 1);
    }
}

pub proof fn lemma_find_sub_none(s: Seq<char>, p: Seq<char>)
    requires
        p.len() > 0,
        forall|j: int| !#[trigger] occurs(s, p, j),
    ensures
        find_sub(s, p) is None,
    decreases s.len(),
{
    if s.len() >= p.len() {
        let t = s.drop_first();
        assert(s.take(p.len() as int) == s.subrange(0, p.len() as int));
        assert(!occurs(s, p, 0));
        assert forall|j: int| !#[trigger] occurs(t, p, j) by {
            if 0 <= j && j + p.len() <= t.len() {
                assert(t.subrange(j, j + p.len()) == s.subrange(j + 1, j + 1 + p.len()));
                assert(!occurs(s, p, j + 1));
            }
        }
        lemma_find_sub_none(t, p);
    }
}

pub proof fn lemma_find_sub_facts(s: Seq<char>, p: Seq<char>)
    requires
        p.len() > 0,
    ensures
        find_sub(s, p) matches Some(i) ==> {
            &&& occurs(s, p, i)
            &&& forall|j: int| 0 <= j < i ==> !#[trigger] occurs(s, p, j)
        },
        find_sub(s, p) is None ==> forall|j: int| !#[trigger] occurs(s, p, j),
    decreases s.len(),
{
    if s.len() >= p.len() {
        let t = s.drop_first();
        lemma_find_sub_facts(t, p);
        assert(s.take(p.len() as int) == s.subrange(0, p.len() as int));
        assert forall|j: int| 0 < j implies #[trigger] occurs(s, p, j) == occurs(t, p, j - 1) by {
            if 0 <= j - 1 && j - 1 + p.len() <= t.len() {
                assert(t.subrange(j - 1, j - 1 + p.len()) == s.subrange(j, j + p.len()));
            }
        }
    }
}

/// Appending one more item to a non-empty list joins it behind a separator.
pub proof fn lemma_join_push(items: Seq<Seq<char>>, x: Seq<char>, sep: Seq<char>)
    requires
        items.len() > 0,
    ensures
        join(items.push(x), sep) == join(items, sep) + sep + x,
{
    assert(items.push(x).drop_last() == items);
}

// ---------------------------------------------------------------------------
// Executable helpers
// ---------------------------------------------------------------------------

/// The characters of `s`, in order.
pub fn chars_of(s: &str) -> (v: Vec<char>)
    ensures
        v@ == s@,
{
    let mut v: Vec<char> = Vec::new();
    for c in it: s.chars()
        invariant
            v@ == it.seq().take(it.index() as int),
            it.seq() == s@,
    {
        v.push(c);
    }
    v
}

/// A `String` holding exactly the characters of `v`.
pub fn string_of(v: &[char]) -> (s: String)
    ensures
        s@ == v@,
{
    let mut s = String::new();
    let mut i: usize = 0;
    while i < v.len()
        invariant
            i <= v.len(),
            s@ == v@.take(i as int),
        decreases v.len() - i,
    {
        push_char(&mut s, v[i]);
        assert(v@.take(i as int).push(v@[i as int]) == v@.take(i + 1));
        i = i + 1;
    }
    assert(v@.take(v.len() as int) == v@);
    s
}

/// Appends the characters of `src` to `dst`.
pub fn push_all(dst: &mut Vec<char>, src: &[char])
    ensures
        final(dst)@ == old(dst)@ + src@,
{
    let ghost start = dst@;
    let mut i: usize = 0;
    while i < src.len()
        invariant
            i <= src.len(),
            dst@ == start + src@.take(i as int),
        decreases src.len() - i,
    {
        dst.push(src[i]);
        assert(src@.take(i as int).push(src@[i as int]) == src@.take(i + 1));
        i = i + 1;
    }
    assert(src@.take(src.len() as int) == src@);
}

/// Appends the characters of `s` to `dst`.
pub fn push_str(dst: &mut Vec<char>, s: &str)
    ensures
        final(dst)@ == old(dst)@ + s@,
{
    let v = chars_of(s);
    push_all(dst, &v);
}

/// The characters of `v` from `a` up to (not including) `b`.
pub fn slice(v: &[char], a: usize, b: usize) -> (r: Vec<char>)
    requires
        a <= b <= v.len(),
    ensures
        r@ == v@.subrange(a as int, b as int),
{
    let mut r: Vec<char> = Vec::new();
    let mut i: usize = a;
    while i < b
        invariant
            a <= i <= b <= v.len(),
            r@ == v@.subrange(a as int, i as int),
        decreases b - i,
    {
        r.push(v[i]);
        assert(v@.subrange(a as int, i as int).push(v@[i as int]) == v@.subrange(
            a as int,
            i + 1,
        ));
        i = i + 1;
    }
    r
}

/// Whether two character sequences are equal.
pub fn chars_eq(a: &[char], b: &[char]) -> (r: bool)
    ensures
        r == (a@ == b@),
{
    if a.len() != b.len() {
        return false;
    }
    let mut i: usize = 0;
    while i < a.len()
        invariant
            a.len() == b.len(),
            i <= a.len(),
            forall|j: int| 0 <= j < i ==> a@[j] == b@[j],
        decreases a.len() - i,
    {
        if a[i] != b[i] {
            return false;
        }
        i = i + 1;
    }
    assert(a@ =~= b@);
    true
}

/// Whether `s` equals the string literal (or slice) `lit`.
pub fn chars_eq_str(s: &[char], lit: &str) -> (r: bool)
    ensures
        r == (s@ == lit@),
{
    let l = chars_of(lit);
    chars_eq(s, &l)
}

/// `char::is_whitespace`.
pub fn is_whitespace(c: char) -> (r: bool)
    ensures
        r == is_ws(c),
{
    let u = c as u32;
    (0x09 <= u && u <= 0x0d) || u == 0x20 || u == 0x85 || u == 0xa0 || u == 0x1680 || (0x2000
        <= u && u <= 0x200a) || u == 0x2028 || u == 0x2029 || u == 0x202f || u == 0x205f || u
        == 0x3000
}

/// Index of the first `c` in `s`.
pub fn find(s: &[char], c: char) -> (r: Option<usize>)
    ensures
        r matches Some(i) ==> find_char(s@, c) == Some(i as int) && i < s.len(),
        r is None ==> find_char(s@, c) is None,
{
    let mut i: usize = 0;
    while i < s.len()
        invariant
            i <= s.len(),
            forall|j: int| 0 <= j < i ==> s@[j] != c,
        decreases s.len() - i,
    {
        if s[i] == c {
            proof {
                lemma_find_char_some(s@, c, i as int);
            }
            return Some(i);
        }
        i = i + 1;
    }
    proof {
        lemma_find_char_none(s@, c);
    }
    None
}

/// Index of the last `c` in `s`.
pub fn rfind(s: &[char], c: char) -> (r: Option<usize>)
    ensures
        r matches Some(i) ==> rfind_char(s@, c) == Some(i as int) && i < s.len(),
        r is None ==> rfind_char(s@, c) is None,
{
    let mut i: usize = s.len();
    while i > 0
        invariant
            i <= s.len(),
            forall|j: int| i <= j < s.len() ==> s@[j] != c,
        decreases i,
    {
        if s[i - 1] == c {
            proof {
                lemma_rfind_char_some(s@, c, i - 1);
            }
            return Some(i - 1);
        }
        i = i - 1;
    }
    proof {
        lemma_rfind_char_none(s@, c);
    }
    None
}

/// Whether `p` occurs in `s` at position `at`.
fn occurs_at(s: &[char], p: &[char], at: usize) -> (r: bool)
    requires
        at <= s.len(),
    ensures
        r == occurs(s@, p@, at as int),
{
    if p.len() > s.len() - at {
        return false;
    }
    let mut k: usize = 0;
    while k < p.len()
        invariant
            at + p.len() <= s.len(),
            k <= p.len(),
            forall|j: int| 0 <= j < k ==> s@[at + j] == p@[j],
        decreases p.len() - k,
    {
        if s[at + k] != p[k] {
            assert(s@.subrange(at as int, at + p.len())[k as int] != p@[k as int]);
            return false;
        }
        k = k + 1;
    }
    assert(s@.subrange(at as int, at + p.len()) =~= p@);
    true
}

/// Index of the first occurrence of the non-empty pattern `p` in `s`.
pub fn find_pattern(s: &[char], p: &[char]) -> (r: Option<usize>)
    requires
        p.len() > 0,
    ensures
        r matches Some(i) ==> find_sub(s@, p@) == Some(i as int),
        r is None ==> find_sub(s@, p@) is None,
{
    if p.len() > s.len() {
        proof {
            assert forall|j: int| !#[trigger] occurs(s@, p@, j) by {}
            lemma_find_sub_none(s@, p@);
        }
        return None;
    }
    let mut i: usize = 0;
    while i <= s.len() - p.len()
        invariant
            p.len() > 0,
            p.len() <= s.len(),
            i <= s.len(),
            forall|j: int| 0 <= j < i ==> !#[trigger] occurs(s@, p@, j),
        decreases s.len() - i,
    {
        if occurs_at(s, p, i) {
            proof {
                lemma_find_sub_some(s@, p@, i as int);
            }
            return Some(i);
        }
        i = i + 1;
    }
    proof {
        assert forall|j: int| !#[trigger] occurs(s@, p@, j) by {
            if 0 <= j && j < i {
            }
        }
        lemma_find_sub_none(s@, p@);
    }
    None
}

/// `str::split_once` on one character.
pub fn split_once_char(s: &[char], c: char) -> (r: (Vec<char>, Vec<char>))
    ensures
        (r.0@, r.1@) == split_once(s@, c),
{
    match find(s, c) {
        Some(i) => {
            let a = slice(s, 0, i);
            let b = slice(s, i + 1, s.len());
            proof {
                lemma_find_char_facts(s@, c);
            }
            assert(a@ == s@.take(i as int));
            assert(b@ == s@.skip(i + 1));
            (a, b)
        },
        None => {
            let mut a: Vec<char> = Vec::new();
            push_all(&mut a, s);
            assert(a@ == s@);
            (a, Vec::new())
        },
    }
}

/// `str::split_whitespace`, collected.
pub fn split_whitespace(s: &[char]) -> (r: Vec<Vec<char>>)
    ensures
        r@.map_values(|t: Vec<char>| t@) == ws_tokens(s@),
{
    let mut toks: Vec<Vec<char>> = Vec::new();
    let mut cur: Vec<char> = Vec::new();
    let mut i: usize = 0;
    while i < s.len()
        invariant
            i <= s.len(),
            (toks@.map_values(|t: Vec<char>| t@), cur@) == ws_scan(s@.take(i as int)),
        decreases s.len() - i,
    {
        let c = s[i];
        let ghost pre = s@.take(i as int);
        assert(s@.take(i + 1).drop_last() == pre);
        assert(s@.take(i + 1).last() == c);
        if is_whitespace(c) {
            if cur.len() > 0 {
                let ghost old_toks = toks@;
                toks.push(cur);
                cur = Vec::new();
                assert(toks@.map_values(|t: Vec<char>| t@) == old_toks.map_values(
                    |t: Vec<char>| t@,
                ).push(old_toks.push(toks@.last())[old_toks.len() as int]@));
            }
        } else {
            cur.push(c);
        }
        i = i + 1;
    }
    assert(s@.take(s.len() as int) == s@);
    if cur.len() > 0 {
        let ghost old_toks = toks@;
        toks.push(cur);
        assert(toks@.map_values(|t: Vec<char>| t@) == old_toks.map_values(|t: Vec<char>| t@).push(
            toks@.last()@,
        ));
    }
    toks
}

/// Whether `s` starts with the string `p`.
pub fn starts_with(s: &[char], p: &str) -> (r: bool)
    ensures
        r == has_prefix(s@, p@),
{
    let pv = chars_of(p);
    if pv.len() > s.len() {
        return false;
    }
    let r = occurs_at(s, &pv, 0);
    assert(s@.subrange(0, pv.len() as int) == s@.take(pv.len() as int));
    r
}

/// Whether `s` ends with `p`.
pub fn ends_with(s: &[char], p: &[char]) -> (r: bool)
    ensures
        r == has_suffix(s@, p@),
{
    if p.len() > s.len() {
        return false;
    }
    let at = s.len() - p.len();
    let r = occurs_at(s, p, at);
    assert(s@.subrange(at as int, at + p.len()) == s@.skip(at as int));
    r
}

/// Appends `sep` and then `item` to `out`, which holds `items` joined by `sep`.
pub fn push_sep_item(
    out: &mut Vec<char>,
    sep: &str,
    item: &[char],
    Ghost(items): Ghost<Seq<Seq<char>>>,
)
    requires
        items.len() > 0,
        old(out)@ == join(items, sep@),
    ensures
        final(out)@ == join(items.push(item@), sep@),
{
    push_str(out, sep);
    push_all(out, item);
    proof {
        lemma_join_push(items, item@, sep@);
    }
}

/// Appends `item` to `out`, which holds `items` joined by `sep`; `first`
/// tells whether there are no items yet.
pub fn push_joined(
    out: &mut Vec<char>,
    sep: &str,
    item: &[char],
    first: bool,
    Ghost(items): Ghost<Seq<Seq<char>>>,
)
    requires
        old(out)@ == join(items, sep@),
        first == (items.len() == 0),
    ensures
        final(out)@ == join(items.push(item@), sep@),
{
    if first {
        push_all(out, item);
        assert(items.push(item@) =~= seq![item@]);
    } else {
        push_sep_item(out, sep, item, Ghost(items));
    }
}

/// `trim_end_matches(c)`.
pub fn trim_end_matches(s: &[char], c: char) -> (r: Vec<char>)
    ensures
        r@ == trim_end_char(s@, c),
{
    let mut n: usize = s.len();
    assert(s@.take(n as int) == s@);
    while n > 0 && s[n - 1] == c
        invariant
            n <= s.len(),
            trim_end_char(s@, c) == trim_end_char(s@.take(n as int), c),
        decreases n,
    {
        assert(s@.take(n as int).drop_last() == s@.take(n - 1));
        n = n - 1;
    }
    assert(n == 0 ==> s@.take(n as int) =~= Seq::<char>::empty());
    slice(s, 0, n)
}

/// `str::trim`.
pub fn trim_ws(s: &[char]) -> (r: Vec<char>)
    ensures
        r@ == trim(s@),
{
    let mut a: usize = 0;
    assert(s@.skip(0) == s@);
    while a < s.len() && is_whitespace(s[a])
        invariant
            a <= s.len(),
            lead_ws(s@) == a + lead_ws(s@.skip(a as int)),
        decreases s.len() - a,
    {
        assert(s@.skip(a as int).drop_first() == s@.skip(a + 1));
        a = a + 1;
    }
    let ghost t = s@.skip(a as int);
    assert(lead_ws(t) == 0);
    assert(s@.skip(lead_ws(s@) as int) == t);
    let mut b: usize = s.len();
    while b > a && is_whitespace(s[b - 1])
        invariant
            a <= b <= s.len(),
            trim_end_ws(t) == trim_end_ws(s@.subrange(a as int, b as int)),
        decreases b,
    {
        assert(s@.subrange(a as int, b as int).drop_last() == s@.subrange(a as int, b - 1));
        b = b - 1;
    }
    assert(s@.subrange(a as int, s.len() as int) == t);
    slice(s, a, b)
}

/// `str::split(c)`, collected.
pub fn split_on(s: &[char], c: char) -> (r: Vec<Vec<char>>)
    ensures
        r@.map_values(|t: Vec<char>| t@) == split_char(s@, c),
{
    let mut parts: Vec<Vec<char>> = Vec::new();
    let mut cur: Vec<char> = Vec::new();
    let mut i: usize = 0;
    while i < s.len()
        invariant
            i <= s.len(),
            (parts@.map_values(|t: Vec<char>| t@), cur@) == split_scan(s@.take(i as int), c),
        decreases s.len() - i,
    {
        assert(s@.take(i + 1).drop_last() == s@.take(i as int));
        assert(s@.take(i + 1).last() == s@[i as int]);
        if s[i] == c {
            let ghost old_parts = parts@;
            parts.push(cur);
            cur = Vec::new();
            assert(parts@.map_values(|t: Vec<char>| t@) == old_parts.map_values(
                |t: Vec<char>| t@,
            ).push(parts@.last()@));
        } else {
            cur.push(s[i]);
        }
        i = i + 1;
    }
    assert(s@.take(s.len() as int) == s@);
    let ghost old_parts = parts@;
    parts.push(cur);
    assert(parts@.map_values(|t: Vec<char>| t@) == old_parts.map_values(|t: Vec<char>| t@).push(
        parts@.last()@,
    ));
    parts
}

/// `str::replace(p, r)` for a non-empty pattern.
pub fn replace(s: &[char], p: &[char], r: &[char]) -> (out: Vec<char>)
    requires
        p.len() > 0,
    ensures
        out@ == replace_all(s@, p@, r@),
{
    let mut out: Vec<char> = Vec::new();
    let mut rest: Vec<char> = slice(s, 0, s.len());
    assert(rest@ == s@);
    loop
        invariant
            p.len() > 0,
            out@ + replace_all(rest@, p@, r@) == replace_all(s@, p@, r@),
        decreases rest.len(),
    {
        match find_pattern(&rest, p) {
            None => {
                push_all(&mut out, &rest);
                return out;
            },
            Some(i) => {
                proof {
                    lemma_find_sub_facts(rest@, p@);
                }
                let head = slice(&rest, 0, i);
                let tail = slice(&rest, i + p.len(), rest.len());
                assert(head@ == rest@.take(i as int));
                assert(tail@ == rest@.skip(i + p.len()));
                push_all(&mut out, &head);
                push_all(&mut out, r);
                proof {
                    assert(out@ + replace_all(tail@, p@, r@) == replace_all(s@, p@, r@));
                }
                rest = tail;
            },
        }
    }
}

} // verus!
