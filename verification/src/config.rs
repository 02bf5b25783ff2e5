//! The client's configuration and what it derives from it.
//!
//! Tables that the configuration file holds as maps (`[commands]`,
//! `[sandbox.env]`) are held here as lists of pairs in the order in which
//! the map was walked.
use vstd::prelude::*;

use crate::text::{
    chars_of, push_joined, push_str, string_of, trim_end_char, trim_end_matches, join,
};

verus! {

/// A prebuild hook: one command, or a list run one after the other.
#[derive(Debug, Clone)]
pub enum Hook {
    Single(String),
    List(Vec<String>),
}

/// Paths and domains the sandbox allows beyond its defaults.
#[derive(Debug, Clone, Default)]
pub struct SandboxAllow {
    pub write: Vec<String>,
    pub net: Vec<String>,
}

/// Sandbox settings of remote builds.
#[derive(Debug, Clone)]
pub struct Sandbox {
    pub enabled: bool,
    pub allow: SandboxAllow,
    /// Environment variables for the build, in the order the table was walked.
    pub env: Vec<(String, String)>,
}

/// The effective configuration.
#[derive(Debug, Clone)]
pub struct Config {
    /// The target host (anything one would pass to `ssh`).
    pub target: String,
    /// Remote path for the repository; defaults to `$HOME/build/{project_name}`.
    pub remote_path: Option<String>,
    /// Remote build directory; the repository lands at
    /// `{remote_build_dir}/{project_name}` unless `remote_path` is set.
    pub remote_build_dir: Option<String>,
    /// Workspace member to install.
    pub package: Option<String>,
    /// Binary name override.
    pub bin: Option<String>,
    pub sandbox: Sandbox,
    /// Command(s) run after sync and before the sandboxed build.
    pub prebuild: Option<Hook>,
    /// User-defined commands: a name and its steps, in the order the table
    /// was walked.
    pub commands: Vec<(String, Vec<String>)>,
}

/// The value a sandbox flag takes when the configuration leaves it out.
pub fn default_true() -> (r: bool)
    ensures
        r,
{
    true
}

impl Default for Sandbox {
    fn default() -> (s: Sandbox)
        ensures
            s.enabled,
            s.allow.write@.len() == 0,
            s.allow.net@.len() == 0,
            s.env@.len() == 0,
    {
        Sandbox {
            enabled: default_true(),
            allow: SandboxAllow { write: Vec::new(), net: Vec::new() },
            env: Vec::new(),
        }
    }
}

impl Default for Config {
    /// The configuration of an empty file.
    fn default() -> (c: Config)
        ensures
            c.target@.len() == 0,
            c.remote_path is None,
            c.remote_build_dir is None,
            c.package is None,
            c.bin is None,
            c.sandbox.enabled,
            c.sandbox.allow.write@.len() == 0,
            c.sandbox.allow.net@.len() == 0,
            c.sandbox.env@.len() == 0,
            c.prebuild is None,
            c.commands@.len() == 0,
            c.wf(),
    {
        Config {
            target: String::new(),
            remote_path: None,
            remote_build_dir: None,
            package: None,
            bin: None,
            sandbox: Sandbox::default(),
            prebuild: None,
            commands: Vec::new(),
        }
    }
}

/// The remote repository path: `remote_path` as given, else
/// `{remote_build_dir without trailing slashes}/{project}`, else
/// `$HOME/build/{project}`.
pub open spec fn remote_path_spec(
    remote_path: Option<Seq<char>>,
    build_dir: Option<Seq<char>>,
    project: Seq<char>,
) -> Seq<char> {
    match remote_path {
        Some(p) => p,
        None => match build_dir {
            Some(d) => trim_end_char(d, '/') + seq!['/'] + project,
            None => "$HOME/build/"@ + project,
        },
    }
}

pub open spec fn opt_view(o: Option<String>) -> Option<Seq<char>> {
    match o {
        Some(s) => Some(s@),
        None => None,
    }
}

impl Config {
    /// The tables held as lists of pairs name each key once, as the maps of
    /// a configuration file do.
    pub open spec fn wf(&self) -> bool {
        keys_unique(self.sandbox.env@) && keys_unique(self.commands@)
    }

    /// Where the repository of `project_name` lives on the remote host.
    pub fn remote_path(&self, project_name: &str) -> (r: String)
        ensures
            r@ == remote_path_spec(
                opt_view(self.remote_path),
                opt_view(self.remote_build_dir),
                project_name@,
            ),
    {
        match &self.remote_path {
            Some(p) => p.clone(),
            None => match &self.remote_build_dir {
                Some(d) => {
                    let dc = chars_of(d.as_str());
                    let mut out = trim_end_matches(&dc, '/');
                    out.push('/');
                    push_str(&mut out, project_name);
                    string_of(&out)
                },
                None => {
                    let mut out = chars_of("$HOME/build/");
                    push_str(&mut out, project_name);
                    string_of(&out)
                },
            },
        }
    }
}

/// The shell text of a hook: the single command, or the commands joined by
/// `" && "`.
pub open spec fn hook_command(h: Hook) -> Seq<char> {
    match h {
        Hook::Single(s) => s@,
        Hook::List(v) => join(v.deep_view(), " && "@),
    }
}

impl Hook {
    /// The shell text that runs the hook.
    pub fn as_command(&self) -> (r: String)
        ensures
            r@ == hook_command(*self),
    {
        match self {
            Hook::Single(s) => s.clone(),
            Hook::List(v) => {
                let mut out: Vec<char> = Vec::new();
                let ghost mut items: Seq<Seq<char>> = Seq::empty();
                let mut i: usize = 0;
                while i < v.len()
                    invariant
                        i <= v.len(),
                        items == v.deep_view().take(i as int),
                        out@ == join(items, " && "@),
                    decreases v.len() - i,
                {
                    let item = chars_of(v[i].as_str());
                    push_joined(&mut out, " && ", &item, i == 0, Ghost(items));
                    proof {
                        assert(v.deep_view().take(i + 1) == v.deep_view().take(i as int).push(
                            v[i as int]@,
                        ));
                        items = items.push(item@);
                    }
                    i = i + 1;
                }
                assert(v.deep_view().take(v.len() as int) == v.deep_view());
                string_of(&out)
            },
        }
    }
}

// ---------------------------------------------------------------------------
// Layering of a global and a project configuration table
// ---------------------------------------------------------------------------

/// The value of key `k` in a list of entries: the last entry with that key.
pub open spec fn lookup<V>(entries: Seq<(String, V)>, k: Seq<char>) -> Option<V>
    decreases entries.len(),
{
    if entries.len() == 0 {
        None
    } else if entries.last().0@ == k {
        Some(entries.last().1)
    } else {
        lookup(entries.drop_last(), k)
    }
}

/// Whether `k` is the key of some entry.
pub open spec fn has_key<V>(entries: Seq<(String, V)>, k: Seq<char>) -> bool {
    exists|i: int| 0 <= i < entries.len() && (#[trigger] entries[i]).0@ == k
}

/// No two entries share a key: the list stands for a map. A configuration
/// table read from a file always has this form.
pub open spec fn keys_unique<V>(entries: Seq<(String, V)>) -> bool {
    forall|i: int, j: int|
        0 <= i < j < entries.len() ==> (#[trigger] entries[i]).0@ != (#[trigger] entries[j]).0@
}

proof fn lemma_lookup_has_key<V>(entries: Seq<(String, V)>, k: Seq<char>)
    ensures
        lookup(entries, k) is Some <==> has_key(entries, k),
    decreases entries.len(),
{
    if entries.len() > 0 {
        lemma_lookup_has_key(entries.drop_last(), k);
        if has_key(entries, k) && entries.last().0@ != k {
            let i = choose|i: int| 0 <= i < entries.len() && (#[trigger] entries[i]).0@ == k;
            assert(entries.drop_last()[i] == entries[i]);
        }
        if has_key(entries.drop_last(), k) {
            let i = choose|i: int|
                0 <= i < entries.drop_last().len() && (#[trigger] entries.drop_last()[i]).0@ == k;
            assert(entries[i] == entries.drop_last()[i]);
        }
    }
}

proof fn lemma_lookup_concat<V>(a: Seq<(String, V)>, b: Seq<(String, V)>, k: Seq<char>)
    ensures
        lookup(a + b, k) == match lookup(b, k) {
            Some(v) => Some(v),
            None => lookup(a, k),
        },
    decreases b.len(),
{
    if b.len() == 0 {
        assert(a + b == a);
    } else {
        lemma_lookup_concat(a, b.drop_last(), k);
        assert((a + b).drop_last() == a + b.drop_last());
        assert((a + b).last() == b.last());
    }
}

/// Layers the entries of `over` on `base`: every key that `over` defines
/// takes its value from `over`, wholesale; every other key keeps its value
/// from `base`. Two tables with distinct keys give one with distinct keys.
pub fn overlay<V>(base: Vec<(String, V)>, over: Vec<(String, V)>) -> (r: Vec<(String, V)>)
    ensures
        keys_unique(base@) && keys_unique(over@) ==> keys_unique(r@),
        forall|k: Seq<char>|
            #![trigger lookup(r@, k)]
            lookup(r@, k) == match lookup(over@, k) {
                Some(v) => Some(v),
                None => lookup(base@, k),
            },
{
    // Which base entries keep their place.
    let mut keep: Vec<bool> = Vec::new();
    let mut i: usize = 0;
    while i < base.len()
        invariant
            i <= base.len(),
            keep@.len() == i,
            forall|j: int| 0 <= j < i ==> keep@[j] == !has_key(over@, base@[j].0@),
        decreases base.len() - i,
    {
        let mut found = false;
        let mut j: usize = 0;
        while j < over.len()
            invariant
                i < base.len(),
                j <= over.len(),
                found == exists|m: int| 0 <= m < j && (#[trigger] over@[m]).0@ == base@[i as int].0@,
            decreases over.len() - j,
        {
            if over[j].0 == base[i].0 {
                found = true;
            }
            j = j + 1;
        }
        keep.push(!found);
        i = i + 1;
    }
    let ghost base0 = base@;
    let mut b = base;
    let mut r: Vec<(String, V)> = Vec::new();
    let mut idx: usize = 0;
    while b.len() > 0
        invariant
            b@ == base0.skip(idx as int),
            idx <= base0.len(),
            base0.len() <= usize::MAX,
            keep@.len() == base0.len(),
            forall|j: int| 0 <= j < base0.len() ==> keep@[j] == !has_key(over@, base0[j].0@),
            forall|k: Seq<char>|
                #![trigger lookup(r@, k)]
                !has_key(over@, k) ==> lookup(r@, k) == lookup(base0.take(idx as int), k),
            forall|k: Seq<char>| #![trigger has_key(r@, k)] has_key(r@, k) ==> !has_key(over@, k),
            forall|k: Seq<char>|
                #![trigger has_key(r@, k)]
                has_key(r@, k) ==> has_key(base0.take(idx as int), k),
            keys_unique(base0) ==> keys_unique(r@),
        decreases b.len(),
    {
        assert(idx < base0.len());
        let e = b.remove(0);
        let ghost old_r = r@;
        assert(base0.take(idx + 1).drop_last() == base0.take(idx as int));
        assert(base0.take(idx + 1).last() == base0[idx as int]);
        assert(e == base0[idx as int]);
        if keep[idx] {
            r.push(e);
            proof {
                assert(r@.drop_last() == old_r);
                assert(r@.last() == e);
                assert forall|k: Seq<char>|
                    #![trigger lookup(r@, k)]
                    !has_key(over@, k) implies lookup(r@, k) == lookup(
                        base0.take(idx + 1),
                        k,
                    ) by {
                    if e.0@ != k {
                        assert(lookup(r@, k) == lookup(old_r, k));
                        assert(lookup(base0.take(idx + 1), k) == lookup(base0.take(idx as int), k));
                    }
                }
                assert forall|k: Seq<char>| #![trigger has_key(r@, k)] has_key(r@, k) implies !has_key(
                    over@,
                    k,
                ) && has_key(base0.take(idx + 1), k) by {
                    let m = choose|m: int| 0 <= m < r@.len() && (#[trigger] r@[m]).0@ == k;
                    if m < old_r.len() {
                        assert(old_r[m] == r@[m]);
                        assert(has_key(old_r, k));
                        let j = choose|j: int|
                            0 <= j < base0.take(idx as int).len()
                                && (#[trigger] base0.take(idx as int)[j]).0@ == k;
                        assert(base0.take(idx + 1)[j] == base0.take(idx as int)[j]);
                    } else {
                        assert(base0.take(idx + 1)[idx as int] == e);
                    }
                }
                if keys_unique(base0) {
                    assert forall|i: int, j: int|
                        0 <= i < j < r@.len() implies (#[trigger] r@[i]).0@ != (#[trigger] r@[j]).0@ by {
                        if j == r@.len() - 1 {
                            assert(r@[i] == old_r[i]);
                            if r@[i].0@ == e.0@ {
                                assert(has_key(old_r, e.0@));
                                let m = choose|m: int|
                                    0 <= m < base0.take(idx as int).len()
                                        && (#[trigger] base0.take(idx as int)[m]).0@ == e.0@;
                                assert(base0[m] == base0.take(idx as int)[m]);
                            }
                        } else {
                            assert(r@[i] == old_r[i]);
                            assert(r@[j] == old_r[j]);
                        }
                    }
                }
            }
        } else {
            proof {
                assert forall|k: Seq<char>|
                    #![trigger lookup(r@, k)]
                    !has_key(over@, k) implies lookup(r@, k) == lookup(
                        base0.take(idx + 1),
                        k,
                    ) by {
                    assert(e.0@ != k);
                }
                assert forall|k: Seq<char>|
                    #![trigger has_key(r@, k)]
                    has_key(r@, k) implies has_key(base0.take(idx + 1), k) by {
                    let j = choose|j: int|
                        0 <= j < base0.take(idx as int).len()
                            && (#[trigger] base0.take(idx as int)[j]).0@ == k;
                    assert(base0.take(idx + 1)[j] == base0.take(idx as int)[j]);
                }
            }
        }
        idx = idx + 1;
        assert(b@ == base0.skip(idx as int));
    }
    assert(base0.take(base0.len() as int) == base0);
    let ghost kept_r = r@;
    let mut o = over;
    let ghost over0 = o@;
    assert(over0.len() == o.len());
    let mut oi: usize = 0;
    while o.len() > 0
        invariant
            o@ == over0.skip(oi as int),
            oi <= over0.len(),
            over0.len() <= usize::MAX,
            r@ == kept_r + over0.take(oi as int),
        decreases o.len(),
    {
        assert(oi < over0.len());
        let e = o.remove(0);
        assert(e == over0[oi as int]);
        r.push(e);
        assert(over0.take(oi + 1) == over0.take(oi as int).push(over0[oi as int]));
        oi = oi + 1;
        assert(o@ == over0.skip(oi as int));
    }
    assert(over0.take(over0.len() as int) == over0);
    proof {
        assert forall|k: Seq<char>| #![trigger lookup(r@, k)] lookup(r@, k) == match lookup(
            over0,
            k,
        ) {
            Some(v) => Some(v),
            None => lookup(base0, k),
        } by {
            lemma_lookup_concat(kept_r, over0, k);
            lemma_lookup_has_key(over0, k);
            lemma_lookup_has_key(kept_r, k);
            if !has_key(over0, k) {
                assert(lookup(kept_r, k) == lookup(base0, k));
            }
        }
        if keys_unique(base0) && keys_unique(over0) {
            assert forall|i: int, j: int|
                0 <= i < j < r@.len() implies (#[trigger] r@[i]).0@ != (#[trigger] r@[j]).0@ by {
                let n = kept_r.len() as int;
                if j < n {
                    assert(r@[i] == kept_r[i] && r@[j] == kept_r[j]);
                } else if i >= n {
                    assert(r@[i] == over0[i - n] && r@[j] == over0[j - n]);
                } else {
                    assert(r@[i] == kept_r[i] && r@[j] == over0[j - n]);
                    assert(has_key(kept_r, kept_r[i].0@));
                    if kept_r[i].0@ == over0[j - n].0@ {
                        assert(has_key(over0, over0[j - n].0@));
                    }
                }
            }
        }
    }
    r
}

} // verus!
