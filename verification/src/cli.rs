//! The client's command line, and the steps of user-defined commands.
use vstd::prelude::*;

use crate::text::{chars_eq_str, chars_of, push_all, push_str, split_whitespace, string_of,
    ws_tokens};

verus! {

/// The parsed command line.
#[derive(Debug, Clone)]
pub struct App {
    pub cmd: Command,
    /// Override of the configured target host.
    pub target: Option<String>,
    /// Override of the branch (defaults to the current branch).
    pub branch: Option<String>,
    /// Workspace member to install.
    pub package: Option<String>,
    /// Binary name override.
    pub bin: Option<String>,
    /// Enables debug output.
    pub debug: bool,
    /// Timeout in seconds for remote commands.
    pub timeout: u64,
}

/// The subcommands.
#[derive(Debug, Clone)]
pub enum Command {
    Build,
    Check,
    Clippy,
    Lint,
    Run,
    Stop,
    /// Extra arguments are passed through to `cargo test`.
    Test { args: Vec<String> },
    /// A user-defined command from `[commands]`: its name and anything after it.
    Custom(Vec<String>),
    Deploy,
    Undeploy,
    Status,
}

/// The supported step commands.
#[derive(Clone, Copy, Debug, PartialEq, Eq, Structural)]
pub enum StepName {
    Lint,
    Clippy,
    Check,
    Test,
    Build,
}

/// A single step within a `[commands]` entry.
#[derive(Clone, Debug)]
pub struct Step {
    pub name: StepName,
    pub args: Vec<String>,
}

/// The word that names a step command.
pub open spec fn step_word(n: StepName) -> Seq<char> {
    match n {
        StepName::Lint => "lint"@,
        StepName::Clippy => "clippy"@,
        StepName::Check => "check"@,
        StepName::Test => "test"@,
        StepName::Build => "build"@,
    }
}

/// The step command that a word names, if any.
pub open spec fn step_of_word(w: Seq<char>) -> Option<StepName> {
    if w == "lint"@ {
        Some(StepName::Lint)
    } else if w == "clippy"@ {
        Some(StepName::Clippy)
    } else if w == "check"@ {
        Some(StepName::Check)
    } else if w == "test"@ {
        Some(StepName::Test)
    } else if w == "build"@ {
        Some(StepName::Build)
    } else {
        None
    }
}

/// `parse_step`: the first white-space token names the command, the other
/// tokens are its arguments.
pub open spec fn parse_step_spec(s: Seq<char>) -> Result<(StepName, Seq<Seq<char>>), Seq<char>> {
    let toks = ws_tokens(s);
    if toks.len() == 0 {
        Err("empty command in [commands]"@)
    } else {
        match step_of_word(toks[0]) {
            None => Err("'"@ + toks[0] + "' is not a known command"@),
            Some(n) => Ok((n, toks.skip(1))),
        }
    }
}

/// The word of a step command names it.
pub proof fn lemma_step_word(n: StepName)
    ensures
        step_of_word(step_word(n)) == Some(n),
{
    reveal_strlit("lint");
    reveal_strlit("clippy");
    reveal_strlit("check");
    reveal_strlit("test");
    reveal_strlit("build");
    match n {
        StepName::Lint => {},
        StepName::Clippy => {
            assert("clippy"@[0] != "lint"@[0]);
        },
        StepName::Check => {
            assert("check"@[0] != "lint"@[0]);
            assert("check"@.len() != "clippy"@.len());
        },
        StepName::Test => {
            assert("test"@[0] != "lint"@[0]);
            assert("test"@[0] != "clippy"@[0]);
            assert("test"@[0] != "check"@[0]);
        },
        StepName::Build => {
            assert("build"@[0] != "lint"@[0]);
            assert("build"@[0] != "clippy"@[0]);
            assert("build"@[0] != "check"@[0]);
            assert("build"@[0] != "test"@[0]);
        },
    }
}

impl StepName {
    /// The word that names the step command.
    pub fn as_str(self) -> (r: &'static str)
        ensures
            r@ == step_word(self),
    {
        match self {
            StepName::Lint => "lint",
            StepName::Clippy => "clippy",
            StepName::Check => "check",
            StepName::Test => "test",
            StepName::Build => "build",
        }
    }
}

fn step_name(s: &[char]) -> (r: Option<StepName>)
    ensures
        r == step_of_word(s@),
{
    if chars_eq_str(s, "lint") {
        Some(StepName::Lint)
    } else if chars_eq_str(s, "clippy") {
        Some(StepName::Clippy)
    } else if chars_eq_str(s, "check") {
        Some(StepName::Check)
    } else if chars_eq_str(s, "test") {
        Some(StepName::Test)
    } else if chars_eq_str(s, "build") {
        Some(StepName::Build)
    } else {
        None
    }
}

/// Parses a single step string like `"test --workspace -q"`.
pub fn parse_step(s: &str) -> (r: Result<Step, String>)
    ensures
        match r {
            Ok(st) => parse_step_spec(s@) == Ok::<(StepName, Seq<Seq<char>>), Seq<char>>(
                (st.name, st.args.deep_view()),
            ),
            Err(e) => parse_step_spec(s@) == Err::<(StepName, Seq<Seq<char>>), Seq<char>>(e@),
        },
{
    let cs = chars_of(s);
    let toks = split_whitespace(&cs);
    let ghost tv = toks@.map_values(|t: Vec<char>| t@);
    if toks.len() == 0 {
        let e = chars_of("empty command in [commands]");
        return Err(string_of(&e));
    }
    assert(tv[0] == toks@[0]@);
    match step_name(&toks[0]) {
        None => {
            let mut e = chars_of("'");
            push_all(&mut e, &toks[0]);
            push_str(&mut e, "' is not a known command");
            Err(string_of(&e))
        },
        Some(name) => {
            let mut args: Vec<String> = Vec::new();
            let mut i: usize = 1;
            while i < toks.len()
                invariant
                    1 <= i <= toks.len(),
                    tv == toks@.map_values(|t: Vec<char>| t@),
                    args.deep_view() == tv.subrange(1, i as int),
                decreases toks.len() - i,
            {
                let ghost old_args = args.deep_view();
                args.push(string_of(&toks[i]));
                assert(args.deep_view() == old_args.push(toks@[i as int]@));
                assert(tv.subrange(1, i + 1) == tv.subrange(1, i as int).push(tv[i as int]));
                i = i + 1;
            }
            assert(tv.subrange(1, toks.len() as int) == tv.skip(1));
            Ok(Step { name, args })
        },
    }
}

/// A step list of one step without arguments.
pub fn one_step(name: StepName) -> (r: Vec<Step>)
    ensures
        r@.len() == 1,
        r@[0].name == name,
        r@[0].args@.len() == 0,
{
    let mut v: Vec<Step> = Vec::new();
    v.push(Step { name, args: Vec::new() });
    v
}

} // verus!
