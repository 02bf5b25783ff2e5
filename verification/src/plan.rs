//! What the client decides before it touches the remote host: the target,
//! the binary, the remote path, and the work a subcommand stands for.
use vstd::prelude::*;

use crate::cli::{parse_step, parse_step_spec, step_word, Command, Step, StepName};
use crate::config::{lookup, Config};
use crate::ext::{debug_list, debug_strings};
use crate::protocol_laws::{lemma_tokens_join, words};
use crate::protocol::sp;
use crate::sandbox::{
    build_cmd, cargo_inner, check_cmd, clippy_cmd, lint_cmd, quoted_args_spec, sandbox_cmd_spec,
    test_cmd,
};
use crate::text::{chars_of, join, push_str, replace, replace_all, string_of, ws_tokens};

verus! {

/// The error when no target host is known.
pub open spec fn no_target_text() -> Seq<char> {
    "No target specified. Provide --target flag or create rcargo.toml with: target = \"<ssh_target>\""@
}

/// The target host: the one given on the command line, else the configured
/// one; an empty target is an error.
pub fn resolve_target(configured: &str, cli: Option<&str>) -> (r: Result<String, String>)
    ensures
        ({
            let t = match cli {
                Some(c) => c@,
                None => configured@,
            };
            if t.len() == 0 {
                r matches Err(e) && e@ == no_target_text()
            } else {
                r matches Ok(s) && s@ == t
            }
        }),
{
    let t = match cli {
        Some(c) => chars_of(c),
        None => chars_of(configured),
    };
    if t.len() == 0 {
        return Err(
            string_of(
                &chars_of(
                    "No target specified. Provide --target flag or create rcargo.toml with: target = \"<ssh_target>\"",
                ),
            ),
        );
    }
    Ok(string_of(&t))
}

/// The binary to run: the one named on the command line, else the configured
/// one, else the only `[[bin]]` target, else the package itself when there is
/// no `[[bin]]` target. Several targets and no choice is an error.
pub fn resolve_bin_name(
    package_name: &str,
    bin_targets: &Vec<String>,
    config_bin: Option<&str>,
    cli_bin: Option<&str>,
) -> (r: Result<String, String>)
    ensures
        match (cli_bin, config_bin) {
            (Some(b), _) => r matches Ok(s) && s@ == b@,
            (None, Some(b)) => r matches Ok(s) && s@ == b@,
            (None, None) => if bin_targets@.len() == 0 {
                r matches Ok(s) && s@ == package_name@
            } else if bin_targets@.len() == 1 {
                r matches Ok(s) && s@ == bin_targets@[0]@
            } else {
                r matches Err(e) && e@ == "Multiple [[bin]] targets found: "@ + debug_list(
                    bin_targets.deep_view(),
                ) + ". Specify which one with --bin"@
            },
        },
{
    if let Some(b) = cli_bin {
        return Ok(string_of(&chars_of(b)));
    }
    if let Some(b) = config_bin {
        return Ok(string_of(&chars_of(b)));
    }
    if bin_targets.len() == 0 {
        Ok(string_of(&chars_of(package_name)))
    } else if bin_targets.len() == 1 {
        Ok(bin_targets[0].clone())
    } else {
        let mut e = chars_of("Multiple [[bin]] targets found: ");
        let d = debug_strings(bin_targets);
        push_str(&mut e, d.as_str());
        push_str(&mut e, ". Specify which one with --bin");
        Err(string_of(&e))
    }
}

/// The remote path with every `$HOME` replaced by the remote home directory.
pub fn expand_home(remote_path: &str, home: &str) -> (r: String)
    ensures
        r@ == replace_all(remote_path@, "$HOME"@, home@),
{
    let p = chars_of(remote_path);
    let pat = chars_of("$HOME");
    let h = chars_of(home);
    proof {
        reveal_strlit("$HOME");
    }
    let out = replace(&p, &pat, &h);
    string_of(&out)
}

/// The work that a subcommand stands for.
#[derive(Debug)]
pub enum Plan {
    /// Sync, run the prebuild hook, then run these steps in order.
    Steps(Vec<Step>),
    /// Build and start the binary in the background.
    Serve,
    /// Stop the running binary.
    Stop,
    /// Install the binary as a service.
    Deploy,
    /// Remove the service and the binary.
    Undeploy,
    /// Show the state of the binary.
    Status,
}

/// The steps of a user-defined command: each string parsed as a step, the
/// first error (from the left) ending the list.
pub open spec fn parse_steps_spec(strs: Seq<Seq<char>>) -> Result<
    Seq<(StepName, Seq<Seq<char>>)>,
    Seq<char>,
>
    decreases strs.len(),
{
    if strs.len() == 0 {
        Ok(Seq::empty())
    } else {
        match parse_step_spec(strs[0]) {
            Err(e) => Err(e),
            Ok(st) => match parse_steps_spec(strs.drop_first()) {
                Err(e) => Err(e),
                Ok(rest) => Ok(seq![st] + rest),
            },
        }
    }
}

/// The view of a step.
pub open spec fn step_view(s: Step) -> (StepName, Seq<Seq<char>>) {
    (s.name, s.args.deep_view())
}

/// The views of a list of steps.
pub open spec fn steps_view(v: Seq<Step>) -> Seq<(StepName, Seq<Seq<char>>)> {
    v.map_values(|s: Step| step_view(s))
}

pub open spec fn prepend(
    done: Seq<(StepName, Seq<Seq<char>>)>,
    r: Result<Seq<(StepName, Seq<Seq<char>>)>, Seq<char>>,
) -> Result<Seq<(StepName, Seq<Seq<char>>)>, Seq<char>> {
    match r {
        Ok(x) => Ok(done + x),
        Err(e) => Err(e),
    }
}

/// Parses the step strings of a user-defined command.
pub fn parse_steps(strs: &Vec<String>) -> (r: Result<Vec<Step>, String>)
    ensures
        match r {
            Ok(v) => parse_steps_spec(strs.deep_view()) == Ok::<
                Seq<(StepName, Seq<Seq<char>>)>,
                Seq<char>,
            >(steps_view(v@)),
            Err(e) => parse_steps_spec(strs.deep_view()) == Err::<
                Seq<(StepName, Seq<Seq<char>>)>,
                Seq<char>,
            >(e@),
        },
{
    let ghost sv = strs.deep_view();
    let ghost f = |s: Step| step_view(s);
    let mut out: Vec<Step> = Vec::new();
    let mut i: usize = 0;
    assert(sv.skip(0) == sv);
    assert(out@.map_values(f) + Seq::<(StepName, Seq<Seq<char>>)>::empty() =~= Seq::<
        (StepName, Seq<Seq<char>>),
    >::empty());
    assert(prepend(out@.map_values(f), parse_steps_spec(sv)) == parse_steps_spec(sv)) by {
        assert(out@.map_values(f) =~= Seq::<(StepName, Seq<Seq<char>>)>::empty());
        match parse_steps_spec(sv) {
            Ok(x) => {
                assert(Seq::<(StepName, Seq<Seq<char>>)>::empty() + x =~= x);
            },
            Err(_) => {},
        }
    }
    while i < strs.len()
        invariant
            i <= strs.len(),
            sv == strs.deep_view(),
            f == (|s: Step| step_view(s)),
            parse_steps_spec(sv) == prepend(out@.map_values(f), parse_steps_spec(sv.skip(i as int))),
        decreases strs.len() - i,
    {
        let ghost rest = sv.skip(i as int);
        assert(rest[0] == strs@[i as int]@);
        assert(rest.drop_first() == sv.skip(i + 1));
        match parse_step(strs[i].as_str()) {
            Err(e) => {
                return Err(e);
            },
            Ok(st) => {
                let ghost before = out@.map_values(f);
                out.push(st);
                proof {
                    assert(out@.map_values(f) == before.push(f(st)));
                    match parse_steps_spec(sv.skip(i + 1)) {
                        Ok(x) => {
                            assert(before + (seq![f(st)] + x) == before.push(f(st)) + x);
                        },
                        Err(_) => {},
                    }
                }
            },
        }
        i = i + 1;
    }
    proof {
        assert(sv.skip(strs.len() as int) =~= Seq::<Seq<char>>::empty());
        assert(out@.map_values(f) + Seq::<(StepName, Seq<Seq<char>>)>::empty() == out@.map_values(
            f,
        ));
    }
    Ok(out)
}

/// The steps of the built-in step command `name`, without arguments.
pub open spec fn single_step(r: Plan, name: StepName) -> bool {
    r matches Plan::Steps(v) && v@.len() == 1 && v@[0].name == name && v@[0].args@.len() == 0
}

/// The work of a subcommand. Built-in step commands are one step; `test`
/// passes its arguments on; a user-defined command is looked up in
/// `[commands]` and its steps parsed.
pub fn plan_command(cmd: Command, config: &Config) -> (r: Result<Plan, String>)
    ensures
        match cmd {
            Command::Build => r matches Ok(p) && single_step(p, StepName::Build),
            Command::Check => r matches Ok(p) && single_step(p, StepName::Check),
            Command::Clippy => r matches Ok(p) && single_step(p, StepName::Clippy),
            Command::Lint => r matches Ok(p) && single_step(p, StepName::Lint),
            Command::Run => r matches Ok(Plan::Serve),
            Command::Stop => r matches Ok(Plan::Stop),
            Command::Deploy => r matches Ok(Plan::Deploy),
            Command::Undeploy => r matches Ok(Plan::Undeploy),
            Command::Status => r matches Ok(Plan::Status),
            Command::Test { args } => r matches Ok(Plan::Steps(v)) && v@.len() == 1 && v@[0].name
                == StepName::Test && v@[0].args.deep_view() == args.deep_view(),
            Command::Custom(ext) => if ext@.len() == 0 {
                r matches Err(e) && e@ == "missing command name"@
            } else if ext@.len() > 1 {
                r matches Err(e) && e@ == "unexpected arguments for command '"@ + ext@[0]@ + "'"@
            } else {
                match lookup(config.commands@, ext@[0]@) {
                    None => r matches Err(e) && e@ == "no command '"@ + ext@[0]@
                        + "' defined in [commands]"@,
                    Some(strs) => match parse_steps_spec(strs.deep_view()) {
                        Ok(steps) => r matches Ok(Plan::Steps(v)) && steps_view(v@) == steps,
                        Err(e) => r matches Err(m) && m@ == e,
                    },
                }
            },
        },
{
    match cmd {
        Command::Build => Ok(Plan::Steps(crate::cli::one_step(StepName::Build))),
        Command::Check => Ok(Plan::Steps(crate::cli::one_step(StepName::Check))),
        Command::Clippy => Ok(Plan::Steps(crate::cli::one_step(StepName::Clippy))),
        Command::Lint => Ok(Plan::Steps(crate::cli::one_step(StepName::Lint))),
        Command::Run => Ok(Plan::Serve),
        Command::Stop => Ok(Plan::Stop),
        Command::Deploy => Ok(Plan::Deploy),
        Command::Undeploy => Ok(Plan::Undeploy),
        Command::Status => Ok(Plan::Status),
        Command::Test { args } => {
            let mut v: Vec<Step> = Vec::new();
            v.push(Step { name: StepName::Test, args });
            Ok(Plan::Steps(v))
        },
        Command::Custom(ext) => {
            if ext.len() == 0 {
                return Err(string_of(&chars_of("missing command name")));
            }
            if ext.len() > 1 {
                let mut e = chars_of("unexpected arguments for command '");
                push_str(&mut e, ext[0].as_str());
                push_str(&mut e, "'");
                return Err(string_of(&e));
            }
            let name = &ext[0];
            let mut j: usize = config.commands.len();
            let mut found: Option<usize> = None;
            assert(config.commands@.take(j as int) == config.commands@);
            while j > 0 && found.is_none()
                invariant
                    j <= config.commands.len(),
                    ext@.len() == 1,
                    name@ == ext@[0]@,
                    found matches Some(k) ==> k < config.commands.len() && lookup(
                        config.commands@,
                        name@,
                    ) == Some(config.commands@[k as int].1),
                    found is None ==> lookup(config.commands@, name@) == lookup(
                        config.commands@.take(j as int),
                        name@,
                    ),
                decreases j,
            {
                assert(config.commands@.take(j as int).last() == config.commands@[j - 1]);
                assert(config.commands@.take(j as int).drop_last() == config.commands@.take(
                    j - 1,
                ));
                let k = chars_of(config.commands[j - 1].0.as_str());
                let nv = chars_of(name.as_str());
                if crate::text::chars_eq(&k, &nv) {
                    found = Some(j - 1);
                }
                j = j - 1;
            }
            if let Some(k) = found {
                return match parse_steps(&config.commands[k].1) {
                    Ok(v) => Ok(Plan::Steps(v)),
                    Err(e) => Err(e),
                };
            }
            let mut e = chars_of("no command '");
            push_str(&mut e, name.as_str());
            push_str(&mut e, "' defined in [commands]");
            Err(string_of(&e))
        },
    }
}

/// The cargo invocation of each step command, after `cargo `.
pub open spec fn step_sub(n: StepName) -> Seq<char> {
    match n {
        StepName::Lint => "lint"@,
        StepName::Clippy => "clippy --workspace -- -D warnings"@,
        StepName::Check => "check --workspace"@,
        StepName::Test => "test"@,
        StepName::Build => "build --release"@,
    }
}

/// The remote command line of a step: its cargo invocation with the step's
/// arguments, in the project directory, sandboxed as configured.
pub fn step_command(config: &Config, remote_path: &str, home: &str, step: &Step, debug: bool) -> (r:
    String)
    ensures
        r@ == sandbox_cmd_spec(
            *config,
            remote_path@,
            home@,
            cargo_inner(remote_path@, step_sub(step.name) + quoted_args_spec(step.args.deep_view())),
        ),
{
    match step.name {
        StepName::Lint => lint_cmd(config, remote_path, home, &step.args, debug),
        StepName::Clippy => clippy_cmd(config, remote_path, home, &step.args, debug),
        StepName::Check => check_cmd(config, remote_path, home, &step.args, debug),
        StepName::Test => test_cmd(config, remote_path, home, &step.args, debug),
        StepName::Build => build_cmd(config, remote_path, home, &step.args, debug),
    }
}

/// A step written as its command word and its arguments, separated by
/// single spaces, parses back to the same step, when the arguments are
/// non-empty words without white space.
pub proof fn lemma_parse_step_roundtrip(name: StepName, args: Seq<Seq<char>>)
    requires
        words(args),
    ensures
        parse_step_spec(join(seq![step_word(name)] + args, sp())) == Ok::<
            (StepName, Seq<Seq<char>>),
            Seq<char>,
        >((name, args)),
{
    reveal_strlit("lint");
    reveal_strlit("clippy");
    reveal_strlit("check");
    reveal_strlit("test");
    reveal_strlit("build");
    let items = seq![step_word(name)] + args;
    assert(items[0] == step_word(name));
    assert forall|k: int| 0 <= k < items.len() implies (#[trigger] items[k]).len() > 0
        && crate::text::no_ws(items[k]) by {
        if k > 0 {
            assert(items[k] == args[k - 1]);
        }
    }
    assert(words(items));
    lemma_tokens_join(items);
    assert(ws_tokens(join(items, sp())) == items);
    crate::cli::lemma_step_word(name);
    assert(items.skip(1) == args);
}

} // verus!
