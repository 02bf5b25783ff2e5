use rcargo::cli::{one_step, parse_step, Command, StepName};
use rcargo::config::Config;
use rcargo::plan::{
    expand_home, parse_steps, plan_command, resolve_bin_name, resolve_target, step_command, Plan,
};
use rcargo::sandbox::{build_cmd, test_cmd};

#[test]
fn target_resolution() {
    assert_eq!(resolve_target("cfg", Some("cli")).unwrap(), "cli");
    assert_eq!(resolve_target("cfg", None).unwrap(), "cfg");
    assert_eq!(
        resolve_target("", None).unwrap_err(),
        "No target specified. Provide --target flag or create rcargo.toml with: target = \"<ssh_target>\""
    );
    assert!(resolve_target("cfg", Some("")).is_err());
}

#[test]
fn bin_resolution() {
    let none: Vec<String> = vec![];
    let one = vec!["srv".to_string()];
    let two = vec!["a".to_string(), "b".to_string()];
    assert_eq!(resolve_bin_name("pkg", &two, Some("cfg"), Some("cli")).unwrap(), "cli");
    assert_eq!(resolve_bin_name("pkg", &two, Some("cfg"), None).unwrap(), "cfg");
    assert_eq!(resolve_bin_name("pkg", &none, None, None).unwrap(), "pkg");
    assert_eq!(resolve_bin_name("pkg", &one, None, None).unwrap(), "srv");
    assert_eq!(
        resolve_bin_name("pkg", &two, None, None).unwrap_err(),
        "Multiple [[bin]] targets found: [\"a\", \"b\"]. Specify which one with --bin"
    );
}

#[test]
fn home_expansion() {
    assert_eq!(expand_home("$HOME/build/app", "/home/u"), "/home/u/build/app");
    assert_eq!(expand_home("/srv/app", "/home/u"), "/srv/app");
    assert_eq!(expand_home("$HOME/$HOME", "/h"), "/h//h");
}

#[test]
fn step_parsing() {
    let s = parse_step("test --workspace -q").unwrap();
    assert_eq!(s.name, StepName::Test);
    assert_eq!(s.args, vec!["--workspace", "-q"]);
    assert_eq!(parse_step("   ").unwrap_err(), "empty command in [commands]");
    assert_eq!(parse_step("deploy now").unwrap_err(), "'deploy' is not a known command");
    assert_eq!(StepName::Clippy.as_str(), "clippy");
    let v = one_step(StepName::Lint);
    assert_eq!(v.len(), 1);
    assert!(v[0].args.is_empty());
}

#[test]
fn step_list_parsing_stops_at_first_error() {
    let ok = vec!["lint".to_string(), "test --workspace -q".to_string()];
    let steps = parse_steps(&ok).unwrap();
    assert_eq!(steps.len(), 2);
    assert_eq!(steps[0].name, StepName::Lint);
    let bad = vec!["lint".to_string(), "bogus".to_string(), "".to_string()];
    assert_eq!(parse_steps(&bad).unwrap_err(), "'bogus' is not a known command");
}

fn config_with_commands() -> Config {
    let mut cfg = Config::default();
    cfg.commands.push(("ci".into(), vec!["lint".into(), "test --workspace -q".into()]));
    cfg.commands.push(("bad".into(), vec!["frobnicate".into()]));
    cfg
}

#[test]
fn command_plans() {
    let cfg = config_with_commands();
    match plan_command(Command::Build, &cfg).unwrap() {
        Plan::Steps(v) => {
            assert_eq!(v.len(), 1);
            assert_eq!(v[0].name, StepName::Build);
        }
        other => panic!("unexpected {other:?}"),
    }
    assert!(matches!(plan_command(Command::Run, &cfg).unwrap(), Plan::Serve));
    assert!(matches!(plan_command(Command::Stop, &cfg).unwrap(), Plan::Stop));
    match plan_command(Command::Test { args: vec!["--".into(), "--skip".into(), "foo".into()] }, &cfg)
        .unwrap()
    {
        Plan::Steps(v) => {
            assert_eq!(v[0].name, StepName::Test);
            assert_eq!(v[0].args, vec!["--", "--skip", "foo"]);
        }
        other => panic!("unexpected {other:?}"),
    }
    match plan_command(Command::Custom(vec!["ci".into()]), &cfg).unwrap() {
        Plan::Steps(v) => {
            assert_eq!(v.len(), 2);
            assert_eq!(v[1].name, StepName::Test);
            assert_eq!(v[1].args, vec!["--workspace", "-q"]);
        }
        other => panic!("unexpected {other:?}"),
    }
}

#[test]
fn custom_command_errors() {
    let cfg = config_with_commands();
    assert_eq!(
        plan_command(Command::Custom(vec![]), &cfg).unwrap_err(),
        "missing command name"
    );
    assert_eq!(
        plan_command(Command::Custom(vec!["ci".into(), "x".into()]), &cfg).unwrap_err(),
        "unexpected arguments for command 'ci'"
    );
    assert_eq!(
        plan_command(Command::Custom(vec!["buid".into()]), &cfg).unwrap_err(),
        "no command 'buid' defined in [commands]"
    );
    assert_eq!(
        plan_command(Command::Custom(vec!["bad".into()]), &cfg).unwrap_err(),
        "'frobnicate' is not a known command"
    );
}

#[test]
fn unsandboxed_step_commands() {
    let mut cfg = Config::default();
    cfg.sandbox.enabled = false;
    let step = parse_step("test --workspace").unwrap();
    assert_eq!(
        step_command(&cfg, "/r", "/h", &step, false),
        "cd /r && CARGO_TERM_PROGRESS_WHEN=never cargo test --workspace"
    );
    assert_eq!(
        build_cmd(&cfg, "/r", "/h", &vec![], false),
        "cd /r && CARGO_TERM_PROGRESS_WHEN=never cargo build --release"
    );
    assert_eq!(
        test_cmd(&cfg, "/r", "/h", &vec!["my arg".into()], false),
        "cd /r && CARGO_TERM_PROGRESS_WHEN=never cargo test my' arg'"
    );
}

#[test]
fn step_text_parses_back() {
    for name in [StepName::Lint, StepName::Clippy, StepName::Check, StepName::Test, StepName::Build] {
        let text = format!("{} --all -q", name.as_str());
        let s = parse_step(&text).unwrap();
        assert_eq!(s.name, name);
        assert_eq!(s.args, vec!["--all", "-q"]);
    }
}
