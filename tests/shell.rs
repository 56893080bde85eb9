use shell::builtins::{builtin_echo, builtin_exit, builtin_type, is_builtin_name};
use shell::parse::{parse_command, same_text, split_tokens, trim_line};
use shell::resolve::{candidate_path, get_exec_path, is_executable_mode, is_runnable, ExecutableLocation, Probe};
use shell::session::{eval_input, lookup_target, repl, Action, Event, Outcome, FAILURE_STATUS};

fn strings(v: &[&str]) -> Vec<String> {
    v.iter().map(|s| s.to_string()).collect()
}

fn printed(a: Action) -> String {
    match a {
        Action::Print(s) => s,
        _ => panic!("expected text to print"),
    }
}

fn run_line(line: &str, dirs: &[&str], probes: &[Probe]) -> Action {
    match repl(Event::Line(line.to_string())) {
        Action::Locate(name) => {
            let found = get_exec_path(&name, &strings(dirs), &probes.to_vec());
            repl(Event::Located(line.to_string(), found))
        }
        other => other,
    }
}

#[test]
fn echo_prints_its_text() {
    assert_eq!(printed(run_line("echo hi there", &[], &[])), "hi there\n");
    assert!(matches!(repl(Event::Ready), Action::Prompt));
}

#[test]
fn echo_round_trip() {
    assert_eq!(printed(run_line("echo hello world\n", &[], &[])), "hello world\n");
    assert!(lookup_target("echo hello world").is_none());
}

#[test]
fn echo_keeps_inner_whitespace() {
    assert_eq!(printed(run_line("echo   a  b  \n", &[], &[])), "a  b\n");
    assert_eq!(printed(run_line("echo", &[], &[])), "\n");
    assert_eq!(builtin_echo("x y"), "x y\n");
}

#[test]
fn exit_with_status_terminates() {
    assert!(matches!(run_line("exit 7", &[], &[]), Action::Terminate(7)));
    assert!(matches!(run_line("exit 3", &[], &[]), Action::Terminate(3)));
    assert!(matches!(run_line("exit 0", &[], &[]), Action::Terminate(0)));
    assert!(matches!(run_line("exit 255", &[], &[]), Action::Terminate(255)));
    assert!(matches!(run_line("exit 007", &[], &[]), Action::Terminate(7)));
}

#[test]
fn exit_without_status_continues() {
    assert!(matches!(run_line("exit abc", &[], &[]), Action::Prompt));
    assert!(matches!(run_line("exit 256", &[], &[]), Action::Prompt));
    assert!(matches!(run_line("exit", &[], &[]), Action::Prompt));
    assert!(matches!(run_line("exit 3 4", &[], &[]), Action::Prompt));
    assert!(matches!(run_line("exit -1", &[], &[]), Action::Prompt));
}

#[test]
fn exit_status_parsing() {
    assert_eq!(builtin_exit("42"), Some(42));
    assert_eq!(builtin_exit("255"), Some(255));
    assert_eq!(builtin_exit("256"), None);
    assert_eq!(builtin_exit("99999999999999999999"), None);
    assert_eq!(builtin_exit(""), None);
    assert_eq!(builtin_exit("1a"), None);
}

#[test]
fn type_reports_builtins() {
    assert_eq!(printed(run_line("type echo", &[], &[])), "echo is a shell builtin\n");
    assert!(lookup_target("type echo").is_none());
}

#[test]
fn builtins_take_precedence_over_executables() {
    let present = [Probe::Present(0o755)];
    for name in ["echo", "exit", "type"] {
        let line = format!("type {}", name);
        assert!(lookup_target(&line).is_none());
        let loc = get_exec_path(name, &strings(&["/bin"]), &present.to_vec());
        let out = eval_input(&line, loc);
        match out {
            Outcome::Print(s) => assert_eq!(s, format!("{} is a shell builtin\n", name)),
            _ => panic!("expected a report"),
        }
    }
}

#[test]
fn type_reports_resolved_path() {
    assert_eq!(lookup_target("type ls"), Some("ls".to_string()));
    let out = run_line("type ls", &["/usr/bin"], &[Probe::Present(0o755)]);
    assert_eq!(printed(out), "ls is /usr/bin/ls\n");
}

#[test]
fn type_not_found() {
    assert_eq!(printed(run_line("type doesnotexist123", &[], &[])), "doesnotexist123: not found\n");
    let out = run_line("type doesnotexist123", &["/a", "/b"], &[Probe::Missing, Probe::Present(0o644)]);
    assert_eq!(printed(out), "doesnotexist123: not found\n");
}

#[test]
fn type_usage_on_wrong_count() {
    assert_eq!(printed(run_line("type", &[], &[])), "type: invalid number of arguments\n");
    assert_eq!(printed(run_line("type a b", &[], &[])), "type: invalid number of arguments\n");
    assert_eq!(builtin_type(&strings(&["echo"]), &None), "echo is a shell builtin\n");
}

#[test]
fn unknown_command() {
    assert_eq!(printed(run_line("qqzz", &[], &[])), "qqzz: command not found\n");
    assert_eq!(printed(run_line("  foo  bar \n", &["/x"], &[Probe::Missing])), "foo  bar: command not found\n");
    assert_eq!(printed(run_line("   \n", &[], &[])), ": command not found\n");
    assert_eq!(lookup_target("qqzz"), Some("qqzz".to_string()));
}

#[test]
fn external_command_is_launched() {
    let out = run_line("ls -l /tmp", &["/usr/bin"], &[Probe::Present(0o700)]);
    match out {
        Action::Launch(loc, args) => {
            assert_eq!(loc.directory, "/usr/bin");
            assert_eq!(loc.full_path, "/usr/bin/ls");
            assert_eq!(args, strings(&["-l", "/tmp"]));
        }
        _ => panic!("expected a launch"),
    }
}

#[test]
fn end_of_input_fails() {
    assert!(matches!(repl(Event::EndOfInput), Action::Terminate(s) if s == FAILURE_STATUS && s != 0));
}

#[test]
fn resolver_takes_earlier_directory() {
    let dirs = strings(&["/first", "/second"]);
    let probes = vec![Probe::Present(0o755), Probe::Present(0o755)];
    let loc: ExecutableLocation = get_exec_path("foo", &dirs, &probes).unwrap();
    assert_eq!(loc.directory, "/first");
    assert_eq!(loc.full_path, "/first/foo");
}

#[test]
fn resolver_skips_ineligible_entries() {
    let dirs = strings(&["/a", "/b", "/c"]);
    let probes = vec![Probe::Missing, Probe::Present(0o644), Probe::Present(0o001)];
    let loc = get_exec_path("foo", &dirs, &probes).unwrap();
    assert_eq!(loc.full_path, "/c/foo");
    assert!(get_exec_path("foo", &Vec::new(), &Vec::new()).is_none());
}

#[test]
fn execute_bits() {
    assert!(!is_executable_mode(0o644));
    assert!(is_executable_mode(0o100744));
    assert!(is_executable_mode(0o010));
    assert!(is_executable_mode(0o001));
    assert!(!is_runnable(Probe::Missing));
    assert!(is_runnable(Probe::Present(0o500)));
}

#[test]
fn parsing_parts() {
    assert_eq!(trim_line(" \t echo hi \r\n"), "echo hi");
    assert_eq!(trim_line("\u{3000}x\u{a0}"), "x");
    let p = parse_command("  cmd   a  b ").unwrap();
    assert_eq!(p.name, "cmd");
    assert_eq!(p.remainder, "a  b");
    assert!(parse_command(" \n").is_none());
    assert_eq!(split_tokens("a  b"), strings(&["a", "", "b"]));
    assert!(split_tokens("").is_empty());
    assert_eq!(candidate_path("/usr/bin", "ls"), "/usr/bin/ls");
    assert!(same_text("abc", "abc"));
    assert!(!same_text("abc", "abd"));
    assert!(is_builtin_name("type"));
    assert!(!is_builtin_name("Echo"));
}
