use minishell::dispatch::{
    cd_failed_report, cd_home_failed_report, classify, command_for_line, describe_report,
    home_target, unknown_report, Command,
};
use minishell::registry::{builtin_of, is_builtin, Builtin};

fn line(text: &str) -> Command {
    command_for_line(Some(text))
}

fn print(text: &str) -> Command {
    Command::Print { line: text.to_string() }
}

#[test]
fn registry_holds_the_five_builtins() {
    assert_eq!(builtin_of("exit"), Some(Builtin::Exit));
    assert_eq!(builtin_of("echo"), Some(Builtin::Echo));
    assert_eq!(builtin_of("type"), Some(Builtin::Type));
    assert_eq!(builtin_of("pwd"), Some(Builtin::Pwd));
    assert_eq!(builtin_of("cd"), Some(Builtin::Cd));
    assert_eq!(builtin_of("ls"), None);
    assert!(!is_builtin("Echo"));
    assert!(!is_builtin(""));
}

#[test]
fn echo_joins_arguments() {
    assert_eq!(line("echo a b c"), print("a b c"));
    assert_eq!(line("echo   a    b"), print("a b"));
}

#[test]
fn echo_without_arguments_prints_empty_line() {
    assert_eq!(line("echo"), print(""));
}

#[test]
fn type_of_builtin() {
    assert_eq!(line("type cd"), print("cd is a shell builtin"));
    assert_eq!(line("type type"), print("type is a shell builtin"));
}

#[test]
fn type_of_other_name_is_looked_up() {
    assert_eq!(
        line("type nonexistent_cmd_xyz"),
        Command::Describe { name: "nonexistent_cmd_xyz".to_string() }
    );
}

#[test]
fn type_not_found_report() {
    assert_eq!(describe_report("nonexistent_cmd_xyz", &None), "nonexistent_cmd_xyz: not found");
    assert_eq!(describe_report("ls", &Some("/bin/ls".to_string())), "ls is /bin/ls");
}

#[test]
fn type_argument_count() {
    assert_eq!(line("type"), Command::Nothing);
    assert_eq!(line("type a b"), print("type: too many arguments"));
}

#[test]
fn exit_statuses() {
    assert_eq!(line("exit 3"), Command::Exit { status: 3 });
    assert_eq!(line("exit"), Command::Exit { status: 0 });
    assert_eq!(command_for_line(None), Command::Exit { status: 0 });
    assert_eq!(line("exit -1"), Command::Exit { status: -1 });
}

#[test]
fn exit_with_bad_status_reports_and_continues() {
    assert_eq!(line("exit abc"), print("exit: abc: numeric argument required"));
    assert_eq!(line("exit 1 2"), print("exit: too many arguments"));
}

#[test]
fn pwd_and_its_arguments() {
    assert_eq!(line("pwd"), Command::Pwd);
    assert_eq!(line("pwd x"), print("pwd: too many arguments"));
}

#[test]
fn cd_targets() {
    assert_eq!(line("cd ~"), Command::ChangeHome);
    assert_eq!(line("cd"), Command::ChangeHome);
    assert_eq!(line("cd /tmp"), Command::ChangeDir { dir: "/tmp".to_string() });
    assert_eq!(line("cd ../x"), Command::ChangeDir { dir: "../x".to_string() });
    assert_eq!(line("cd a b"), print("cd: too many arguments"));
}

#[test]
fn cd_home_with_and_without_home() {
    assert_eq!(home_target(Some("/home/u")), Ok("/home/u".to_string()));
    assert_eq!(home_target(None), Err("cd: HOME not set".to_string()));
}

#[test]
fn cd_failure_names_the_directory() {
    let msg = cd_failed_report("/no/such", "No such file or directory (os error 2)");
    assert_eq!(msg, "cd: /no/such: No such file or directory");
    assert!(msg.contains("/no/such"));
    assert_eq!(cd_home_failed_report("Permission denied (os error 13)"), "cd: Permission denied");
}

#[test]
fn unknown_command_report() {
    assert_eq!(unknown_report("frob"), "frob: command not found");
}

#[test]
fn other_names_run_with_their_arguments() {
    assert_eq!(
        line("ls -l  /tmp"),
        Command::Run { name: "ls".to_string(), args: vec!["-l".to_string(), "/tmp".to_string()] }
    );
    assert_eq!(line("true"), Command::Run { name: "true".to_string(), args: vec![] });
}

#[test]
fn empty_line_does_nothing() {
    assert_eq!(line(""), Command::Nothing);
    assert_eq!(line("   "), Command::Nothing);
    assert_eq!(classify(&Vec::new()), Command::Nothing);
}

#[test]
fn builtin_lines_never_search() {
    for text in ["exit 1 2", "echo x", "type", "type cd", "type ls", "pwd a", "cd", "cd a b", "exit x"] {
        match line(text) {
            Command::Run { .. } => panic!("{} was run", text),
            Command::Describe { name } => {
                assert!(!is_builtin(&name));
                assert_ne!(name, text.split_whitespace().next().unwrap());
            }
            _ => {}
        }
    }
}
