use rush::cmd::{Action, Cmd};
use rush::text::{align_right, decimal, same};

fn cmd(ws: &[&str]) -> Cmd {
    let mut c = Cmd::new();
    for w in ws {
        c.push(w);
    }
    c
}

#[test]
fn new_command_is_empty_and_push_appends() {
    let mut c = Cmd::new();
    assert_eq!(c.len(), 0);
    c.push("ls");
    c.push("-l");
    assert_eq!(c.len(), 2);
    assert_eq!(c.prog(), "ls");
    assert_eq!(c.word(1), "-l");
    assert_eq!(c.argv(), &vec!["ls".to_string(), "-l".to_string()]);
}

#[test]
fn builtins_are_a_closed_set() {
    for name in ["cd", "exit", "history", "jobs", "kill", "pwd"] {
        assert!(cmd(&[name]).is_builtin(), "{}", name);
        assert!(cmd(&[name, "x", "y"]).is_builtin(), "{}", name);
    }
    for name in ["ls", "CD", "cd ", "c", "cdd", "echo", "killall", "", "pw"] {
        assert!(!cmd(&[name]).is_builtin(), "{}", name);
    }
}

#[test]
fn prog_num_counts_arguments() {
    assert!(cmd(&["pwd"]).prog_num(0));
    assert!(!cmd(&["pwd"]).prog_num(1));
    assert!(cmd(&["cd", "/"]).prog_num(1));
    assert!(!cmd(&["cd", "/", "x"]).prog_num(1));
}

#[test]
fn builtins_with_the_right_arity() {
    assert_eq!(cmd(&["cd", "/tmp"]).exec(), Action::ChangeDir);
    assert_eq!(cmd(&["history"]).exec(), Action::History);
    assert_eq!(cmd(&["jobs"]).exec(), Action::Jobs);
    assert_eq!(cmd(&["exit"]).exec(), Action::Exit);
    assert_eq!(cmd(&["pwd"]).exec(), Action::Pwd);
    assert_eq!(cmd(&["kill", "42"]).exec(), Action::Kill { pid: 42 });
}

#[test]
fn builtins_with_the_wrong_arity() {
    assert_eq!(cmd(&["cd"]).exec(), Action::WrongArity { expected: 1, found: 0 });
    assert_eq!(cmd(&["cd", "a", "b"]).exec(), Action::WrongArity { expected: 1, found: 2 });
    assert_eq!(cmd(&["history", "x"]).exec(), Action::WrongArity { expected: 0, found: 1 });
    assert_eq!(cmd(&["jobs", "x"]).exec(), Action::WrongArity { expected: 0, found: 1 });
    assert_eq!(cmd(&["exit", "1"]).exec(), Action::WrongArity { expected: 0, found: 1 });
    assert_eq!(cmd(&["pwd", "x", "y", "z"]).exec(), Action::WrongArity { expected: 0, found: 3 });
    assert_eq!(cmd(&["kill"]).exec(), Action::WrongArity { expected: 1, found: 0 });
    assert_eq!(cmd(&["kill", "1", "2"]).exec(), Action::WrongArity { expected: 1, found: 2 });
}

#[test]
fn arity_message_names_both_counts() {
    assert_eq!(cmd(&["cd"]).arity_message(1), "cd: Expect 1 arguments, found 0");
    assert_eq!(cmd(&["pwd", "a", "b"]).arity_message(0), "pwd: Expect 0 arguments, found 2");
    let many: Vec<&str> = std::iter::once("jobs").chain(std::iter::repeat("x").take(12)).collect();
    assert_eq!(cmd(&many).arity_message(0), "jobs: Expect 0 arguments, found 12");
}

#[test]
fn kill_reads_its_argument_as_an_integer() {
    assert_eq!(cmd(&["kill", "0"]).exec(), Action::Kill { pid: 0 });
    assert_eq!(cmd(&["kill", "-5"]).exec(), Action::Kill { pid: -5 });
    assert_eq!(cmd(&["kill", "+7"]).exec(), Action::Kill { pid: 7 });
    assert_eq!(cmd(&["kill", "2147483647"]).exec(), Action::Kill { pid: 2147483647 });
    assert_eq!(cmd(&["kill", "2147483648"]).exec(), Action::KillNotInteger);
    assert_eq!(cmd(&["kill", "abc"]).exec(), Action::KillNotInteger);
    assert_eq!(cmd(&["kill", "12x"]).exec(), Action::KillNotInteger);
    assert_eq!(cmd(&["kill", "1.5"]).exec(), Action::KillNotInteger);
    assert_eq!(cmd(&["kill", "abc"]).kill_message(), "kill: abc isn't an integer");
}

#[test]
fn decide_takes_the_identifier_as_given() {
    assert_eq!(cmd(&["kill", "abc"]).decide(Some(9)), Action::Kill { pid: 9 });
    assert_eq!(cmd(&["kill", "9"]).decide(None), Action::KillNotInteger);
    assert_eq!(cmd(&["kill"]).decide(Some(9)), Action::WrongArity { expected: 1, found: 0 });
    assert_eq!(cmd(&["ls", "9"]).decide(Some(9)), Action::Replace);
    assert_eq!(cmd(&["cd", "9"]).decide(Some(9)), Action::ChangeDir);
}

#[test]
fn other_names_replace_the_process() {
    assert_eq!(cmd(&["ls"]).exec(), Action::Replace);
    assert_eq!(cmd(&["echo", "hi", "there"]).exec(), Action::Replace);
    assert_eq!(cmd(&["badcmd"]).exec(), Action::Replace);
}

#[test]
fn a_failed_call_is_reported_under_its_label() {
    let bad = cmd(&["badcmd", "x"]);
    assert_eq!(bad.failure(Action::Replace, -1), Some("badcmd".to_string()));
    assert_eq!(bad.failure(Action::Replace, 0), None);
    let cd = cmd(&["cd", "/nowhere"]);
    assert_eq!(cd.failure(Action::ChangeDir, -1), Some("cd: /nowhere".to_string()));
    assert_eq!(cd.failure(Action::ChangeDir, 0), None);
    let kill = cmd(&["kill", "99999"]);
    assert_eq!(kill.failure(Action::Kill { pid: 99999 }, -1), Some("kill".to_string()));
    assert_eq!(kill.failure(Action::Kill { pid: 99999 }, 0), None);
    assert_eq!(kill.failure(Action::Pwd, -1), None);
    assert_eq!(kill.failure(Action::KillNotInteger, -1), None);
}

#[test]
fn decimal_writes_numbers() {
    assert_eq!(decimal(0), "0");
    assert_eq!(decimal(7), "7");
    assert_eq!(decimal(10), "10");
    assert_eq!(decimal(12345), "12345");
    assert_eq!(decimal(9876543210), "9876543210");
    assert_eq!(decimal(usize::MAX), usize::MAX.to_string());
}

#[test]
fn align_right_pads_on_the_left() {
    assert_eq!(align_right("1", 5), "    1");
    assert_eq!(align_right("12345", 5), "12345");
    assert_eq!(align_right("123456", 5), "123456");
    assert_eq!(align_right("", 3), "   ");
    assert_eq!(align_right("é", 3), "  é");
}

#[test]
fn same_compares_by_characters() {
    assert!(same("", ""));
    assert!(same("cd", "cd"));
    assert!(!same("cd", "cdd"));
    assert!(!same("cd", "ce"));
    assert!(same("héllo", "héllo"));
}
