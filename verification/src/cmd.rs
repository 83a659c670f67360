//! A single command: a program name and its arguments, and what running it
//! asks for.

use vstd::prelude::*;
use vstd::string::*;
use crate::words::texts;
use crate::text::{same, decimal, digits};

verus! {

/// One program invocation: the program's name, then its arguments.
#[derive(Debug)]
pub struct Cmd {
    cmd: Vec<String>,
}

/// What running a command asks of the process that runs it.
#[derive(Clone, Copy, Debug, PartialEq, Eq, Structural)]
pub enum Action {
    /// A builtin was given the wrong number of arguments: nothing is done
    /// but to say so.
    WrongArity { expected: usize, found: usize },
    /// Change the working directory to the first argument.
    ChangeDir,
    /// List the recorded lines.
    History,
    /// List the jobs that still run.
    Jobs,
    /// End the process with status 0.
    Exit,
    /// Send the termination signal to the process `pid`.
    Kill { pid: i32 },
    /// The argument of `kill` is no integer: nothing is done but to say so.
    KillNotInteger,
    /// Print the working directory.
    Pwd,
    /// Replace the process image by the named program, with all the words
    /// as its argument vector.
    Replace,
}

/// The process identifier that the text `s` denotes, if it denotes one.
pub uninterp spec fn parsed_pid(s: Seq<char>) -> Option<i32>;

/// Reads a process identifier with `str::parse::<i32>`. The contract gives
/// the outcome a name: it depends on the text alone. `None` stands for the
/// parse error.
#[verifier::external_body]
fn parse_pid(s: &str) -> (r: Option<i32>)
    ensures
        r == parsed_pid(s@),
{
    s.parse::<i32>().ok()
}

/// Whether `p` names a command that the shell runs itself.
pub open spec fn is_builtin_name(p: Seq<char>) -> bool {
    p == "cd"@ || p == "exit"@ || p == "history"@ || p == "jobs"@ || p == "kill"@ || p == "pwd"@
}

/// The action of a builtin that takes `expected` arguments and was given
/// those of `t`.
pub open spec fn with_arity(t: Seq<Seq<char>>, expected: usize, a: Action) -> Action {
    if t.len() - 1 == expected {
        a
    } else {
        Action::WrongArity { expected, found: (t.len() - 1) as usize }
    }
}

/// What running the words `t` asks for, where `pid` is what the first
/// argument denotes as a process identifier.
pub open spec fn action_of(t: Seq<Seq<char>>, pid: Option<i32>) -> Action {
    let p = t[0];
    if p == "cd"@ {
        with_arity(t, 1, Action::ChangeDir)
    } else if p == "history"@ {
        with_arity(t, 0, Action::History)
    } else if p == "jobs"@ {
        with_arity(t, 0, Action::Jobs)
    } else if p == "exit"@ {
        with_arity(t, 0, Action::Exit)
    } else if p == "kill"@ {
        with_arity(
            t,
            1,
            match pid {
                Some(n) => Action::Kill { pid: n },
                None => Action::KillNotInteger,
            },
        )
    } else if p == "pwd"@ {
        with_arity(t, 0, Action::Pwd)
    } else {
        Action::Replace
    }
}

/// The label under which a failed system call of `a` is reported, if `a`
/// makes one.
pub open spec fn failure_label(t: Seq<Seq<char>>, a: Action) -> Option<Seq<char>> {
    match a {
        Action::ChangeDir => if t.len() > 1 {
            Some("cd: "@ + t[1])
        } else {
            None
        },
        Action::Kill { pid } => Some("kill"@),
        Action::Replace => Some(t[0]),
        _ => None,
    }
}

impl View for Cmd {
    type V = Seq<Seq<char>>;

    closed spec fn view(&self) -> Seq<Seq<char>> {
        texts(self.cmd@)
    }
}

impl Cmd {
    /// A command without words yet.
    pub fn new() -> (r: Self)
        ensures
            r@ == Seq::<Seq<char>>::empty(),
    {
        let r = Cmd { cmd: Vec::new() };
        assert(r@ =~= Seq::<Seq<char>>::empty());
        r
    }

    /// Adds `s` as the last word.
    pub fn push(&mut self, s: &str)
        ensures
            final(self)@ == old(self)@.push(s@),
    {
        let w = String::from_str(s);
        self.cmd.push(w);
        assert(self@ =~= old(self)@.push(s@));
    }

    /// The number of words, the program's name included.
    pub fn len(&self) -> (n: usize)
        ensures
            n == self@.len(),
    {
        self.cmd.len()
    }

    /// The word at `i`.
    pub fn word(&self, i: usize) -> (r: &str)
        requires
            i < self@.len(),
        ensures
            r@ == self@[i as int],
    {
        self.cmd[i].as_str()
    }

    /// All the words: the argument vector of the program.
    pub fn argv(&self) -> (r: &Vec<String>)
        ensures
            texts(r@) == self@,
    {
        &self.cmd
    }

    /// The program's name.
    pub fn prog(&self) -> (r: &str)
        requires
            self@.len() > 0,
        ensures
            r@ == self@[0],
    {
        self.cmd[0].as_str()
    }

    /// Whether the shell runs this command itself.
    pub fn is_builtin(&self) -> (r: bool)
        requires
            self@.len() > 0,
        ensures
            r == is_builtin_name(self@[0]),
    {
        let p = self.prog();
        same(p, "cd") || same(p, "exit") || same(p, "history") || same(p, "jobs") || same(p, "kill")
            || same(p, "pwd")
    }

    /// Whether the command has exactly `num` arguments.
    pub fn prog_num(&self, num: usize) -> (r: bool)
        requires
            self@.len() > 0,
        ensures
            r == (self@.len() - 1 == num),
    {
        self.cmd.len() - 1 == num
    }

    /// The complaint about a builtin that takes `num` arguments and was given
    /// another number of them.
    pub fn arity_message(&self, num: usize) -> (r: String)
        requires
            self@.len() > 0,
        ensures
            r@ == self@[0] + ": Expect "@ + digits(num as nat) + " arguments, found "@ + digits(
                (self@.len() - 1) as nat,
            ),
    {
        let mut r = String::from_str(self.prog());
        r.append(": Expect ");
        let n = decimal(num);
        r.append(n.as_str());
        r.append(" arguments, found ");
        let m = decimal(self.cmd.len() - 1);
        r.append(m.as_str());
        r
    }

    /// The complaint about an argument of `kill` that is no integer.
    pub fn kill_message(&self) -> (r: String)
        requires
            self@.len() > 1,
        ensures
            r@ == "kill: "@ + self@[1] + " isn't an integer"@,
    {
        let mut r = String::from_str("kill: ");
        r.append(self.word(1));
        r.append(" isn't an integer");
        r
    }

    /// What running this command asks for, given what its first argument
    /// denotes as a process identifier.
    pub fn decide(&self, pid: Option<i32>) -> (a: Action)
        requires
            self@.len() > 0,
        ensures
            a == action_of(self@, pid),
    {
        let p = self.prog();
        let found: usize = self.cmd.len() - 1;
        if same(p, "cd") {
            if self.prog_num(1) {
                Action::ChangeDir
            } else {
                Action::WrongArity { expected: 1, found }
            }
        } else if same(p, "history") {
            if self.prog_num(0) {
                Action::History
            } else {
                Action::WrongArity { expected: 0, found }
            }
        } else if same(p, "jobs") {
            if self.prog_num(0) {
                Action::Jobs
            } else {
                Action::WrongArity { expected: 0, found }
            }
        } else if same(p, "exit") {
            if self.prog_num(0) {
                Action::Exit
            } else {
                Action::WrongArity { expected: 0, found }
            }
        } else if same(p, "kill") {
            if self.prog_num(1) {
                match pid {
                    Some(n) => Action::Kill { pid: n },
                    None => Action::KillNotInteger,
                }
            } else {
                Action::WrongArity { expected: 1, found }
            }
        } else if same(p, "pwd") {
            if self.prog_num(0) {
                Action::Pwd
            } else {
                Action::WrongArity { expected: 0, found }
            }
        } else {
            Action::Replace
        }
    }

    /// What running this command asks for. The first argument is read as a
    /// process identifier where there is one.
    pub fn exec(&self) -> (a: Action)
        requires
            self@.len() > 0,
        ensures
            a == action_of(
                self@,
                if self@.len() > 1 {
                    parsed_pid(self@[1])
                } else {
                    None
                },
            ),
    {
        let pid = if self.cmd.len() > 1 {
            parse_pid(self.word(1))
        } else {
            None
        };
        self.decide(pid)
    }

    /// The report that follows the system call of `a`, which returned `ret`:
    /// the label to print the system's error under where the call failed,
    /// nothing where it succeeded or `a` makes no call.
    pub fn failure(&self, a: Action, ret: i32) -> (r: Option<String>)
        requires
            self@.len() > 0,
        ensures
            r is Some == (ret == -1 && failure_label(self@, a) is Some),
            r is Some ==> Some(r->0@) == failure_label(self@, a),
    {
        if ret != -1 {
            return None;
        }
        match a {
            Action::ChangeDir => {
                if self.cmd.len() > 1 {
                    let mut r = String::from_str("cd: ");
                    r.append(self.word(1));
                    Some(r)
                } else {
                    None
                }
            },
            Action::Kill { pid } => Some(String::from_str("kill")),
            Action::Replace => Some(String::from_str(self.prog())),
            _ => None,
        }
    }
}

} // verus!
