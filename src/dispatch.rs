//! Classification of a token list into the command it asks for, and the
//! messages that builtins and failed lookups print.
use vstd::prelude::*;
use crate::exit_status::{parse_status, status_written};
use crate::registry::{builtin_of, builtin_named, is_builtin, is_builtin_name, Builtin};
use crate::text::{
    concat2, concat3, join_with, joined, same_text, split_words, strip_note, tail_of, views, without_note,
    words,
};

verus! {

/// What one input line asks the interpreter to do.
#[derive(Debug, PartialEq, Eq)]
pub enum Command {
    /// Nothing to do: an empty line, or `type` without a name.
    Nothing,
    /// End the interpreter with this status.
    Exit { status: i32 },
    /// Print this line; nothing else happens.
    Print { line: String },
    /// Print the working directory.
    Pwd,
    /// Change to the home directory.
    ChangeHome,
    /// Change to this directory.
    ChangeDir { dir: String },
    /// Report where the search path finds `name`, which is no builtin.
    Describe { name: String },
    /// Find `name`, which is no builtin, on the search path and run it.
    Run { name: String, args: Vec<String> },
}

/// The name that carrying out `c` looks for on the search path, if any.
pub open spec fn searched_name(c: Command) -> Option<Seq<char>> {
    match c {
        Command::Describe { name } => Some(name@),
        Command::Run { name, args } => Some(name@),
        _ => None,
    }
}

/// Whether `c` prints exactly `line` and does nothing else.
pub open spec fn prints(c: Command, line: Seq<char>) -> bool {
    match c {
        Command::Print { line: l } => l@ == line,
        _ => false,
    }
}

/// What `type` says of a builtin.
pub open spec fn builtin_message(name: Seq<char>) -> Seq<char> {
    name + " is a shell builtin"@
}

/// What `type` says of a name found at `path`.
pub open spec fn found_message(name: Seq<char>, path: Seq<char>) -> Seq<char> {
    name + " is "@ + path
}

/// What `type` says of a name found nowhere.
pub open spec fn not_found_message(name: Seq<char>) -> Seq<char> {
    name + ": not found"@
}

/// What is said of a command that is neither a builtin nor found.
pub open spec fn unknown_message(name: Seq<char>) -> Seq<char> {
    name + ": command not found"@
}

/// What `exit` says of a status that is no `i32`.
pub open spec fn bad_status_message(arg: Seq<char>) -> Seq<char> {
    "exit: "@ + arg + ": numeric argument required"@
}

/// What a builtin says when given more arguments than it takes.
pub open spec fn too_many_message(name: Seq<char>) -> Seq<char> {
    name + ": too many arguments"@
}

/// What `cd` says when the home directory is not set.
pub open spec fn home_unset_message() -> Seq<char> {
    "cd: HOME not set"@
}

/// What `cd` says when changing to `dir` failed with the system text `os_text`.
pub open spec fn cd_failed_message(dir: Seq<char>, os_text: Seq<char>) -> Seq<char> {
    "cd: "@ + dir + ": "@ + without_note(os_text)
}

/// What `cd` says when changing to the home directory failed with `os_text`.
pub open spec fn cd_home_failed_message(os_text: Seq<char>) -> Seq<char> {
    "cd: "@ + without_note(os_text)
}

/// Whether `c` is the command that the tokens `t` ask for.
///
/// A line that starts with a builtin's name is always that builtin: where
/// the arguments do not fit it, it prints a usage message. `cd` alone goes
/// home, as `cd ~` does. Any other first word is run from the search path.
pub open spec fn classified(t: Seq<Seq<char>>, c: Command) -> bool {
    if t.len() == 0 {
        c == Command::Nothing
    } else {
        match builtin_named(t[0]) {
            Some(Builtin::Exit) => if t.len() == 1 {
                c == Command::Exit { status: 0 }
            } else if t.len() == 2 {
                match status_written(t[1]) {
                    Some(v) => c == Command::Exit { status: v },
                    None => prints(c, bad_status_message(t[1])),
                }
            } else {
                prints(c, too_many_message(t[0]))
            },
            Some(Builtin::Echo) => prints(c, joined(t.drop_first(), " "@)),
            Some(Builtin::Type) => if t.len() == 1 {
                c == Command::Nothing
            } else if t.len() == 2 {
                if is_builtin_name(t[1]) {
                    prints(c, builtin_message(t[1]))
                } else {
                    match c {
                        Command::Describe { name } => name@ == t[1],
                        _ => false,
                    }
                }
            } else {
                prints(c, too_many_message(t[0]))
            },
            Some(Builtin::Pwd) => if t.len() == 1 {
                c == Command::Pwd
            } else {
                prints(c, too_many_message(t[0]))
            },
            Some(Builtin::Cd) => if t.len() == 1 || (t.len() == 2 && t[1] == "~"@) {
                c == Command::ChangeHome
            } else if t.len() == 2 {
                match c {
                    Command::ChangeDir { dir } => dir@ == t[1],
                    _ => false,
                }
            } else {
                prints(c, too_many_message(t[0]))
            },
            None => match c {
                Command::Run { name, args } => name@ == t[0] && views(args@) == t.drop_first(),
                _ => false,
            },
        }
    }
}

/// The line that `c` stands for.
fn print(line: String) -> (c: Command)
    ensures
        prints(c, line@),
{
    Command::Print { line }
}

/// Decides what the tokens of one line ask for.
pub fn classify(tokens: &Vec<String>) -> (c: Command)
    ensures
        classified(views(tokens@), c),
{
    let ghost t = views(tokens@);
    if tokens.len() == 0 {
        return Command::Nothing;
    }
    assert(t[0] == tokens@[0]@);
    let n = tokens.len();
    let head = tokens[0].as_str();
    match builtin_of(head) {
        Some(Builtin::Exit) => {
            if n == 1 {
                Command::Exit { status: 0 }
            } else if n == 2 {
                assert(t[1] == tokens@[1]@);
                match parse_status(tokens[1].as_str()) {
                    Some(v) => Command::Exit { status: v },
                    None => print(concat3("exit: ", tokens[1].as_str(), ": numeric argument required")),
                }
            } else {
                print(concat2(head, ": too many arguments"))
            }
        },
        Some(Builtin::Echo) => {
            let rest = tail_of(tokens);
            print(join_with(&rest, " "))
        },
        Some(Builtin::Type) => {
            if n == 1 {
                Command::Nothing
            } else if n == 2 {
                assert(t[1] == tokens@[1]@);
                let name = tokens[1].as_str();
                if is_builtin(name) {
                    print(concat2(name, " is a shell builtin"))
                } else {
                    Command::Describe { name: tokens[1].clone() }
                }
            } else {
                print(concat2(head, ": too many arguments"))
            }
        },
        Some(Builtin::Pwd) => {
            if n == 1 {
                Command::Pwd
            } else {
                print(concat2(head, ": too many arguments"))
            }
        },
        Some(Builtin::Cd) => {
            if n == 1 {
                Command::ChangeHome
            } else if n == 2 {
                assert(t[1] == tokens@[1]@);
                if same_text(tokens[1].as_str(), "~") {
                    Command::ChangeHome
                } else {
                    Command::ChangeDir { dir: tokens[1].clone() }
                }
            } else {
                print(concat2(head, ": too many arguments"))
            }
        },
        None => Command::Run { name: tokens[0].clone(), args: tail_of(tokens) },
    }
}


/// A line that starts with a builtin's name never has that name looked up
/// on the search path, whatever its arguments.
pub proof fn lemma_builtin_never_searched(t: Seq<Seq<char>>, c: Command)
    requires
        t.len() > 0,
        is_builtin_name(t[0]),
        classified(t, c),
    ensures
        searched_name(c) != Some(t[0]),
        searched_name(c) matches Some(n) ==> !is_builtin_name(n),
{
}

/// Decides what one line of input asks for; `None` is the end of the
/// input, which ends the interpreter as a plain `exit` does.
pub fn command_for_line(line: Option<&str>) -> (c: Command)
    ensures
        match line {
            Some(l) => classified(words(l@), c),
            None => c == Command::Exit { status: 0 },
        },
{
    match line {
        Some(l) => {
            let tokens = split_words(l);
            classify(&tokens)
        },
        None => Command::Exit { status: 0 },
    }
}

/// What `type` prints of `name`, which is no builtin, given what the
/// search found.
pub fn describe_report(name: &str, found: &Option<String>) -> (r: String)
    ensures
        r@ == match found {
            Some(path) => found_message(name@, path@),
            None => not_found_message(name@),
        },
{
    match found {
        Some(path) => concat3(name, " is ", path.as_str()),
        None => concat2(name, ": not found"),
    }
}

/// What is printed of a command that the search did not find.
pub fn unknown_report(name: &str) -> (r: String)
    ensures
        r@ == unknown_message(name@),
{
    concat2(name, ": command not found")
}

/// Where `cd` with no directory, or `~`, goes: the home directory `home`,
/// or, where it is not set, the message to print while staying put.
pub fn home_target(home: Option<&str>) -> (r: Result<String, String>)
    ensures
        match home {
            Some(h) => r matches Ok(dir) && dir@ == h@,
            None => r matches Err(m) && m@ == home_unset_message(),
        },
{
    match home {
        Some(h) => Ok(String::from_str(h)),
        None => Err(String::from_str("cd: HOME not set")),
    }
}

/// What `cd` prints when changing to `dir` failed with the system text
/// `os_text`. The message holds `dir` as typed.
pub fn cd_failed_report(dir: &str, os_text: &str) -> (r: String)
    ensures
        r@ == cd_failed_message(dir@, os_text@),
        r@.subrange(4, 4 + dir@.len() as int) == dir@,
{
    let reason = strip_note(os_text);
    let mut out = concat3("cd: ", dir, ": ");
    out.append(reason.as_str());
    proof {
        reveal_strlit("cd: ");
        assert(out@.subrange(4, 4 + dir@.len() as int) =~= dir@);
    }
    out
}

/// What `cd` prints when changing to the home directory failed with the
/// system text `os_text`.
pub fn cd_home_failed_report(os_text: &str) -> (r: String)
    ensures
        r@ == cd_home_failed_message(os_text@),
{
    let reason = strip_note(os_text);
    concat2("cd: ", reason.as_str())
}

} // verus!
