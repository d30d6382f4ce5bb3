//! The fixed set of builtin commands: the one place that says which names
//! the interpreter handles itself.
use vstd::prelude::*;
use crate::text::same_text;

verus! {

/// A command that the interpreter carries out itself.
#[derive(Clone, Copy, Debug, PartialEq, Eq, Structural)]
pub enum Builtin {
    Exit,
    Echo,
    Type,
    Pwd,
    Cd,
}

/// The builtin called `name`, if any.
pub open spec fn builtin_named(name: Seq<char>) -> Option<Builtin> {
    if name == "exit"@ {
        Some(Builtin::Exit)
    } else if name == "echo"@ {
        Some(Builtin::Echo)
    } else if name == "type"@ {
        Some(Builtin::Type)
    } else if name == "pwd"@ {
        Some(Builtin::Pwd)
    } else if name == "cd"@ {
        Some(Builtin::Cd)
    } else {
        None
    }
}

/// Whether `name` names a builtin.
pub open spec fn is_builtin_name(name: Seq<char>) -> bool {
    builtin_named(name) is Some
}

/// Looks `name` up among the builtins.
pub fn builtin_of(name: &str) -> (r: Option<Builtin>)
    ensures
        r == builtin_named(name@),
{
    if same_text(name, "exit") {
        Some(Builtin::Exit)
    } else if same_text(name, "echo") {
        Some(Builtin::Echo)
    } else if same_text(name, "type") {
        Some(Builtin::Type)
    } else if same_text(name, "pwd") {
        Some(Builtin::Pwd)
    } else if same_text(name, "cd") {
        Some(Builtin::Cd)
    } else {
        None
    }
}

/// Whether `name` names a builtin.
pub fn is_builtin(name: &str) -> (r: bool)
    ensures
        r == is_builtin_name(name@),
{
    builtin_of(name).is_some()
}

} // verus!
