//! The builtins of the interactive shell.

pub mod cd;
pub mod echo;
pub mod exit;
pub mod history;
pub mod pwd;
pub mod type_of;
pub mod yes;

use crate::text::{str_eq, strings_view};
use vstd::prelude::*;

verus! {

/// A builtin of the interactive shell.
#[derive(Clone, Copy, Debug, PartialEq, Eq, Structural)]
pub enum Builtin {
    Cd,
    Echo,
    History,
    Exit,
    Pwd,
    Type,
    Yes,
}

/// The name of a builtin.
pub open spec fn registry_name(b: Builtin) -> Seq<char> {
    match b {
        Builtin::Cd => "cd"@,
        Builtin::Echo => "echo"@,
        Builtin::History => "history"@,
        Builtin::Exit => "exit"@,
        Builtin::Pwd => "pwd"@,
        Builtin::Type => "type"@,
        Builtin::Yes => "yes"@,
    }
}

/// The builtins in the order the shell lists them.
pub open spec fn registry_list() -> Seq<Builtin> {
    seq![
        Builtin::Cd,
        Builtin::Echo,
        Builtin::History,
        Builtin::Exit,
        Builtin::Pwd,
        Builtin::Type,
        Builtin::Yes,
    ]
}

/// The names of the builtins, in the order of the list.
pub open spec fn registry_names() -> Seq<Seq<char>> {
    registry_list().map_values(|b: Builtin| registry_name(b))
}

/// The first builtin of `list` (from index `i` on) named `name`.
pub open spec fn find_named(list: Seq<Builtin>, name: Seq<char>, i: int) -> Option<Builtin>
    decreases list.len() - i,
{
    if i < 0 || i >= list.len() {
        None
    } else if registry_name(list[i]) == name {
        Some(list[i])
    } else {
        find_named(list, name, i + 1)
    }
}

/// The builtin named `name`, if any: the first of the list with that name.
pub open spec fn registry_builtin_of(name: Seq<char>) -> Option<Builtin> {
    find_named(registry_list(), name, 0)
}

/// Every builtin is found again by its name: looking up the name that
/// `to_string` gives yields the same builtin.
pub proof fn lemma_registry_name_round_trip(b: Builtin)
    ensures
        registry_builtin_of(registry_name(b)) == Some(b),
{
    reveal_strlit("cd");
    reveal_strlit("echo");
    reveal_strlit("history");
    reveal_strlit("exit");
    reveal_strlit("pwd");
    reveal_strlit("type");
    reveal_strlit("yes");
    reveal_with_fuel(find_named, 8);
    assert("cd"@[0] == 'c' && "echo"@[0] == 'e' && "history"@[0] == 'h' && "exit"@[0] == 'e'
        && "pwd"@[0] == 'p' && "type"@[0] == 't' && "yes"@[0] == 'y');
    assert("echo"@[1] == 'c' && "exit"@[1] == 'x');
    let list = registry_list();
    assert(list[0] == Builtin::Cd);
    assert(list[1] == Builtin::Echo);
    assert(list[2] == Builtin::History);
    assert(list[3] == Builtin::Exit);
    assert(list[4] == Builtin::Pwd);
    assert(list[5] == Builtin::Type);
    assert(list[6] == Builtin::Yes);
}

/// A builtin found by name has that name.
pub proof fn lemma_registry_builtin_named(name: Seq<char>)
    ensures
        registry_builtin_of(name) matches Some(b) ==> registry_name(b) == name,
{
    lemma_find_named_has_name(registry_list(), name, 0);
}

proof fn lemma_find_named_has_name(list: Seq<Builtin>, name: Seq<char>, i: int)
    ensures
        find_named(list, name, i) matches Some(b) ==> registry_name(b) == name,
    decreases list.len() - i,
{
    if 0 <= i < list.len() && registry_name(list[i]) != name {
        lemma_find_named_has_name(list, name, i + 1);
    }
}

/// The list of names is the names of the builtins in the order of the
/// list, and each of them is found again by name.
pub proof fn lemma_registry_names_found(i: int)
    requires
        0 <= i < registry_names().len(),
    ensures
        registry_builtin_of(registry_names()[i]) == Some(registry_list()[i]),
{
    lemma_registry_name_round_trip(registry_list()[i]);
}

impl Builtin {
    /// The builtin named `command`, if there is one.
    pub fn to_builtin(command: &str) -> (res: Option<Builtin>)
        ensures
            res == registry_builtin_of(command@),
    {
        let list = Builtin::list();
        let mut i: usize = 0;
        while i < list.len()
            invariant
                list@ == registry_list(),
                i <= list.len(),
                find_named(registry_list(), command@, 0) == find_named(registry_list(), command@, i as int),
            decreases list.len() - i,
        {
            let name = list[i].to_string();
            if str_eq(name.as_str(), command) {
                return Some(list[i]);
            }
            i = i + 1;
        }
        None
    }

    /// The names of all builtins, in the order of the list.
    pub fn list_as_strings() -> (res: Vec<String>)
        ensures
            strings_view(res@) == registry_names(),
    {
        let list = Builtin::list();
        let mut names: Vec<String> = Vec::new();
        let mut i: usize = 0;
        while i < list.len()
            invariant
                list@ == registry_list(),
                i <= list.len(),
                strings_view(names@) == registry_names().take(i as int),
            decreases list.len() - i,
        {
            let name = list[i].to_string();
            names.push(name);
            assert(strings_view(names@) =~= strings_view(names@.drop_last()).push(name@));
            assert(registry_names().take(i + 1) =~= registry_names().take(i as int).push(name@));
            i = i + 1;
        }
        assert(registry_names().take(7) =~= registry_names());
        names
    }

    /// Whether the builtin runs until it is stopped (`yes`).
    pub fn is_blocking(&self) -> (res: bool)
        ensures
            res == (*self == Builtin::Yes),
    {
        matches!(self, Builtin::Yes)
    }

    /// Whether the builtin ends the shell (`exit`).
    pub fn is_exit(&self) -> (res: bool)
        ensures
            res == (*self == Builtin::Exit),
    {
        matches!(self, Builtin::Exit)
    }

    /// All builtins, in the order the shell lists them.
    fn list() -> (res: Vec<Builtin>)
        ensures
            res@ == registry_list(),
    {
        let res = vec![
            Builtin::Cd,
            Builtin::Echo,
            Builtin::History,
            Builtin::Exit,
            Builtin::Pwd,
            Builtin::Type,
            Builtin::Yes,
        ];
        assert(res@ =~= registry_list());
        res
    }

    /// The name of the builtin.
    pub fn to_string(&self) -> (res: String)
        ensures
            res@ == registry_name(*self),
    {
        let name = match self {
            Builtin::Cd => "cd",
            Builtin::Echo => "echo",
            Builtin::History => "history",
            Builtin::Exit => "exit",
            Builtin::Pwd => "pwd",
            Builtin::Type => "type",
            Builtin::Yes => "yes",
        };
        name.to_owned()
    }
}

} // verus!
