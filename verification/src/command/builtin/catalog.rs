//! The table of the command runner's builtins, looked up by name.

use crate::text::{str_eq, strings_view};
use vstd::prelude::*;

verus! {

/// A builtin of the command runner, as listed in its table.
#[derive(Clone, Copy, Debug, PartialEq, Eq, Structural)]
pub enum Builtin {
    Type,
    Echo,
    Pwd,
    Cd,
    Exit,
}

/// The name of a builtin.
pub open spec fn catalog_name(b: Builtin) -> Seq<char> {
    match b {
        Builtin::Type => "type"@,
        Builtin::Echo => "echo"@,
        Builtin::Pwd => "pwd"@,
        Builtin::Cd => "cd"@,
        Builtin::Exit => "exit"@,
    }
}

/// The builtins in the order of the table.
pub open spec fn catalog_list() -> Seq<Builtin> {
    seq![Builtin::Type, Builtin::Echo, Builtin::Pwd, Builtin::Cd, Builtin::Exit]
}

/// The first builtin of the table (from index `i` on) named `name`.
pub open spec fn catalog_find(name: Seq<char>, i: int) -> Option<Builtin>
    decreases catalog_list().len() - i,
{
    if i < 0 || i >= catalog_list().len() {
        None
    } else if catalog_name(catalog_list()[i]) == name {
        Some(catalog_list()[i])
    } else {
        catalog_find(name, i + 1)
    }
}

/// Every builtin of the table is found again by its name.
pub proof fn lemma_catalog_name_round_trip(b: Builtin)
    ensures
        catalog_find(catalog_name(b), 0) == Some(b),
{
    reveal_strlit("type");
    reveal_strlit("echo");
    reveal_strlit("pwd");
    reveal_strlit("cd");
    reveal_strlit("exit");
    reveal_with_fuel(catalog_find, 6);
    assert("type"@[0] == 't' && "echo"@[0] == 'e' && "pwd"@[0] == 'p' && "cd"@[0] == 'c'
        && "exit"@[0] == 'e');
    assert("echo"@[1] == 'c' && "exit"@[1] == 'x');
    let list = catalog_list();
    assert(list[0] == Builtin::Type);
    assert(list[1] == Builtin::Echo);
    assert(list[2] == Builtin::Pwd);
    assert(list[3] == Builtin::Cd);
    assert(list[4] == Builtin::Exit);
}

impl Builtin {
    /// The builtin named `command`, if there is one.
    pub fn to_builtin(command: &str) -> (res: Option<Builtin>)
        ensures
            res == catalog_find(command@, 0),
    {
        let list = Builtin::list();
        let mut i: usize = 0;
        while i < list.len()
            invariant
                list@ == catalog_list(),
                i <= list.len(),
                catalog_find(command@, 0) == catalog_find(command@, i as int),
            decreases list.len() - i,
        {
            let name = list[i].to_string();
            if str_eq(name.as_str(), command) {
                return Some(list[i]);
            }
            i = i + 1;
        }
        None
    }

    /// The names of the builtins, in the order of the table.
    pub fn list_as_strings() -> (res: Vec<String>)
        ensures
            strings_view(res@) == catalog_list().map_values(|b: Builtin| catalog_name(b)),
    {
        let ghost names_spec = catalog_list().map_values(|b: Builtin| catalog_name(b));
        let list = Builtin::list();
        let mut names: Vec<String> = Vec::new();
        let mut i: usize = 0;
        while i < list.len()
            invariant
                list@ == catalog_list(),
                names_spec == catalog_list().map_values(|b: Builtin| catalog_name(b)),
                i <= list.len(),
                strings_view(names@) == names_spec.take(i as int),
            decreases list.len() - i,
        {
            let name = list[i].to_string();
            names.push(name);
            assert(strings_view(names@) =~= strings_view(names@.drop_last()).push(name@));
            assert(names_spec.take(i + 1) =~= names_spec.take(i as int).push(name@));
            i = i + 1;
        }
        assert(names_spec.take(5) =~= names_spec);
        names
    }

    /// The builtins in the order of the table.
    fn list() -> (res: Vec<Builtin>)
        ensures
            res@ == catalog_list(),
    {
        let res = vec![Builtin::Type, Builtin::Echo, Builtin::Pwd, Builtin::Cd, Builtin::Exit];
        assert(res@ =~= catalog_list());
        res
    }

    /// The name of the builtin.
    pub fn to_string(&self) -> (res: String)
        ensures
            res@ == catalog_name(*self),
    {
        let name = match self {
            Builtin::Type => "type",
            Builtin::Echo => "echo",
            Builtin::Pwd => "pwd",
            Builtin::Cd => "cd",
            Builtin::Exit => "exit",
        };
        name.to_owned()
    }
}

} // verus!
