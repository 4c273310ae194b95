//! Validation of the arguments of the `history` builtin.
//!
//! The arguments are either nothing, a single count of records to print,
//! or one or more pairs of a flag (`-r`, `-w`, `-a`) and a file path.

use crate::command::registry::history::structure::{flag_operation, Loader, Operation};
use crate::error::ShellError;
use crate::text::{is_digit, parse_usize, parse_usize_spec, str_eq, strs_view, unsigned_digits};
use vstd::prelude::*;

verus! {

/// The loaders that `args` ask for when they are a non-empty run of
/// flag/path pairs, each flag not a number.
pub open spec fn loaders_spec(args: Seq<Seq<char>>) -> Option<Seq<(Seq<char>, Operation)>>
    decreases args.len(),
{
    if args.len() == 0 {
        Some(Seq::empty())
    } else if args.len() >= 2 && parse_usize_spec(args[0]) is None && flag_operation(
        args[0],
    ) is Some {
        match loaders_spec(args.skip(2)) {
            Some(rest) => Some(seq![(args[1], flag_operation(args[0])->0)] + rest),
            None => None,
        }
    } else {
        None
    }
}

/// What validation gives for the arguments: a count to print, the
/// loaders to run, or an error.
pub open spec fn validate_spec(args: Option<Seq<Seq<char>>>) -> Result<
    (Option<usize>, Option<Seq<(Seq<char>, Operation)>>),
    ShellError,
> {
    match args {
        None => Ok((None, None)),
        Some(a) => if a.len() == 0 {
            Ok((None, None))
        } else if parse_usize_spec(a[0]) is Some {
            if a.len() == 1 {
                Ok((parse_usize_spec(a[0]), None))
            } else {
                Err(ShellError::IncorrectArguments)
            }
        } else {
            match loaders_spec(a) {
                Some(ls) => Ok((None, Some(ls))),
                None => Err(ShellError::IncorrectArguments),
            }
        },
    }
}

/// The views of a sequence of loaders.
pub open spec fn loaders_view(v: Seq<Loader>) -> Seq<(Seq<char>, Operation)> {
    v.map_values(|l: Loader| l@)
}

/// The value that a validation result stands for.
pub open spec fn validated_view(
    res: Result<(Option<usize>, Option<Vec<Loader>>), ShellError>,
) -> Result<(Option<usize>, Option<Seq<(Seq<char>, Operation)>>), ShellError> {
    match res {
        Ok((count, Some(v))) => Ok((count, Some(loaders_view(v@)))),
        Ok((count, None)) => Ok((count, None)),
        Err(e) => Err(e),
    }
}

/// The view of the optional argument list.
pub open spec fn args_view(args: Option<&Vec<&str>>) -> Option<Seq<Seq<char>>> {
    match args {
        Some(v) => Some(strs_view(v@)),
        None => None,
    }
}

/// Whether `arg` is one of the history flags `-r`, `-w`, `-a`.
fn is_load_flag(arg: &str) -> (res: bool)
    ensures
        res == flag_operation(arg@) is Some,
{
    str_eq(arg, "-r") || str_eq(arg, "-w") || str_eq(arg, "-a")
}

proof fn lemma_loaders_step(a: Seq<Seq<char>>, i: int)
    requires
        0 <= i,
        i + 2 <= a.len(),
        parse_usize_spec(a[i]) is None,
        flag_operation(a[i]) is Some,
    ensures
        loaders_spec(a.skip(i)) == match loaders_spec(a.skip(i + 2)) {
            Some(rest) => Some(seq![(a[i + 1], flag_operation(a[i])->0)] + rest),
            None => None::<Seq<(Seq<char>, Operation)>>,
        },
{
    assert(a.skip(i).skip(2) =~= a.skip(i + 2));
    assert(a.skip(i)[0] == a[i]);
    assert(a.skip(i)[1] == a[i + 1]);
}

/// Reads the arguments of `history`: none (print everything), one count
/// (print the last records), or flag/path pairs (load files).
pub fn validate(args: Option<&Vec<&str>>) -> (res: Result<
    (Option<usize>, Option<Vec<Loader>>),
    ShellError,
>)
    ensures
        validated_view(res) == validate_spec(args_view(args)),
{
    let mode_not_defined: u8 = 0;
    let mode_print: u8 = 1;
    let mode_load: u8 = 2;
    let mut mode = mode_not_defined;
    let mut loaders: Option<Vec<Loader>> = None;
    let mut count: Option<usize> = None;

    let list = match args {
        None => {
            return Ok((count, loaders));
        },
        Some(list) => list,
    };
    let ghost a = strs_view(list@);
    let mut i: usize = 0;
    while i < list.len()
        invariant
            a == strs_view(list@),
            args_view(args) == Some(a),
            i <= list.len(),
            mode_not_defined == 0,
            mode_print == 1,
            mode_load == 2,
            mode == mode_not_defined ==> i == 0 && count is None && loaders is None,
            mode == mode_print ==> i == 1 && count == parse_usize_spec(a[0]) && count is Some
                && loaders is None,
            mode == mode_load ==> {
                &&& count is None
                &&& loaders is Some
                &&& i >= 2
                &&& parse_usize_spec(a[0]) is None
                &&& loaders_spec(a) == match loaders_spec(a.skip(i as int)) {
                    Some(rest) => Some(loaders_view(loaders->0@) + rest),
                    None => None::<Seq<(Seq<char>, Operation)>>,
                }
            },
            mode == mode_not_defined || mode == mode_print || mode == mode_load,
        decreases list.len() - i,
    {
        let arg = list[i];
        assert(arg@ == a[i as int]);
        if let Some(parsed) = parse_usize(arg) {
            if mode != mode_not_defined {
                if mode == mode_load {
                    assert(a.skip(i as int)[0] == a[i as int]);
                    assert(loaders_spec(a.skip(i as int)) is None);
                    assert(loaders_spec(a) is None);
                }
                return Err(ShellError::IncorrectArguments);
            }
            mode = mode_print;
            count = Some(parsed);
            i = i + 1;
        } else if is_load_flag(arg) {
            if !(mode == mode_not_defined || mode == mode_load) {
                return Err(ShellError::IncorrectArguments);
            }
            if i + 1 >= list.len() {
                assert(a.skip(i as int).len() == 1);
                if mode == mode_not_defined {
                    assert(a.skip(0) =~= a);
                }
                return Err(ShellError::IncorrectArguments);
            }
            let file_path = list[i + 1];
            assert(file_path@ == a[i + 1]);
            let loader = match Loader::try_new(file_path.to_owned(), arg) {
                Ok(loader) => loader,
                Err(e) => {
                    return Err(e);
                },
            };
            proof {
                lemma_loaders_step(a, i as int);
                if mode == mode_not_defined {
                    assert(a.skip(0) =~= a);
                }
            }
            let ghost before = if loaders is Some {
                loaders_view(loaders->0@)
            } else {
                Seq::empty()
            };
            loaders = match loaders {
                Some(mut items) => {
                    items.push(loader);
                    Some(items)
                },
                None => Some(vec![loader]),
            };
            proof {
                let now = loaders_view(loaders->0@);
                assert(now =~= before + seq![(a[i + 1], flag_operation(a[i as int])->0)]);
                match loaders_spec(a.skip(i + 2)) {
                    Some(rest) => {
                        assert(before + seq![(a[i + 1], flag_operation(a[i as int])->0)] + rest
                            =~= before + (seq![(a[i + 1], flag_operation(a[i as int])->0)]
                            + rest));
                        if mode == mode_not_defined {
                            assert(before + (seq![(a[i + 1], flag_operation(a[i as int])->0)]
                                + rest) =~= seq![(a[i + 1], flag_operation(a[i as int])->0)]
                                + rest);
                        }
                    },
                    None => {},
                }
            }
            mode = mode_load;
            i = i + 2;
        } else {
            proof {
                if mode == mode_load {
                    assert(a.skip(i as int)[0] == a[i as int]);
                }
                if mode == mode_not_defined {
                    assert(a.skip(0) =~= a);
                }
            }
            return Err(ShellError::IncorrectArguments);
        }
    }
    proof {
        if mode == mode_load {
            assert(a.skip(i as int) =~= Seq::<Seq<char>>::empty());
            assert(loaders_view(loaders->0@) + Seq::<(Seq<char>, Operation)>::empty()
                =~= loaders_view(loaders->0@));
        }
    }
    Ok((count, loaders))
}

/// The arguments are one or more flag/path pairs: an even number of them,
/// with `-r`, `-w` or `-a` at each even position.
pub open spec fn pairs_of_flags(a: Seq<Seq<char>>) -> bool {
    a.len() % 2 == 0 && forall|i: int| 0 <= i < a.len() && i % 2 == 0 ==> flag_operation(#[trigger] a[i]) is Some
}

proof fn lemma_flag_not_number(f: Seq<char>)
    requires
        flag_operation(f) is Some,
    ensures
        parse_usize_spec(f) is None,
{
    reveal_strlit("-r");
    reveal_strlit("-w");
    reveal_strlit("-a");
    assert(f.len() == 2 && f[0] == '-');
    assert(unsigned_digits(f) == f);
    assert(!is_digit(f[0]));
}

proof fn lemma_loaders_closed(a: Seq<Seq<char>>)
    ensures
        (loaders_spec(a) is Some) <==> pairs_of_flags(a),
        loaders_spec(a) matches Some(ls) ==> {
            &&& 2 * ls.len() == a.len()
            &&& forall|k: int| 0 <= k < ls.len() ==> #[trigger] ls[k] == (a[2 * k + 1], flag_operation(a[2 * k])->0)
        },
    decreases a.len(),
{
    if a.len() == 1 {
        assert(!pairs_of_flags(a));
    } else if a.len() >= 2 {
        let rest = a.skip(2);
        lemma_loaders_closed(rest);
        if flag_operation(a[0]) is Some {
            lemma_flag_not_number(a[0]);
            assert(pairs_of_flags(a) <==> pairs_of_flags(rest)) by {
                if pairs_of_flags(rest) {
                    assert forall|i: int| 0 <= i < a.len() && i % 2 == 0 implies flag_operation(#[trigger] a[i]) is Some by {
                        if i >= 2 {
                            assert(a[i] == rest[i - 2]);
                        }
                    }
                }
                if pairs_of_flags(a) {
                    assert forall|i: int| 0 <= i < rest.len() && i % 2 == 0 implies flag_operation(#[trigger] rest[i]) is Some by {
                        assert(rest[i] == a[i + 2]);
                    }
                }
            }
            if let Some(tail) = loaders_spec(rest) {
                let ls = seq![(a[1], flag_operation(a[0])->0)] + tail;
                assert(loaders_spec(a) == Some(ls));
                assert forall|k: int| 0 <= k < ls.len() implies #[trigger] ls[k] == (a[2 * k + 1], flag_operation(a[2 * k])->0) by {
                    if k >= 1 {
                        assert(ls[k] == tail[k - 1]);
                        assert(rest[2 * (k - 1) + 1] == a[2 * k + 1]);
                        assert(rest[2 * (k - 1)] == a[2 * k]);
                    }
                }
            }
        } else {
            assert(!pairs_of_flags(a)) by {
                assert(flag_operation(a[0]) is None);
            }
        }
    }
}

/// Which arguments `history` accepts: none, one count, or flag/path
/// pairs; any other list gives "incorrect arguments". A count and loaders
/// never come together; the count is the single argument, and the
/// loaders pair each flag with the path after it, in order.
pub proof fn lemma_history_arguments(a: Seq<Seq<char>>)
    ensures
        (validate_spec(Some(a)) is Ok) <==> (a.len() == 0 || (a.len() == 1 && parse_usize_spec(a[0]) is Some)
            || pairs_of_flags(a)),
        validate_spec(Some(a)) matches Err(e) ==> e == ShellError::IncorrectArguments,
        validate_spec(Some(a)) matches Ok((count, loaders)) ==> {
            &&& !(count is Some && loaders is Some)
            &&& count matches Some(n) ==> a.len() == 1 && parse_usize_spec(a[0]) == Some(n)
            &&& loaders matches Some(ls) ==> {
                &&& 2 * ls.len() == a.len()
                &&& forall|k: int| 0 <= k < ls.len() ==> #[trigger] ls[k] == (a[2 * k + 1], flag_operation(a[2 * k])->0)
            }
        },
{
    lemma_loaders_closed(a);
    if a.len() > 0 && parse_usize_spec(a[0]) is Some && pairs_of_flags(a) {
        assert(flag_operation(a[0]) is Some);
        lemma_flag_not_number(a[0]);
    }
}

} // verus!
