//! The command line of the launcher: several commands in one line, parted by
//! colons, each with an optional count of processes.

use crate::comm::{Request, SpawnCommandInfo};
use crate::numeral::{parse_usize, usize_of};
use vstd::prelude::*;
use vstd::string::*;

verus! {

/// The word that parts one command from the next.
pub open spec fn separator() -> Seq<char> {
    ":"@
}

/// The arguments parted into commands: every separator ends a command and
/// begins the next, so a line with `n` separators holds `n + 1` commands,
/// some of them perhaps empty.
pub open spec fn commands_of(args: Seq<Seq<char>>) -> Seq<Seq<Seq<char>>>
    decreases args.len(),
{
    if args.len() == 0 {
        seq![Seq::empty()]
    } else {
        let before = commands_of(args.drop_last());
        if args.last() == separator() {
            before.push(Seq::empty())
        } else {
            before.update(before.len() - 1, before.last().push(args.last()))
        }
    }
}

/// A line always holds at least one command.
pub proof fn law_commands_of_len(args: Seq<Seq<char>>)
    ensures
        commands_of(args).len() >= 1,
    decreases args.len(),
{
    if args.len() > 0 {
        law_commands_of_len(args.drop_last());
    }
}

/// The texts of `words`, in order.
pub open spec fn texts(words: Seq<String>) -> Seq<Seq<char>> {
    Seq::new(words.len(), |i: int| words[i]@)
}

/// The texts of each of `groups`, in order.
pub open spec fn group_texts(groups: Seq<Vec<String>>) -> Seq<Seq<Seq<char>>> {
    Seq::new(groups.len(), |i: int| texts(groups[i]@))
}

/// Parts the arguments of the launcher into its commands.
pub fn split_commands(args: &Vec<String>) -> (commands: Vec<Vec<String>>)
    ensures
        group_texts(commands@) == commands_of(texts(args@)),
{
    let mut commands: Vec<Vec<String>> = Vec::new();
    let mut current: Vec<String> = Vec::new();
    let ghost words = texts(args@);
    let mut i: usize = 0;
    proof {
        assert(words.take(0) =~= Seq::<Seq<char>>::empty());
        assert(texts(current@) =~= Seq::<Seq<char>>::empty());
        assert(group_texts(commands@.push(current)) =~= seq![Seq::<Seq<char>>::empty()]);
    }
    while i < args.len()
        invariant
            i <= args@.len(),
            words == texts(args@),
            group_texts(commands@.push(current)) == commands_of(words.take(i as int)),
        decreases args@.len() - i,
    {
        let ghost seen = words.take(i as int);
        let ghost next = words.take(i + 1);
        let ghost before = commands@.push(current);
        proof {
            assert(next.drop_last() =~= seen);
            assert(next.last() == args@[i as int]@);
            reveal_strlit(":");
        }
        let word = &args[i];
        if word.as_str().unicode_len() == 1 && word.as_str().get_char(0) == ':' {
            assert(word@ =~= separator());
            commands.push(current);
            current = Vec::new();
            proof {
                let after = commands@.push(current);
                assert(texts(current@) =~= Seq::<Seq<char>>::empty());
                assert forall|g: int| 0 <= g < after.len() implies group_texts(after)[g]
                    == group_texts(before).push(Seq::empty())[g] by {
                    if g < before.len() {
                        assert(after[g] == before[g]);
                    }
                }
                assert(group_texts(after) =~= group_texts(before).push(Seq::empty()));
            }
        } else {
            assert(word@ != separator());
            current.push(word.clone());
            proof {
                let after = commands@.push(current);
                let expected = group_texts(before).update(
                    before.len() - 1,
                    group_texts(before).last().push(word@),
                );
                assert(after.len() == before.len());
                assert forall|g: int| 0 <= g < after.len() implies group_texts(after)[g]
                    == expected[g] by {
                    if g == after.len() - 1 {
                        assert(texts(after[g]@) =~= texts(before[g]@).push(word@));
                    } else {
                        assert(after[g] == before[g]);
                    }
                }
                assert(group_texts(after) =~= expected);
            }
        }
        i = i + 1;
    }
    proof {
        assert(words.take(i as int) =~= words);
    }
    commands.push(current);
    commands
}

/// Accepts a command-line value that reads as an unsigned number and
/// refuses every other with a message for the user.
pub fn checks_usize(v: String) -> (verdict: Result<(), String>)
    ensures
        verdict is Ok <==> usize_of(v@) is Some,
        verdict matches Err(message) ==> message@ == "This value must be a positive integer"@,
{
    match parse_usize(v.as_str()) {
        Some(_) => Ok(()),
        None => Err(String::from_str("This value must be a positive integer")),
    }
}

/// The request that one command of the line makes: `command` with its
/// arguments, for one process, or for as many as the value of the count
/// option says. The value has passed [`checks_usize`].
pub fn spawn_info_of(command: String, command_args: Vec<String>, maxprocs: Option<&str>) -> (info:
    SpawnCommandInfo)
    requires
        maxprocs matches Some(value) ==> usize_of(value@) is Some,
    ensures
        info@ == (Request {
            command,
            args: command_args@,
            max_procs: match maxprocs {
                Some(value) => usize_of(value@)->0 as nat,
                None => 1,
            },
        }),
{
    let mut info = SpawnCommandInfo::new(command, command_args);
    match maxprocs {
        Some(value) => {
            info.max_procs(parse_usize(value).unwrap());
        },
        None => {},
    }
    info
}

} // verus!
