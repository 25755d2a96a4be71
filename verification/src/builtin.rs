//! The commands that the interpreter carries out itself.

use vstd::prelude::*;
use vstd::string::*;

use crate::argv::ArgumentVector;
use crate::error::Error;
use crate::os::change_directory;
use crate::path::text_of;

verus! {

/// A command carried out by the interpreter itself.
#[derive(Clone, Copy, Debug, PartialEq, Eq, Structural)]
pub enum Builtin {
    /// `cd`: changes the working directory.
    ChangeDirectory,
}

impl DeepView for Builtin {
    type V = Builtin;

    open spec fn deep_view(&self) -> Builtin {
        *self
    }
}

/// The table that `entries` make when they are entered one after the other,
/// a later entry replacing an earlier one of the same name.
pub open spec fn table_of(entries: Seq<(Seq<char>, Builtin)>) -> Map<Seq<char>, Builtin>
    decreases entries.len(),
{
    if entries.len() == 0 {
        Map::empty()
    } else {
        table_of(entries.drop_last()).insert(entries.last().0, entries.last().1)
    }
}

/// The table of the built-in commands: `cd` and nothing else.
pub open spec fn builtin_table() -> Map<Seq<char>, Builtin> {
    Map::empty().insert("cd"@, Builtin::ChangeDirectory)
}

/// The built-in commands by name. The table is made once and only read
/// afterwards.
pub struct Shell {
    builtins: Vec<(String, Builtin)>,
}

impl View for Shell {
    type V = Map<Seq<char>, Builtin>;

    closed spec fn view(&self) -> Map<Seq<char>, Builtin> {
        table_of(self.builtins.deep_view())
    }
}

impl Shell {
    /// Makes the table of the built-in commands.
    pub fn new() -> (shell: Shell)
        ensures
            shell@ == builtin_table(),
    {
        let mut builtins: Vec<(String, Builtin)> = Vec::new();
        builtins.push(("cd".to_owned(), Builtin::ChangeDirectory));
        proof {
            let entries = builtins.deep_view();
            assert(entries.last() == ("cd"@, Builtin::ChangeDirectory));
            assert(entries.drop_last() =~= Seq::empty());
            assert(table_of(entries) == table_of(entries.drop_last()).insert(
                "cd"@,
                Builtin::ChangeDirectory,
            ));
        }
        Shell { builtins }
    }

    /// Looks `command` up in the table.
    pub fn builtin(&self, command: &String) -> (found: Option<Builtin>)
        ensures
            found == if self@.contains_key(command@) {
                Some(self@[command@])
            } else {
                None::<Builtin>
            },
    {
        let mut i: usize = self.builtins.len();
        assert(self.builtins.deep_view().take(i as int) =~= self.builtins.deep_view());
        while i > 0
            invariant
                i <= self.builtins.len(),
                self@.contains_key(command@) <==> table_of(
                    self.builtins.deep_view().take(i as int),
                ).contains_key(command@),
                self@.contains_key(command@) ==> self@[command@] == table_of(
                    self.builtins.deep_view().take(i as int),
                )[command@],
            decreases i,
        {
            i = i - 1;
            assert(self.builtins.deep_view().take(i + 1).drop_last()
                =~= self.builtins.deep_view().take(i as int));
            if self.builtins[i].0 == *command {
                return Some(self.builtins[i].1);
            }
        }
        None
    }

    /// Tells whether `command` names a built-in command.
    pub fn is_builtin(&self, command: &String) -> (known: bool)
        ensures
            known == self@.contains_key(command@),
    {
        self.builtin(command).is_some()
    }
}

/// The home directory that a value of `HOME` stands for: the value, or the
/// empty name where there is none.
pub open spec fn home_of(value: Option<Seq<char>>) -> Seq<char> {
    match value {
        Some(home) => home,
        None => Seq::empty(),
    }
}

/// The directory that `cd` is asked to change to: its one argument, or the
/// home directory where it has none. With more than one argument it is asked
/// for nothing that it can do.
pub open spec fn cd_target(argv: Seq<Seq<char>>, home: Option<Seq<char>>) -> Option<
    Seq<char>,
> {
    if argv.len() > 2 {
        None
    } else if argv.len() == 2 {
        Some(argv[1])
    } else {
        Some(home_of(home))
    }
}

/// Picks the directory that `cd` is to change to, or refuses the call with
/// `UnsupportedOperation` where it has more than one argument. The
/// directory is taken as it was typed; `home` is the value of `HOME`, if it
/// has one.
pub fn cd_directory<'a>(argv: &'a ArgumentVector, home: Option<&'a str>) -> (result: Result<
    &'a str,
    Error,
>)
    ensures
        match result {
            Ok(directory) => cd_target(argv@, text_of(home)) == Some(directory@),
            Err(e) => e == Error::UnsupportedOperation && cd_target(argv@, text_of(home)) is None,
        },
{
    let words = argv.words();
    if words.len() > 2 {
        Err(Error::UnsupportedOperation)
    } else if words.len() == 2 {
        Ok(words[1].as_str())
    } else {
        match home {
            Some(home) => Ok(home),
            None => {
                proof {
                    reveal_strlit("");
                    assert(""@ =~= Seq::<char>::empty());
                }
                Ok("")
            },
        }
    }
}

/// What `cd` returns once the operating system has answered: success where
/// the directory was changed, `CommandFailed` where it was not.
pub fn cd_outcome(changed: Result<(), nix::errno::Errno>) -> (result: Result<(), Error>)
    ensures
        result == if changed is Ok {
            Ok::<(), Error>(())
        } else {
            Err::<(), Error>(Error::CommandFailed)
        },
{
    match changed {
        Ok(_) => Ok(()),
        Err(_) => Err(Error::CommandFailed),
    }
}

/// What `cd` may return: a refusal where it has more than one argument, a
/// failure where the directory it is asked for has the empty name, and
/// else success or failure as the operating system answers.
pub open spec fn cd_may_return(
    argv: Seq<Seq<char>>,
    home: Option<Seq<char>>,
    result: Result<(), Error>,
) -> bool {
    match cd_target(argv, home) {
        None => result == Err::<(), Error>(Error::UnsupportedOperation),
        Some(directory) => {
            if directory.len() == 0 {
                result == Err::<(), Error>(Error::CommandFailed)
            } else {
                result is Ok || result == Err::<(), Error>(Error::CommandFailed)
            }
        },
    }
}

/// The built-in command `cd`: changes the working directory of this process
/// to the directory named by its one argument, or to the home directory
/// where it has none. `home` is the value of `HOME`, if it has one.
///
/// With more than one argument nothing is changed and the call is refused
/// with `UnsupportedOperation`. An empty directory name, which is what the
/// home directory is without a value of `HOME`, is not handed to the
/// operating system either: the command fails with `CommandFailed`. Every
/// other name is handed on as it stands, and the command fails with
/// `CommandFailed` where the operating system refuses it.
pub fn cd(argv: &ArgumentVector, home: Option<&str>) -> (result: Result<(), Error>)
    ensures
        cd_may_return(argv@, text_of(home), result),
{
    match cd_directory(argv, home) {
        Ok(directory) => {
            if directory.is_empty() {
                Err(Error::CommandFailed)
            } else {
                cd_outcome(change_directory(directory))
            }
        },
        Err(e) => Err(e),
    }
}

/// Carries out a built-in command with the arguments `argv`, the command's
/// name first. `home` is the value of `HOME`, if it has one.
pub fn execute_builtin(builtin: Builtin, argv: &ArgumentVector, home: Option<&str>) -> (result:
    Result<(), Error>)
    ensures
        builtin == Builtin::ChangeDirectory ==> cd_may_return(argv@, text_of(home), result),
{
    match builtin {
        Builtin::ChangeDirectory => cd(argv, home),
    }
}

} // verus!
