//! Which command runs, and the context that every command works in.
use vstd::prelude::*;
use crate::error::ClipError;
use crate::history::Store;
use crate::text::chars_of;

verus! {

/// Whether two strings hold the same characters.
pub fn same_text(a: &str, b: &str) -> (same: bool)
    ensures
        same == (a@ == b@),
{
    let x = chars_of(a);
    let y = chars_of(b);
    if x.len() != y.len() {
        return false;
    }
    let mut i: usize = 0;
    while i < x.len()
        invariant
            x@ == a@,
            y@ == b@,
            x@.len() == y@.len(),
            i <= x@.len(),
            forall|j: int| 0 <= j < i ==> x@[j] == y@[j],
        decreases x@.len() - i,
    {
        if x[i] != y[i] {
            assert(a@[i as int] != b@[i as int]);
            return false;
        }
        i = i + 1;
    }
    assert(x@ =~= y@);
    true
}

/// The commands of the tool.
#[derive(Clone, Copy, Debug, PartialEq, Eq, Structural)]
pub enum CommandName {
    Copy,
    Paste,
    List,
    Clean,
    Invoke,
    /// What the tool does without a subcommand.
    Show,
}

/// The command that a name stands for.
pub open spec fn command_of(name: Seq<char>) -> Option<CommandName> {
    if name == seq!['c', 'o', 'p', 'y'] {
        Some(CommandName::Copy)
    } else if name == seq!['p', 'a', 's', 't', 'e'] {
        Some(CommandName::Paste)
    } else if name == seq!['l', 'i', 's', 't'] {
        Some(CommandName::List)
    } else if name == seq!['c', 'l', 'e', 'a', 'n'] {
        Some(CommandName::Clean)
    } else if name == seq!['i', 'n', 'v', 'o', 'k', 'e'] {
        Some(CommandName::Invoke)
    } else if name == seq!['s', 'h', 'o', 'w'] {
        Some(CommandName::Show)
    } else {
        None
    }
}

pub fn command_named(name: &str) -> (command: Option<CommandName>)
    ensures
        command == command_of(name@),
{
    proof {
        reveal_strlit("copy");
        reveal_strlit("paste");
        reveal_strlit("list");
        reveal_strlit("clean");
        reveal_strlit("invoke");
        reveal_strlit("show");
    }
    assert("copy"@ =~= seq!['c', 'o', 'p', 'y']);
    assert("paste"@ =~= seq!['p', 'a', 's', 't', 'e']);
    assert("list"@ =~= seq!['l', 'i', 's', 't']);
    assert("clean"@ =~= seq!['c', 'l', 'e', 'a', 'n']);
    assert("invoke"@ =~= seq!['i', 'n', 'v', 'o', 'k', 'e']);
    assert("show"@ =~= seq!['s', 'h', 'o', 'w']);
    if same_text(name, "copy") {
        Some(CommandName::Copy)
    } else if same_text(name, "paste") {
        Some(CommandName::Paste)
    } else if same_text(name, "list") {
        Some(CommandName::List)
    } else if same_text(name, "clean") {
        Some(CommandName::Clean)
    } else if same_text(name, "invoke") {
        Some(CommandName::Invoke)
    } else if same_text(name, "show") {
        Some(CommandName::Show)
    } else {
        None
    }
}

/// The command to run for the subcommand given on the command line: `show`
/// when there is none; an unknown name is refused.
pub fn run(subcommand: Option<&str>) -> (result: Result<CommandName, ClipError>)
    ensures
        match subcommand {
            None => result == Ok::<CommandName, ClipError>(CommandName::Show),
            Some(name) => match command_of(name@) {
                Some(c) => result == Ok::<CommandName, ClipError>(c),
                None => result matches Err(ClipError::UnregisteredCommand { name: n }) && n@ == name@,
            },
        },
{
    match subcommand {
        None => Ok(CommandName::Show),
        Some(name) => match command_named(name) {
            Some(c) => Ok(c),
            None => Err(ClipError::UnregisteredCommand { name: name.to_owned() }),
        },
    }
}

/// What every command works with: the store of the history.
pub struct CommandContext {
    pub store: Store,
}

impl CommandContext {
    /// The context whose store lies under `data_root`, taken relative to
    /// `current_dir` unless it is absolute.
    pub fn open(current_dir: &str, data_root: &str) -> (context: CommandContext)
        ensures
            (context.store.items_dir@, context.store.history_path@) == Store::new_view(current_dir@, data_root@),
    {
        CommandContext { store: Store::new(current_dir, data_root) }
    }

    pub fn store(&self) -> (store: &Store)
        ensures
            store == &self.store,
    {
        &self.store
    }
}

} // verus!
