//! The commands of the shell: what a line that was typed asks for.

use crate::text::same_text;
use vstd::prelude::*;

verus! {

/// What a line asks the shell to do.
#[derive(Debug, PartialEq, Eq)]
pub enum Command {
    /// Nothing: the line holds no word.
    Empty,
    /// Search; the words after the verb are the flags of the search.
    Find(Vec<String>),
    /// Say which flags a search takes.
    FindHelp,
    /// Change the working directory to the one named, if one is named.
    Cd(Option<String>),
    /// List the working directory.
    Ls,
    /// Look at hidden entries from now on.
    Show,
    /// Leave hidden entries out from now on.
    Hide,
    /// Say which commands there are.
    Help,
    /// End the shell.
    Exit,
    /// A verb that the shell does not know.
    Unknown,
}

/// The mathematical content of a [`Command`].
pub enum CommandView {
    Empty,
    Find(Seq<Seq<char>>),
    FindHelp,
    Cd(Option<Seq<char>>),
    Ls,
    Show,
    Hide,
    Help,
    Exit,
    Unknown,
}

impl View for Command {
    type V = CommandView;

    open spec fn view(&self) -> CommandView {
        match self {
            Command::Empty => CommandView::Empty,
            Command::Find(flags) => CommandView::Find(flags.deep_view()),
            Command::FindHelp => CommandView::FindHelp,
            Command::Cd(target) => CommandView::Cd(
                match target {
                    Some(name) => Some(name@),
                    None => None,
                },
            ),
            Command::Ls => CommandView::Ls,
            Command::Show => CommandView::Show,
            Command::Hide => CommandView::Hide,
            Command::Help => CommandView::Help,
            Command::Exit => CommandView::Exit,
            Command::Unknown => CommandView::Unknown,
        }
    }
}

/// What the words of a line ask for. The first word is the verb. After
/// `find`, the word `-help` in the first place asks for the flags to be
/// explained; else all the words after the verb are flags. After `cd` the
/// next word, if there is one, names the directory.
pub open spec fn command_of(words: Seq<Seq<char>>) -> CommandView {
    if words.len() == 0 {
        CommandView::Empty
    } else if words[0] == "find"@ {
        if words.len() > 1 && words[1] == "-help"@ {
            CommandView::FindHelp
        } else {
            CommandView::Find(words.skip(1))
        }
    } else if words[0] == "cd"@ {
        CommandView::Cd(
            if words.len() > 1 {
                Some(words[1])
            } else {
                None
            },
        )
    } else if words[0] == "ls"@ {
        CommandView::Ls
    } else if words[0] == "show"@ {
        CommandView::Show
    } else if words[0] == "hide"@ {
        CommandView::Hide
    } else if words[0] == "help"@ {
        CommandView::Help
    } else if words[0] == "exit"@ {
        CommandView::Exit
    } else {
        CommandView::Unknown
    }
}

/// Reads the command that the words of a line make up.
pub fn parse_command(words: &Vec<String>) -> (command: Command)
    ensures
        command@ == command_of(words.deep_view()),
{
    if words.len() == 0 {
        return Command::Empty;
    }
    assert(words.deep_view()[0] == words[0]@);
    let verb = words[0].as_str();
    if same_text(verb, "find") {
        assert(words.len() > 1 ==> words.deep_view()[1] == words[1]@);
        if words.len() > 1 && same_text(words[1].as_str(), "-help") {
            return Command::FindHelp;
        }
        let mut flags: Vec<String> = Vec::new();
        let mut at: usize = 1;
        while at < words.len()
            invariant
                1 <= at <= words.len(),
                flags.len() == at - 1,
                forall|k: int| 0 <= k < flags.len() ==> (#[trigger] flags[k])@ == words[k + 1]@,
            decreases words.len() - at,
        {
            flags.push(words[at].clone());
            at = at + 1;
        }
        assert(flags.deep_view() =~= words.deep_view().skip(1));
        Command::Find(flags)
    } else if same_text(verb, "cd") {
        if words.len() > 1 {
            assert(words.deep_view()[1] == words[1]@);
            Command::Cd(Some(words[1].clone()))
        } else {
            Command::Cd(None)
        }
    } else if same_text(verb, "ls") {
        Command::Ls
    } else if same_text(verb, "show") {
        Command::Show
    } else if same_text(verb, "hide") {
        Command::Hide
    } else if same_text(verb, "help") {
        Command::Help
    } else if same_text(verb, "exit") {
        Command::Exit
    } else {
        Command::Unknown
    }
}

/// Whether hidden entries are looked at after a command, given whether
/// they were before it: `show` and `hide` say so, nothing else changes it.
pub open spec fn visibility_after(command: CommandView, shown: bool) -> bool {
    match command {
        CommandView::Show => true,
        CommandView::Hide => false,
        _ => shown,
    }
}

impl Command {
    /// Tells whether hidden entries are looked at after this command.
    pub fn shows_hidden_after(&self, shown: bool) -> (after: bool)
        ensures
            after == visibility_after(self@, shown),
    {
        match self {
            Command::Show => true,
            Command::Hide => false,
            _ => shown,
        }
    }
}

} // verus!
