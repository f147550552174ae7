//! The command line: which action its words ask for.

use vstd::prelude::*;
use crate::manager::{opt_view, step, Outcome, OutcomeView, TaskAction, TaskManager};
use crate::text::{decimal, parse_index, same_text};

verus! {

/// What the command line asks for.
pub enum Command {
    /// `add <description> [tags]`
    Add(String, Option<String>),
    /// `remove <id | first..last>`
    Remove(String),
    /// `list [query]`
    List(Option<String>),
    /// `mark <id> <status>`
    Mark(usize, String),
    /// `edit <id> <description>`
    Edit(usize, String),
    /// `help`
    Help(),
}

/// What a command holds, as plain values.
pub enum CommandView {
    Add(Seq<char>, Option<Seq<char>>),
    Remove(Seq<char>),
    List(Option<Seq<char>>),
    Mark(usize, Seq<char>),
    Edit(usize, Seq<char>),
    Help,
}

impl View for Command {
    type V = CommandView;

    open spec fn view(&self) -> CommandView {
        match self {
            Command::Add(d, t) => CommandView::Add(d@, opt_view(*t)),
            Command::Remove(i) => CommandView::Remove(i@),
            Command::List(q) => CommandView::List(opt_view(*q)),
            Command::Mark(i, s) => CommandView::Mark(*i, s@),
            Command::Edit(i, d) => CommandView::Edit(*i, d@),
            Command::Help() => CommandView::Help,
        }
    }
}

/// The words of the command line as plain values.
pub open spec fn words(args: Seq<String>) -> Seq<Seq<char>> {
    args.map_values(|a: String| a@)
}

/// The word at `i`, if there is one.
pub open spec fn word_at(w: Seq<Seq<char>>, i: int) -> Option<Seq<char>> {
    if i < w.len() {
        Some(w[i])
    } else {
        None
    }
}

/// The command that the words `w` ask for: `list [query]`, `add <description>
/// [tags]`, `remove <ids>`, `mark <id> <status>`, `edit <id> <description>` or
/// `help`; words after these are ignored. `None` for no words, another first
/// word, a missing word or an id that is not a number.
pub open spec fn command_of(w: Seq<Seq<char>>) -> Option<CommandView> {
    if w.len() == 0 {
        None
    } else if w[0] == seq!['l', 'i', 's', 't'] {
        Some(CommandView::List(word_at(w, 1)))
    } else if w[0] == seq!['a', 'd', 'd'] {
        if w.len() >= 2 {
            Some(CommandView::Add(w[1], word_at(w, 2)))
        } else {
            None
        }
    } else if w[0] == seq!['r', 'e', 'm', 'o', 'v', 'e'] {
        if w.len() >= 2 {
            Some(CommandView::Remove(w[1]))
        } else {
            None
        }
    } else if w[0] == seq!['m', 'a', 'r', 'k'] {
        if w.len() >= 3 && decimal(w[1]) is Some {
            Some(CommandView::Mark(decimal(w[1])->0, w[2]))
        } else {
            None
        }
    } else if w[0] == seq!['h', 'e', 'l', 'p'] {
        Some(CommandView::Help)
    } else if w[0] == seq!['e', 'd', 'i', 't'] {
        if w.len() >= 3 && decimal(w[1]) is Some {
            Some(CommandView::Edit(decimal(w[1])->0, w[2]))
        } else {
            None
        }
    } else {
        None
    }
}

/// The word at `i`, if there is one.
fn word_arg(args: &[String], i: usize) -> (r: Option<String>)
    ensures
        opt_view(r) == word_at(words(args@), i as int),
{
    if i < args.len() {
        Some(args[i].clone())
    } else {
        None
    }
}

/// The command that `args` asks for, as `command_of` says; `None` where the
/// words ask for none.
pub fn read_command(args: &[String]) -> (r: Option<Command>)
    ensures
        match r {
            Some(c) => command_of(words(args@)) == Some(c@),
            None => command_of(words(args@)) is None,
        },
{
    let ghost w = words(args@);
    if args.len() == 0 {
        return None;
    }
    assert(w[0] == args@[0]@);
    proof {
        reveal_strlit("list");
        reveal_strlit("add");
        reveal_strlit("remove");
        reveal_strlit("mark");
        reveal_strlit("help");
        reveal_strlit("edit");
        assert("list"@ =~= seq!['l', 'i', 's', 't']);
        assert("add"@ =~= seq!['a', 'd', 'd']);
        assert("remove"@ =~= seq!['r', 'e', 'm', 'o', 'v', 'e']);
        assert("mark"@ =~= seq!['m', 'a', 'r', 'k']);
        assert("help"@ =~= seq!['h', 'e', 'l', 'p']);
        assert("edit"@ =~= seq!['e', 'd', 'i', 't']);
    }
    let verb = args[0].as_str();
    if same_text(verb, "list") {
        Some(Command::List(word_arg(args, 1)))
    } else if same_text(verb, "add") {
        if args.len() >= 2 {
            Some(Command::Add(args[1].clone(), word_arg(args, 2)))
        } else {
            None
        }
    } else if same_text(verb, "remove") {
        if args.len() >= 2 {
            Some(Command::Remove(args[1].clone()))
        } else {
            None
        }
    } else if same_text(verb, "mark") {
        if args.len() >= 3 {
            match parse_index(args[1].as_str()) {
                Some(index) => Some(Command::Mark(index, args[2].clone())),
                None => None,
            }
        } else {
            None
        }
    } else if same_text(verb, "help") {
        Some(Command::Help())
    } else if same_text(verb, "edit") {
        if args.len() >= 3 {
            match parse_index(args[1].as_str()) {
                Some(index) => Some(Command::Edit(index, args[2].clone())),
                None => None,
            }
        } else {
            None
        }
    } else {
        None
    }
}

/// The command that `args` asks for; the words must ask for one (see
/// `read_command` for a check).
pub fn parse_command(args: &[String]) -> (r: Command)
    requires
        command_of(words(args@)) is Some,
    ensures
        command_of(words(args@)) == Some(r@),
{
    read_command(args).unwrap()
}

/// The action that a command other than `help` asks for.
pub open spec fn action_of(c: Command) -> TaskAction {
    match c {
        Command::Add(d, t) => TaskAction::AddTask(d, t),
        Command::Remove(i) => TaskAction::RemoveTask(i),
        Command::List(q) => TaskAction::ListTasks(q),
        Command::Mark(i, s) => TaskAction::MarkTask(i, s),
        Command::Edit(i, d) => TaskAction::EditTask(i, d),
        Command::Help() => TaskAction::ListTasks(None),
    }
}

/// Carries out `command` on the collection of `manager`: `help` reports
/// usage and changes nothing; any other command is carried out as its action.
pub fn run_command(manager: &mut TaskManager, command: Command) -> (r: Outcome)
    requires
        old(manager).wf(),
    ensures
        final(manager).wf(),
        command is Help ==> final(manager).storage@ == old(manager).storage@ && r@
            == OutcomeView::Usage,
        !(command is Help) ==> exists|date: Seq<char>|
            step(old(manager).storage@, action_of(command), date, final(manager).storage@, r@),
{
    match command {
        Command::Add(task, tags) => manager.execute(TaskAction::AddTask(task, tags)),
        Command::Remove(index) => manager.execute(TaskAction::RemoveTask(index)),
        Command::List(query) => manager.execute(TaskAction::ListTasks(query)),
        Command::Help() => Outcome::Usage,
        Command::Mark(index, status) => manager.execute(TaskAction::MarkTask(index, status)),
        Command::Edit(index, description) => manager.execute(TaskAction::EditTask(index, description)),
    }
}

} // verus!
