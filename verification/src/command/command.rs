//! Reading a command line into the command it asks for.

use vstd::prelude::*;
use crate::command::action::{action_views, result_view, Action, ActionView};
use crate::command::child::{child_options, ChildCommandOptions};
use crate::command::error::{Error, ErrorKind, ErrorKindView};
use crate::command::go::{go_options, GoCommandOptions, GoOptionsView};
use crate::command::new::{new_options, NewCommandOptions, NewOptionsView};
use crate::command::remove::{has_no_confirm, RemoveCommandOptions};
use crate::command::rename::{path_option, RenameCommandOptions};
use crate::name::{parse_options, switch_options, CommandName};
use crate::repository::path::opt_view;
use crate::text::{owned, words};

verus! {

/// A command that answers with one fixed action.
pub struct SimpleCommand {
    pub action: Action,
}

impl SimpleCommand {
    /// Answers with the action.
    pub fn actions(self) -> (r: Result<Vec<Action>, Error>)
        ensures
            result_view(r) == Ok::<Seq<ActionView>, ErrorKindView>(seq![self.action@]),
    {
        let v = vec![self.action];
        assert(action_views(v@) =~= seq![v@[0]@]);
        Ok(v)
    }
}

/// Quits the explorer.
pub struct QuitCommand {}

impl QuitCommand {
    /// Answers with quitting.
    pub fn actions(&self) -> (r: Result<Vec<Action>, Error>)
        ensures
            result_view(r) == Ok::<Seq<ActionView>, ErrorKindView>(seq![ActionView::Quit]),
    {
        let v = vec![Action::Quit];
        assert(action_views(v@) =~= seq![ActionView::Quit]);
        Ok(v)
    }
}

/// Goes back in the history.
pub struct BackCommand {}

impl BackCommand {
    /// Answers with going back.
    pub fn actions(&self) -> (r: Result<Vec<Action>, Error>)
        ensures
            result_view(r) == Ok::<Seq<ActionView>, ErrorKindView>(seq![ActionView::BackHistory]),
    {
        let v = vec![Action::BackHistory];
        assert(action_views(v@) =~= seq![ActionView::BackHistory]);
        Ok(v)
    }
}

/// A command line that names no known command.
pub struct UnknownCommand {
    pub command_name: String,
}

impl UnknownCommand {
    /// Fails: the command is unknown.
    pub fn actions(&self) -> (r: Result<Vec<Action>, Error>)
        ensures
            result_view(r) == Err::<Seq<ActionView>, ErrorKindView>(
                ErrorKindView::Unknown(self.command_name@),
            ),
    {
        Err(Error::from(ErrorKind::Unknown { command_name: self.command_name.clone() }))
    }
}

/// The command a command line asks for, with its switches read.
pub enum ParsedCommand {
    Simple(SimpleCommand),
    Parent,
    Child(ChildCommandOptions),
    Go(GoCommandOptions),
    New(NewCommandOptions),
    Remove(RemoveCommandOptions),
    Copy,
    Cut,
    Paste,
    Rename(RenameCommandOptions),
    MultipleRename,
    ToggleTree,
    ToggleSelection,
    Select,
    Unselect,
    Unknown(UnknownCommand),
}

/// The value of a [`ParsedCommand`].
pub enum ParsedView {
    Simple(ActionView),
    Parent,
    Child(ChildCommandOptions),
    Go(GoOptionsView),
    New(NewOptionsView),
    Remove(bool),
    Copy,
    Cut,
    Paste,
    Rename(bool, Option<Seq<char>>),
    MultipleRename,
    ToggleTree,
    ToggleSelection,
    Select,
    Unselect,
    Unknown(Seq<char>),
}

impl View for ParsedCommand {
    type V = ParsedView;

    open spec fn view(&self) -> ParsedView {
        match self {
            ParsedCommand::Simple(c) => ParsedView::Simple(c.action@),
            ParsedCommand::Parent => ParsedView::Parent,
            ParsedCommand::Child(o) => ParsedView::Child(*o),
            ParsedCommand::Go(o) => ParsedView::Go(o@),
            ParsedCommand::New(o) => ParsedView::New(o@),
            ParsedCommand::Remove(o) => ParsedView::Remove(o.no_confirm),
            ParsedCommand::Copy => ParsedView::Copy,
            ParsedCommand::Cut => ParsedView::Cut,
            ParsedCommand::Paste => ParsedView::Paste,
            ParsedCommand::Rename(o) => ParsedView::Rename(o.no_confirm, opt_view(o.path)),
            ParsedCommand::MultipleRename => ParsedView::MultipleRename,
            ParsedCommand::ToggleTree => ParsedView::ToggleTree,
            ParsedCommand::ToggleSelection => ParsedView::ToggleSelection,
            ParsedCommand::Select => ParsedView::Select,
            ParsedCommand::Unselect => ParsedView::Unselect,
            ParsedCommand::Unknown(c) => ParsedView::Unknown(c.command_name@),
        }
    }
}

/// The command the command line `arg` asks for, its switches read.
pub open spec fn parsed_command(arg: Seq<char>) -> ParsedView {
    let os = switch_options(words(arg));
    match CommandName::of_line(arg) {
        CommandName::Quit => ParsedView::Simple(ActionView::Quit),
        CommandName::Parent => ParsedView::Parent,
        CommandName::Child => ParsedView::Child(child_options(os)),
        CommandName::Go => ParsedView::Go(go_options(os)),
        CommandName::New => ParsedView::New(new_options(os)),
        CommandName::Remove => ParsedView::Remove(has_no_confirm(os)),
        CommandName::Copy => ParsedView::Copy,
        CommandName::Cut => ParsedView::Cut,
        CommandName::ClearClipboard => ParsedView::Simple(ActionView::ClearRegister),
        CommandName::Paste => ParsedView::Paste,
        CommandName::Rename => ParsedView::Rename(has_no_confirm(os), path_option(os)),
        CommandName::MultipleRename => ParsedView::MultipleRename,
        CommandName::ToggleTree => ParsedView::ToggleTree,
        CommandName::ToggleSelection => ParsedView::ToggleSelection,
        CommandName::Select => ParsedView::Select,
        CommandName::SelectAll => ParsedView::Simple(ActionView::SelectAll),
        CommandName::Unselect => ParsedView::Unselect,
        CommandName::UnselectAll => ParsedView::Simple(ActionView::UnselectAll),
        CommandName::ToggleAllSelection => ParsedView::Simple(ActionView::ToggleAllSelection),
        CommandName::Back => ParsedView::Simple(ActionView::BackHistory),
        CommandName::Unknown => ParsedView::Unknown(arg),
    }
}

/// Reads the command line `arg`: which command it names and its switches.
pub fn parse_command(arg: &str) -> (r: ParsedCommand)
    ensures
        r@ == parsed_command(arg@),
{
    let name = CommandName::from(arg);
    let opts = parse_options(arg);
    let simple = |a: Action| -> (r: ParsedCommand)
        ensures
            r@ == ParsedView::Simple(a@),
        { ParsedCommand::Simple(SimpleCommand { action: a }) };
    match name {
        CommandName::Quit => simple(Action::Quit),
        CommandName::Parent => ParsedCommand::Parent,
        CommandName::Child => ParsedCommand::Child(ChildCommandOptions::from(opts)),
        CommandName::Go => ParsedCommand::Go(GoCommandOptions::from(opts)),
        CommandName::New => ParsedCommand::New(NewCommandOptions::from(opts)),
        CommandName::Remove => ParsedCommand::Remove(RemoveCommandOptions::from(opts)),
        CommandName::Copy => ParsedCommand::Copy,
        CommandName::Cut => ParsedCommand::Cut,
        CommandName::ClearClipboard => simple(Action::ClearRegister),
        CommandName::Paste => ParsedCommand::Paste,
        CommandName::Rename => ParsedCommand::Rename(RenameCommandOptions::from(opts)),
        CommandName::MultipleRename => ParsedCommand::MultipleRename,
        CommandName::ToggleTree => ParsedCommand::ToggleTree,
        CommandName::ToggleSelection => ParsedCommand::ToggleSelection,
        CommandName::Select => ParsedCommand::Select,
        CommandName::SelectAll => simple(Action::SelectAll),
        CommandName::Unselect => ParsedCommand::Unselect,
        CommandName::UnselectAll => simple(Action::UnselectAll),
        CommandName::ToggleAllSelection => simple(Action::ToggleAllSelection),
        CommandName::Back => simple(Action::BackHistory),
        CommandName::Unknown => ParsedCommand::Unknown(UnknownCommand { command_name: owned(arg) }),
    }
}

} // verus!
