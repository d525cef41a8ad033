//! Command names and the reading of a whole command line.

use vstd::prelude::*;
use crate::option::{CommandOption, OptionView};
use crate::text::{owned, skip_first, split_whitespace, starts_with_char, str_eq, views, words};

verus! {

/// The command that a command line asks for.
#[derive(Debug, Clone, Copy, PartialEq, Eq, Structural)]
pub enum CommandName {
    Quit,
    Parent,
    Child,
    Go,
    New,
    Remove,
    Copy,
    Cut,
    ClearClipboard,
    Paste,
    Rename,
    MultipleRename,
    ToggleTree,
    ToggleSelection,
    Select,
    SelectAll,
    Unselect,
    UnselectAll,
    ToggleAllSelection,
    Back,
    Unknown,
}

/// A word that starts with `-` is a switch, not a command name.
pub open spec fn is_switch(w: Seq<char>) -> bool {
    w.len() > 0 && w[0] == '-'
}

/// The words of a command line that are not switches, in order.
pub open spec fn name_words(ws: Seq<Seq<char>>) -> Seq<Seq<char>>
    decreases ws.len(),
{
    if ws.len() == 0 {
        seq![]
    } else if is_switch(ws.last()) {
        name_words(ws.drop_last())
    } else {
        name_words(ws.drop_last()).push(ws.last())
    }
}

/// The switches of a command line, each read without its leading `-`.
pub open spec fn switch_options(ws: Seq<Seq<char>>) -> Seq<OptionView>
    decreases ws.len(),
{
    if ws.len() == 0 {
        seq![]
    } else if is_switch(ws.last()) {
        switch_options(ws.drop_last()).push(CommandOption::parsed(ws.last().drop_first()))
    } else {
        switch_options(ws.drop_last())
    }
}

/// The names every command can be completed to, in order.
pub open spec fn all_names() -> Seq<Seq<char>> {
    seq![
        "quit"@,
        "parent"@,
        "child"@,
        "go"@,
        "new"@,
        "remove"@,
        "copy"@,
        "cut"@,
        "clear_clipboard"@,
        "paste"@,
        "rename"@,
        "multiple_rename"@,
        "toggle_tree"@,
        "toggle_selection"@,
        "select"@,
        "select_all"@,
        "unselect"@,
        "unselect_all"@,
        "toggle_all_selection"@,
        "back"@,
    ]
}

/// The views of a sequence of options.
pub open spec fn option_views(v: Seq<CommandOption>) -> Seq<OptionView> {
    v.map_values(|o: CommandOption| o@)
}

impl CommandName {
    /// The command named by a single word.
    pub open spec fn named(w: Seq<char>) -> CommandName {
        if w == "quit"@ {
            CommandName::Quit
        } else if w == "parent"@ {
            CommandName::Parent
        } else if w == "child"@ {
            CommandName::Child
        } else if w == "go"@ {
            CommandName::Go
        } else if w == "new"@ {
            CommandName::New
        } else if w == "remove"@ {
            CommandName::Remove
        } else if w == "copy"@ {
            CommandName::Copy
        } else if w == "cut"@ {
            CommandName::Cut
        } else if w == "clear_clipboard"@ {
            CommandName::ClearClipboard
        } else if w == "paste"@ {
            CommandName::Paste
        } else if w == "rename"@ {
            CommandName::Rename
        } else if w == "multiple_rename"@ {
            CommandName::MultipleRename
        } else if w == "toggle_tree"@ {
            CommandName::ToggleTree
        } else if w == "toggle_selection"@ {
            CommandName::ToggleSelection
        } else if w == "select"@ {
            CommandName::Select
        } else if w == "select_all"@ {
            CommandName::SelectAll
        } else if w == "unselect"@ {
            CommandName::Unselect
        } else if w == "unselect_all"@ {
            CommandName::UnselectAll
        } else if w == "toggle_all_selection"@ {
            CommandName::ToggleAllSelection
        } else if w == "back"@ {
            CommandName::Back
        } else {
            CommandName::Unknown
        }
    }

    /// The command a command line asks for: none named means `Go`,
    /// exactly one known name means that command, anything else is `Unknown`.
    pub open spec fn of_line(line: Seq<char>) -> CommandName {
        let ns = name_words(words(line));
        if ns.len() == 0 {
            CommandName::Go
        } else if ns.len() == 1 {
            Self::named(ns[0])
        } else {
            CommandName::Unknown
        }
    }

    /// All command names, in the order they are offered for completion.
    pub fn all() -> (r: Vec<String>)
        ensures
            views(r@) == all_names(),
    {
        let r = vec![
            owned("quit"),
            owned("parent"),
            owned("child"),
            owned("go"),
            owned("new"),
            owned("remove"),
            owned("copy"),
            owned("cut"),
            owned("clear_clipboard"),
            owned("paste"),
            owned("rename"),
            owned("multiple_rename"),
            owned("toggle_tree"),
            owned("toggle_selection"),
            owned("select"),
            owned("select_all"),
            owned("unselect"),
            owned("unselect_all"),
            owned("toggle_all_selection"),
            owned("back"),
        ];
        assert(views(r@) =~= all_names());
        r
    }

    /// The command named by one word.
    fn from_word(w: &str) -> (r: CommandName)
        ensures
            r == Self::named(w@),
    {
        if str_eq(w, "quit") {
            CommandName::Quit
        } else if str_eq(w, "parent") {
            CommandName::Parent
        } else if str_eq(w, "child") {
            CommandName::Child
        } else if str_eq(w, "go") {
            CommandName::Go
        } else if str_eq(w, "new") {
            CommandName::New
        } else if str_eq(w, "remove") {
            CommandName::Remove
        } else if str_eq(w, "copy") {
            CommandName::Copy
        } else if str_eq(w, "cut") {
            CommandName::Cut
        } else if str_eq(w, "clear_clipboard") {
            CommandName::ClearClipboard
        } else if str_eq(w, "paste") {
            CommandName::Paste
        } else if str_eq(w, "rename") {
            CommandName::Rename
        } else if str_eq(w, "multiple_rename") {
            CommandName::MultipleRename
        } else if str_eq(w, "toggle_tree") {
            CommandName::ToggleTree
        } else if str_eq(w, "toggle_selection") {
            CommandName::ToggleSelection
        } else if str_eq(w, "select") {
            CommandName::Select
        } else if str_eq(w, "select_all") {
            CommandName::SelectAll
        } else if str_eq(w, "unselect") {
            CommandName::Unselect
        } else if str_eq(w, "unselect_all") {
            CommandName::UnselectAll
        } else if str_eq(w, "toggle_all_selection") {
            CommandName::ToggleAllSelection
        } else if str_eq(w, "back") {
            CommandName::Back
        } else {
            CommandName::Unknown
        }
    }

    /// The command a command line asks for, with the number of words in it
    /// that are not switches.
    pub fn parse(arg: &str) -> (r: (CommandName, usize))
        ensures
            r.0 == Self::of_line(arg@),
            r.1 == name_words(words(arg@)).len(),
    {
        let ws = split_whitespace(arg);
        let mut names: Vec<String> = Vec::new();
        let mut i: usize = 0;
        while i < ws.len()
            invariant
                i <= ws@.len(),
                views(ws@) == words(arg@),
                views(names@) == name_words(views(ws@).take(i as int)),
            decreases ws@.len() - i,
        {
            let ghost pre = views(ws@).take(i as int);
            assert(views(ws@).take(i + 1).drop_last() =~= pre);
            assert(views(ws@)[i as int] == ws@[i as int]@);
            if !starts_with_char(ws[i].as_str(), '-') {
                let w = ws[i].clone();
                assert(views(names@.push(w)) =~= views(names@).push(w@));
                names.push(w);
            }
            i += 1;
        }
        assert(views(ws@).take(ws@.len() as int) =~= views(ws@));
        let name = if names.len() == 0 {
            CommandName::Go
        } else if names.len() == 1 {
            assert(views(names@)[0] == names@[0]@);
            Self::from_word(names[0].as_str())
        } else {
            CommandName::Unknown
        };
        (name, names.len())
    }

    /// The command a command line asks for.
    pub fn from(arg: &str) -> (r: CommandName)
        ensures
            r == Self::of_line(arg@),
    {
        let (name, _) = Self::parse(arg);
        name
    }
}

/// The switches of a command line, read as options in the order they appear.
pub fn parse_options(arg: &str) -> (r: Vec<CommandOption>)
    ensures
        option_views(r@) == switch_options(words(arg@)),
{
    let ws = split_whitespace(arg);
    let mut opts: Vec<CommandOption> = Vec::new();
    let mut i: usize = 0;
    while i < ws.len()
        invariant
            i <= ws@.len(),
            views(ws@) == words(arg@),
            option_views(opts@) == switch_options(views(ws@).take(i as int)),
        decreases ws@.len() - i,
    {
        let ghost pre = views(ws@).take(i as int);
        assert(views(ws@).take(i + 1).drop_last() =~= pre);
        assert(views(ws@)[i as int] == ws@[i as int]@);
        if starts_with_char(ws[i].as_str(), '-') {
            let key = skip_first(ws[i].as_str());
            let o = CommandOption::from(key.as_str());
            assert(option_views(opts@.push(o)) =~= option_views(opts@).push(o@));
            opts.push(o);
        }
        i += 1;
    }
    assert(views(ws@).take(ws@.len() as int) =~= views(ws@));
    opts
}

/// Completion candidates for the word `arg` being typed on the command line
/// `line`: every command name while no name, or only the name being typed,
/// is present; nothing otherwise.
pub fn command_complete(arg: &str, line: &str) -> (r: Vec<String>)
    ensures
        views(r@) == ({
            let count = name_words(words(line@)).len();
            if count == 0 || (count == 1 && arg@.len() != 0) {
                all_names()
            } else {
                Seq::<Seq<char>>::empty()
            }
        }),
{
    let (_name, count) = CommandName::parse(line);
    if count == 0 || (count == 1 && arg.unicode_len() != 0) {
        return CommandName::all();
    }
    let r: Vec<String> = Vec::new();
    assert(views(r@) =~= Seq::<Seq<char>>::empty());
    r
}

} // verus!

verus! {

/// The commands the offered names stand for, in the same order.
pub open spec fn offered_commands() -> Seq<CommandName> {
    seq![
        CommandName::Quit,
        CommandName::Parent,
        CommandName::Child,
        CommandName::Go,
        CommandName::New,
        CommandName::Remove,
        CommandName::Copy,
        CommandName::Cut,
        CommandName::ClearClipboard,
        CommandName::Paste,
        CommandName::Rename,
        CommandName::MultipleRename,
        CommandName::ToggleTree,
        CommandName::ToggleSelection,
        CommandName::Select,
        CommandName::SelectAll,
        CommandName::Unselect,
        CommandName::UnselectAll,
        CommandName::ToggleAllSelection,
        CommandName::Back,
    ]
}

proof fn lemma_single_word(s: Seq<char>)
    requires
        s.len() > 0,
        forall|i: int| 0 <= i < s.len() ==> !crate::text::is_ws(#[trigger] s[i]),
    ensures
        words(s) == seq![s],
    decreases s.len(),
{
    assert(!crate::text::is_ws(s[s.len() - 1]));
    if s.len() == 1 {
        assert(s.drop_last() =~= Seq::<char>::empty());
        assert(words(s.drop_last()) =~= Seq::<Seq<char>>::empty());
        assert(seq![s.last()] =~= s);
    } else {
        assert(!crate::text::is_ws(s[s.len() - 2]));
        assert forall|i: int| 0 <= i < s.drop_last().len() implies !crate::text::is_ws(
            #[trigger] s.drop_last()[i],
        ) by {
            assert(s.drop_last()[i] == s[i]);
        }
        lemma_single_word(s.drop_last());
        assert(s.drop_last().push(s.last()) =~= s);
        assert(seq![s.drop_last()].update(0, s.drop_last().push(s.last())) =~= seq![s]);
    }
}

proof fn lemma_line_of_word(s: Seq<char>)
    requires
        s.len() > 0,
        s[0] != '-',
        forall|i: int| 0 <= i < s.len() ==> !crate::text::is_ws(#[trigger] s[i]),
    ensures
        CommandName::of_line(s) == CommandName::named(s),
{
    lemma_single_word(s);
    let ws = seq![s];
    assert(ws.drop_last() =~= Seq::<Seq<char>>::empty());
    assert(ws.last() == s);
    assert(!is_switch(s));
    assert(name_words(ws.drop_last()) =~= Seq::<Seq<char>>::empty());
    assert(name_words(ws) =~= seq![s]);
}

/// Law: each name offered for completion is read back as the command it
/// names, never as an unknown one.
pub proof fn lemma_offered_names_parse(i: int)
    requires
        0 <= i < all_names().len(),
    ensures
        CommandName::of_line(all_names()[i]) == offered_commands()[i],
        offered_commands()[i] != CommandName::Unknown,
{
    reveal_strlit("quit");
    reveal_strlit("parent");
    reveal_strlit("child");
    reveal_strlit("go");
    reveal_strlit("new");
    reveal_strlit("remove");
    reveal_strlit("copy");
    reveal_strlit("cut");
    reveal_strlit("clear_clipboard");
    reveal_strlit("paste");
    reveal_strlit("rename");
    reveal_strlit("multiple_rename");
    reveal_strlit("toggle_tree");
    reveal_strlit("toggle_selection");
    reveal_strlit("select");
    reveal_strlit("select_all");
    reveal_strlit("unselect");
    reveal_strlit("unselect_all");
    reveal_strlit("toggle_all_selection");
    reveal_strlit("back");
    let s = all_names()[i];
    assert forall|k: int| 0 <= k < s.len() implies !crate::text::is_ws(#[trigger] s[k]) by {}
    lemma_line_of_word(s);
}

} // verus!
