//! Command options: window splits and `-key=value` switches.

use vstd::prelude::*;
use crate::text::{pieces, split_on, str_eq, views};

verus! {

/// How a leaf node is opened.
#[derive(Debug, Clone, Copy, PartialEq, Eq, Structural)]
pub enum SplitName {
    Tab,
    Vertical,
    Horizontal,
    Open,
    No,
    Unknown,
}

/// Where a split window is placed.
#[derive(Debug, Clone, Copy, PartialEq, Eq, Structural)]
pub enum SplitModName {
    LeftAbove,
    RightBelow,
    No,
    Unknown,
}

/// A split kind together with its placement.
#[derive(Debug, Clone, Copy, PartialEq, Eq, Structural)]
pub struct Split {
    pub name: SplitName,
    pub mod_name: SplitModName,
}

impl SplitName {
    /// The split name that `s` spells.
    pub open spec fn parsed(s: Seq<char>) -> SplitName {
        if s == "tab"@ {
            SplitName::Tab
        } else if s == "vertical"@ {
            SplitName::Vertical
        } else if s == "horizontal"@ {
            SplitName::Horizontal
        } else if s == "open"@ {
            SplitName::Open
        } else if s == "no"@ {
            SplitName::No
        } else {
            SplitName::Unknown
        }
    }

    /// Reads a split name; anything unrecognised is `Unknown`.
    pub fn from(s: &str) -> (r: SplitName)
        ensures
            r == Self::parsed(s@),
    {
        if str_eq(s, "tab") {
            SplitName::Tab
        } else if str_eq(s, "vertical") {
            SplitName::Vertical
        } else if str_eq(s, "horizontal") {
            SplitName::Horizontal
        } else if str_eq(s, "open") {
            SplitName::Open
        } else if str_eq(s, "no") {
            SplitName::No
        } else {
            SplitName::Unknown
        }
    }
}

impl SplitModName {
    /// The placement that `s` spells.
    pub open spec fn parsed(s: Seq<char>) -> SplitModName {
        if s == "leftabove"@ {
            SplitModName::LeftAbove
        } else if s == "rightbelow"@ {
            SplitModName::RightBelow
        } else {
            SplitModName::Unknown
        }
    }

    /// Reads a placement; anything unrecognised is `Unknown`.
    pub fn from(s: &str) -> (r: SplitModName)
        ensures
            r == Self::parsed(s@),
    {
        if str_eq(s, "leftabove") {
            SplitModName::LeftAbove
        } else if str_eq(s, "rightbelow") {
            SplitModName::RightBelow
        } else {
            SplitModName::Unknown
        }
    }
}

impl Split {
    /// The split that `s` (`name` or `name:placement`) spells.
    pub open spec fn parsed(s: Seq<char>) -> Split {
        let p = pieces(s, ':');
        if p.len() == 2 {
            Split { name: SplitName::parsed(p[0]), mod_name: SplitModName::parsed(p[1]) }
        } else if p.len() == 1 {
            Split { name: SplitName::parsed(p[0]), mod_name: SplitModName::No }
        } else {
            Split { name: SplitName::Unknown, mod_name: SplitModName::Unknown }
        }
    }

    /// Reads `name` or `name:placement`; more than one `:` gives an unknown split.
    pub fn from(s: &str) -> (r: Split)
        ensures
            r == Self::parsed(s@),
    {
        let p = split_on(s, ':');
        proof {
            assert(views(p@)[0] == p@[0]@);
        }
        if p.len() == 2 {
            proof {
                assert(views(p@)[1] == p@[1]@);
            }
            Split { name: SplitName::from(p[0].as_str()), mod_name: SplitModName::from(p[1].as_str()) }
        } else if p.len() == 1 {
            Split { name: SplitName::from(p[0].as_str()), mod_name: SplitModName::No }
        } else {
            Split { name: SplitName::Unknown, mod_name: SplitModName::Unknown }
        }
    }
}

#[allow(inconsistent_fields)]
/// A command switch, written `-key` or `-key=value` on the command line.
#[derive(Debug, PartialEq, Eq)]
pub enum CommandOption {
    Path { value: String },
    Paths { value: String },
    Quit,
    NoConfirm,
    Create,
    Back,
    Split { value: Split },
    Unknown,
}

/// The mathematical value of a [`CommandOption`].
pub enum OptionView {
    Path(Seq<char>),
    Paths(Seq<char>),
    Quit,
    NoConfirm,
    Create,
    Back,
    Split(Split),
    Unknown,
}

impl View for CommandOption {
    type V = OptionView;

    open spec fn view(&self) -> OptionView {
        match self {
            CommandOption::Path { value } => OptionView::Path(value@),
            CommandOption::Paths { value } => OptionView::Paths(value@),
            CommandOption::Quit => OptionView::Quit,
            CommandOption::NoConfirm => OptionView::NoConfirm,
            CommandOption::Create => OptionView::Create,
            CommandOption::Back => OptionView::Back,
            CommandOption::Split { value } => OptionView::Split(*value),
            CommandOption::Unknown => OptionView::Unknown,
        }
    }
}

impl CommandOption {
    /// The option that `arg` (without its leading `-`) spells.
    pub open spec fn parsed(arg: Seq<char>) -> OptionView {
        let kv = pieces(arg, '=');
        if kv.len() == 1 && kv[0] == "quit"@ {
            OptionView::Quit
        } else if kv.len() == 1 && kv[0] == "no-confirm"@ {
            OptionView::NoConfirm
        } else if kv.len() == 1 && kv[0] == "create"@ {
            OptionView::Create
        } else if kv.len() == 1 && kv[0] == "back"@ {
            OptionView::Back
        } else if kv.len() == 2 && kv[0] == "path"@ {
            OptionView::Path(kv[1])
        } else if kv.len() == 2 && kv[0] == "paths"@ {
            OptionView::Paths(kv[1])
        } else if kv.len() == 2 && kv[0] == "split"@ {
            OptionView::Split(Split::parsed(kv[1]))
        } else {
            OptionView::Unknown
        }
    }

    /// Reads `key` or `key=value`; anything unrecognised is `Unknown`.
    pub fn from(arg: &str) -> (r: CommandOption)
        ensures
            r@ == Self::parsed(arg@),
    {
        let kv = split_on(arg, '=');
        proof {
            assert(views(kv@)[0] == kv@[0]@);
        }
        if kv.len() == 1 {
            let key = kv[0].as_str();
            if str_eq(key, "quit") {
                CommandOption::Quit
            } else if str_eq(key, "no-confirm") {
                CommandOption::NoConfirm
            } else if str_eq(key, "create") {
                CommandOption::Create
            } else if str_eq(key, "back") {
                CommandOption::Back
            } else {
                CommandOption::Unknown
            }
        } else if kv.len() == 2 {
            proof {
                assert(views(kv@)[1] == kv@[1]@);
            }
            let key = kv[0].as_str();
            if str_eq(key, "path") {
                CommandOption::Path { value: kv[1].clone() }
            } else if str_eq(key, "paths") {
                CommandOption::Paths { value: kv[1].clone() }
            } else if str_eq(key, "split") {
                CommandOption::Split { value: Split::from(kv[1].as_str()) }
            } else {
                CommandOption::Unknown
            }
        } else {
            CommandOption::Unknown
        }
    }
}

} // verus!
