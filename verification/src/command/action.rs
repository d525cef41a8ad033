//! The actions a command answers with, and the rendering of a listing
//! into buffer lines and their properties.

use vstd::prelude::*;
use crate::command::error::{Error, ErrorKindView};
use crate::option::{Split, SplitName};
use crate::repository::path::FullPath;
use crate::text::{concat, lemma_views_push, owned, space_string, spaces, views};

verus! {

/// The properties of one rendered line.
#[derive(Debug, Clone, PartialEq, Eq)]
pub struct Prop {
    pub path: String,
    pub depth: u64,
    pub is_parent_node: bool,
    pub parent_id: Option<u64>,
}

/// The value of a [`Prop`].
pub struct PropView {
    pub path: Seq<char>,
    pub depth: u64,
    pub is_parent_node: bool,
    pub parent_id: Option<u64>,
}

impl View for Prop {
    type V = PropView;

    open spec fn view(&self) -> PropView {
        PropView {
            path: self.path@,
            depth: self.depth,
            is_parent_node: self.is_parent_node,
            parent_id: self.parent_id,
        }
    }
}

/// The values of a sequence of props.
pub open spec fn prop_views(v: Seq<Prop>) -> Seq<PropView> {
    v.map_values(|p: Prop| p@)
}

/// A listing to show in a new buffer.
#[derive(Debug, Clone, PartialEq, Eq)]
pub struct ForkBufferItem {
    pub path: String,
    pub lines: Vec<String>,
    pub props: Vec<Prop>,
}

/// The value of a [`ForkBufferItem`].
pub struct ForkBufferItemView {
    pub path: Seq<char>,
    pub lines: Seq<Seq<char>>,
    pub props: Seq<PropView>,
}

impl View for ForkBufferItem {
    type V = ForkBufferItemView;

    open spec fn view(&self) -> ForkBufferItemView {
        ForkBufferItemView {
            path: self.path@,
            lines: views(self.lines@),
            props: prop_views(self.props@),
        }
    }
}

/// One entry of the renamer.
#[derive(Debug, Clone, PartialEq, Eq)]
pub struct RenameItem {
    pub id: u64,
    pub path: String,
    pub relative_path: String,
    pub is_copy: bool,
}

/// The value of a [`RenameItem`].
pub struct RenameItemView {
    pub id: u64,
    pub path: Seq<char>,
    pub relative_path: Seq<char>,
    pub is_copy: bool,
}

impl View for RenameItem {
    type V = RenameItemView;

    open spec fn view(&self) -> RenameItemView {
        RenameItemView {
            id: self.id,
            path: self.path@,
            relative_path: self.relative_path@,
            is_copy: self.is_copy,
        }
    }
}

/// The values of a sequence of rename items.
pub open spec fn rename_item_views(v: Seq<RenameItem>) -> Seq<RenameItemView> {
    v.map_values(|p: RenameItem| p@)
}

/// A path put in the register by copy or cut.
#[derive(Debug, Clone, PartialEq, Eq)]
pub struct RegisteredItem {
    pub path: String,
}

/// The paths of a sequence of registered items.
pub open spec fn registered_views(v: Seq<RegisteredItem>) -> Seq<Seq<char>> {
    v.map_values(|p: RegisteredItem| p.path@)
}

/// A paste whose destination is taken, offered for a choice.
#[derive(Debug, Clone, PartialEq, Eq)]
pub struct ChooseItem {
    pub from: String,
    pub path: String,
    pub relative_path: String,
}

/// The value of a [`ChooseItem`].
pub struct ChooseItemView {
    pub from: Seq<char>,
    pub path: Seq<char>,
    pub relative_path: Seq<char>,
}

impl View for ChooseItem {
    type V = ChooseItemView;

    open spec fn view(&self) -> ChooseItemView {
        ChooseItemView { from: self.from@, path: self.path@, relative_path: self.relative_path@ }
    }
}

/// The values of a sequence of choose items.
pub open spec fn choose_item_views(v: Seq<ChooseItem>) -> Seq<ChooseItemView> {
    v.map_values(|p: ChooseItem| p@)
}

/// The values of a sequence of fork buffer items.
pub open spec fn fork_item_views(v: Seq<ForkBufferItem>) -> Seq<ForkBufferItemView> {
    v.map_values(|p: ForkBufferItem| p@)
}

/// What the editor side is asked to do.
#[derive(Debug, PartialEq, Eq)]
pub enum Action {
    OpenLeaves { paths: Vec<String>, split: Split },
    OpenView { path: String, split: Split },
    Quit,
    ConfirmRemove { paths: Vec<String> },
    ConfirmRename { path: String, relative_path: String },
    ConfirmNew,
    Copy { items: Vec<RegisteredItem> },
    Cut { items: Vec<RegisteredItem> },
    ClearRegister,
    Choose { path: String, items: Vec<ChooseItem>, has_cut: bool },
    Select { ids: Vec<u64> },
    Unselect { ids: Vec<u64> },
    ToggleSelection { ids: Vec<u64> },
    SelectAll,
    UnselectAll,
    ToggleAllSelection,
    BackHistory,
    AddHistory { path: String, line_number: u64, back: bool },
    TryToRestoreCursor { path: String },
    SetCursor { line_number: u64 },
    SetPath { path: String },
    WriteAll { lines: Vec<String>, props: Vec<Prop> },
    Write {
        lines: Vec<String>,
        props: Vec<Prop>,
        parent_id: Option<u64>,
        last_sibling_id: Option<u64>,
        count: usize,
    },
    OpenTree { lines: Vec<String>, props: Vec<Prop>, id: u64, count: usize },
    CloseTree { id: u64, next_sibling_id: Option<u64> },
    ForkBuffer { items: Vec<ForkBufferItem>, split: Split },
    ShowError { path: String, message: String },
    OpenRenamer { path: String, items: Vec<RenameItem> },
    CompleteRenamer { items: Vec<RenameItem>, has_error: bool },
}

/// The value of an [`Action`].
pub enum ActionView {
    OpenLeaves { paths: Seq<Seq<char>>, split: Split },
    OpenView { path: Seq<char>, split: Split },
    Quit,
    ConfirmRemove { paths: Seq<Seq<char>> },
    ConfirmRename { path: Seq<char>, relative_path: Seq<char> },
    ConfirmNew,
    Copy { items: Seq<Seq<char>> },
    Cut { items: Seq<Seq<char>> },
    ClearRegister,
    Choose { path: Seq<char>, items: Seq<ChooseItemView>, has_cut: bool },
    Select { ids: Seq<u64> },
    Unselect { ids: Seq<u64> },
    ToggleSelection { ids: Seq<u64> },
    SelectAll,
    UnselectAll,
    ToggleAllSelection,
    BackHistory,
    AddHistory { path: Seq<char>, line_number: u64, back: bool },
    TryToRestoreCursor { path: Seq<char> },
    SetCursor { line_number: u64 },
    SetPath { path: Seq<char> },
    WriteAll { lines: Seq<Seq<char>>, props: Seq<PropView> },
    Write {
        lines: Seq<Seq<char>>,
        props: Seq<PropView>,
        parent_id: Option<u64>,
        last_sibling_id: Option<u64>,
        count: usize,
    },
    OpenTree { lines: Seq<Seq<char>>, props: Seq<PropView>, id: u64, count: usize },
    CloseTree { id: u64, next_sibling_id: Option<u64> },
    ForkBuffer { items: Seq<ForkBufferItemView>, split: Split },
    ShowError { path: Seq<char>, message: Seq<char> },
    OpenRenamer { path: Seq<char>, items: Seq<RenameItemView> },
    CompleteRenamer { items: Seq<RenameItemView>, has_error: bool },
}

impl View for Action {
    type V = ActionView;

    open spec fn view(&self) -> ActionView {
        match self {
            Action::OpenLeaves { paths, split } => ActionView::OpenLeaves {
                paths: views(paths@),
                split: *split,
            },
            Action::OpenView { path, split } => ActionView::OpenView { path: path@, split: *split },
            Action::Quit => ActionView::Quit,
            Action::ConfirmRemove { paths } => ActionView::ConfirmRemove { paths: views(paths@) },
            Action::ConfirmRename { path, relative_path } => ActionView::ConfirmRename {
                path: path@,
                relative_path: relative_path@,
            },
            Action::ConfirmNew => ActionView::ConfirmNew,
            Action::Copy { items } => ActionView::Copy { items: registered_views(items@) },
            Action::Cut { items } => ActionView::Cut { items: registered_views(items@) },
            Action::ClearRegister => ActionView::ClearRegister,
            Action::Choose { path, items, has_cut } => ActionView::Choose {
                path: path@,
                items: choose_item_views(items@),
                has_cut: *has_cut,
            },
            Action::Select { ids } => ActionView::Select { ids: ids@ },
            Action::Unselect { ids } => ActionView::Unselect { ids: ids@ },
            Action::ToggleSelection { ids } => ActionView::ToggleSelection { ids: ids@ },
            Action::SelectAll => ActionView::SelectAll,
            Action::UnselectAll => ActionView::UnselectAll,
            Action::ToggleAllSelection => ActionView::ToggleAllSelection,
            Action::BackHistory => ActionView::BackHistory,
            Action::AddHistory { path, line_number, back } => ActionView::AddHistory {
                path: path@,
                line_number: *line_number,
                back: *back,
            },
            Action::TryToRestoreCursor { path } => ActionView::TryToRestoreCursor { path: path@ },
            Action::SetCursor { line_number } => ActionView::SetCursor { line_number: *line_number },
            Action::SetPath { path } => ActionView::SetPath { path: path@ },
            Action::WriteAll { lines, props } => ActionView::WriteAll {
                lines: views(lines@),
                props: prop_views(props@),
            },
            Action::Write { lines, props, parent_id, last_sibling_id, count } => ActionView::Write {
                lines: views(lines@),
                props: prop_views(props@),
                parent_id: *parent_id,
                last_sibling_id: *last_sibling_id,
                count: *count,
            },
            Action::OpenTree { lines, props, id, count } => ActionView::OpenTree {
                lines: views(lines@),
                props: prop_views(props@),
                id: *id,
                count: *count,
            },
            Action::CloseTree { id, next_sibling_id } => ActionView::CloseTree {
                id: *id,
                next_sibling_id: *next_sibling_id,
            },
            Action::ForkBuffer { items, split } => ActionView::ForkBuffer {
                items: fork_item_views(items@),
                split: *split,
            },
            Action::ShowError { path, message } => ActionView::ShowError {
                path: path@,
                message: message@,
            },
            Action::OpenRenamer { path, items } => ActionView::OpenRenamer {
                path: path@,
                items: rename_item_views(items@),
            },
            Action::CompleteRenamer { items, has_error } => ActionView::CompleteRenamer {
                items: rename_item_views(items@),
                has_error: *has_error,
            },
        }
    }
}

/// The value of what a command answers: its actions, or the error it fails with.
pub open spec fn result_view(r: Result<Vec<Action>, Error>) -> Result<Seq<ActionView>, ErrorKindView> {
    match r {
        Ok(v) => Ok(action_views(v@)),
        Err(e) => Err(e@),
    }
}

/// The values of a sequence of actions.
pub open spec fn action_views(v: Seq<Action>) -> Seq<ActionView> {
    v.map_values(|a: Action| a@)
}

pub proof fn lemma_action_views_push(v: Seq<Action>, a: Action)
    ensures
        action_views(v.push(a)) == action_views(v).push(a@),
{
    assert(action_views(v.push(a)) =~= action_views(v).push(a@));
}

impl Action {
    /// Shows the error `err` met while working on `path`.
    pub fn show_error(path: &str, err: Error) -> (r: Action)
        ensures
            r@ == (ActionView::ShowError { path: path@, message: err@.text() }),
    {
        Action::ShowError { path: owned(path), message: err.message() }
    }
}

/// The lines that show the entries `ps` indented by `depth` spaces.
pub open spec fn rendered_lines(ps: Seq<FullPath>, depth: u64) -> Seq<Seq<char>> {
    Seq::new(ps.len(), |i: int| spaces(depth as nat) + ps[i].name@)
}

/// The properties of the lines that show `ps` at `depth` under `parent_id`.
pub open spec fn rendered_props(ps: Seq<FullPath>, depth: u64, parent_id: Option<u64>) -> Seq<
    PropView,
> {
    Seq::new(
        ps.len(),
        |i: int|
            PropView {
                path: ps[i].path@,
                depth,
                is_parent_node: ps[i].is_parent_node,
                parent_id,
            },
    )
}

/// The 1-based position of the first of `ps` that `pred` accepts.
pub open spec fn first_position(ps: Seq<FullPath>, pred: spec_fn(FullPath) -> bool) -> Option<
    nat,
>
    decreases ps.len(),
{
    if ps.len() == 0 {
        None
    } else if pred(ps[0]) {
        Some(1)
    } else {
        match first_position(ps.drop_first(), pred) {
            Some(n) => Some(n + 1),
            None => None,
        }
    }
}

/// The first accepted entry is at position `k + 1`.
pub proof fn lemma_first_position(ps: Seq<FullPath>, pred: spec_fn(FullPath) -> bool, k: int)
    requires
        0 <= k < ps.len(),
        pred(ps[k]),
        forall|j: int| 0 <= j < k ==> !pred(#[trigger] ps[j]),
    ensures
        first_position(ps, pred) == Some((k + 1) as nat),
    decreases k,
{
    if k > 0 {
        assert(!pred(ps[0]));
        assert forall|j: int| 0 <= j < k - 1 implies !pred(#[trigger] ps.drop_first()[j]) by {
            assert(ps.drop_first()[j] == ps[j + 1]);
        }
        lemma_first_position(ps.drop_first(), pred, k - 1);
    }
}

/// No entry is accepted.
pub proof fn lemma_no_position(ps: Seq<FullPath>, pred: spec_fn(FullPath) -> bool)
    requires
        forall|j: int| 0 <= j < ps.len() ==> !pred(#[trigger] ps[j]),
    ensures
        first_position(ps, pred) is None,
    decreases ps.len(),
{
    if ps.len() > 0 {
        assert(!pred(ps[0]));
        assert forall|j: int| 0 <= j < ps.len() - 1 implies !pred(#[trigger] ps.drop_first()[j]) by {
            assert(ps.drop_first()[j] == ps[j + 1]);
        }
        lemma_no_position(ps.drop_first(), pred);
    }
}

/// Law: a rendered listing has one line and one set of properties per
/// entry, in the same order; line `i` shows entry `i`'s name after the
/// indent, and its properties carry entry `i`'s path.
pub proof fn lemma_lines_match_props(ps: Seq<FullPath>, depth: u64, parent_id: Option<u64>)
    ensures
        rendered_lines(ps, depth).len() == ps.len(),
        rendered_props(ps, depth, parent_id).len() == ps.len(),
        forall|i: int|
            0 <= i < ps.len() ==> {
                &&& (#[trigger] rendered_lines(ps, depth)[i]).subrange(0, depth as int) == spaces(
                    depth as nat,
                )
                &&& rendered_lines(ps, depth)[i].subrange(
                    depth as int,
                    rendered_lines(ps, depth)[i].len() as int,
                ) == ps[i].name@
                &&& rendered_props(ps, depth, parent_id)[i].path == ps[i].path@
                &&& rendered_props(ps, depth, parent_id)[i].depth == depth
                &&& rendered_props(ps, depth, parent_id)[i].is_parent_node == ps[i].is_parent_node
            },
{
    assert forall|i: int| 0 <= i < ps.len() implies {
        &&& (#[trigger] rendered_lines(ps, depth)[i]).subrange(0, depth as int) == spaces(depth as nat)
        &&& rendered_lines(ps, depth)[i].subrange(depth as int, rendered_lines(ps, depth)[i].len() as int)
            == ps[i].name@
        &&& rendered_props(ps, depth, parent_id)[i].path == ps[i].path@
        &&& rendered_props(ps, depth, parent_id)[i].depth == depth
        &&& rendered_props(ps, depth, parent_id)[i].is_parent_node == ps[i].is_parent_node
    } by {
        let line = rendered_lines(ps, depth)[i];
        assert(line == spaces(depth as nat) + ps[i].name@);
        assert(line.subrange(0, depth as int) =~= spaces(depth as nat));
        assert(line.subrange(depth as int, line.len() as int) =~= ps[i].name@);
    }
}

/// The columns one level of the tree is indented by.
pub const INDENT_DEPTH: u64 = 2;

/// The entries of one listing, in the order they are shown.
#[derive(Debug, PartialEq, Eq)]
pub struct Paths {
    pub paths: Vec<FullPath>,
}

impl Paths {
    /// The listing with entries `paths`.
    pub fn from(paths: Vec<FullPath>) -> (r: Paths)
        ensures
            r.paths@ == paths@,
    {
        Paths { paths }
    }

    /// The entries' names, each indented by `depth` spaces.
    pub fn lines(&self, depth: u64) -> (r: Vec<String>)
        ensures
            views(r@) == rendered_lines(self.paths@, depth),
    {
        let indent = space_string(depth);
        let mut r: Vec<String> = Vec::new();
        let mut i: usize = 0;
        while i < self.paths.len()
            invariant
                i <= self.paths@.len(),
                indent@ == spaces(depth as nat),
                views(r@) == rendered_lines(self.paths@, depth).take(i as int),
            decreases self.paths@.len() - i,
        {
            let line = concat(indent.as_str(), self.paths[i].name.as_str());
            proof {
                lemma_views_push(r@, line);
                let all = rendered_lines(self.paths@, depth);
                assert(all.take(i + 1) =~= all.take(i as int).push(all[i as int]));
                assert(line@ =~= all[i as int]);
            }
            r.push(line);
            i += 1;
        }
        assert(rendered_lines(self.paths@, depth).take(i as int) =~= rendered_lines(
            self.paths@,
            depth,
        ));
        r
    }

    /// The properties of the entries' lines at `depth` under `parent_id`.
    pub fn props(&self, depth: u64, parent_id: Option<u64>) -> (r: Vec<Prop>)
        ensures
            prop_views(r@) == rendered_props(self.paths@, depth, parent_id),
    {
        let mut r: Vec<Prop> = Vec::new();
        let mut i: usize = 0;
        while i < self.paths.len()
            invariant
                i <= self.paths@.len(),
                prop_views(r@) == rendered_props(self.paths@, depth, parent_id).take(i as int),
            decreases self.paths@.len() - i,
        {
            let p = Prop {
                path: self.paths[i].path.clone(),
                depth,
                is_parent_node: self.paths[i].is_parent_node,
                parent_id,
            };
            proof {
                let all = rendered_props(self.paths@, depth, parent_id);
                assert(all.take(i + 1) =~= all.take(i as int).push(all[i as int]));
                assert(prop_views(r@.push(p)) =~= prop_views(r@).push(p@));
            }
            r.push(p);
            i += 1;
        }
        assert(rendered_props(self.paths@, depth, parent_id).take(i as int)
            =~= rendered_props(self.paths@, depth, parent_id));
        r
    }

    /// Opens a subtree under node `id`, one level deeper than `current_depth`.
    pub fn to_open_tree_action(&self, id: u64, current_depth: u64) -> (r: Action)
        requires
            current_depth + INDENT_DEPTH <= u64::MAX,
        ensures
            r@ == (ActionView::OpenTree {
                lines: rendered_lines(self.paths@, (current_depth + INDENT_DEPTH) as u64),
                props: rendered_props(
                    self.paths@,
                    (current_depth + INDENT_DEPTH) as u64,
                    Some(id),
                ),
                id,
                count: self.paths@.len() as usize,
            }),
    {
        let depth = current_depth + INDENT_DEPTH;
        let lines = self.lines(depth);
        assert(lines@.len() == views(lines@).len());
        Action::OpenTree { id, count: lines.len(), lines, props: self.props(depth, Some(id)) }
    }

    /// Replaces the whole buffer with this listing.
    pub fn to_write_all_action(&self) -> (r: Action)
        ensures
            r@ == (ActionView::WriteAll {
                lines: rendered_lines(self.paths@, 0),
                props: rendered_props(self.paths@, 0, None),
            }),
    {
        Action::WriteAll { lines: self.lines(0), props: self.props(0, None) }
    }

    /// Writes this listing at `depth` under `parent_id`, after `last_sibling_id`.
    pub fn to_write_action(
        &self,
        depth: u64,
        parent_id: Option<u64>,
        last_sibling_id: Option<u64>,
    ) -> (r: Action)
        ensures
            r@ == (ActionView::Write {
                lines: rendered_lines(self.paths@, depth),
                props: rendered_props(self.paths@, depth, parent_id),
                parent_id,
                last_sibling_id,
                count: self.paths@.len() as usize,
            }),
    {
        let lines = self.lines(depth);
        assert(lines@.len() == views(lines@).len());
        Action::Write {
            count: lines.len(),
            parent_id,
            last_sibling_id,
            lines,
            props: self.props(depth, parent_id),
        }
    }

    /// This listing as the content of a new buffer for `path`.
    pub fn to_fork_buffer_item(&self, path: &str) -> (r: ForkBufferItem)
        ensures
            r@ == (ForkBufferItemView {
                path: path@,
                lines: rendered_lines(self.paths@, 0),
                props: rendered_props(self.paths@, 0, None),
            }),
    {
        ForkBufferItem { path: owned(path), lines: self.lines(0), props: self.props(0, None) }
    }

    /// Opens this listing of `path` in a new buffer placed by `split`.
    pub fn to_fork_buffer(&self, path: &str, split: Split) -> (r: Action)
        ensures
            r@ == (ActionView::ForkBuffer {
                items: seq![
                    ForkBufferItemView {
                        path: path@,
                        lines: rendered_lines(self.paths@, 0),
                        props: rendered_props(self.paths@, 0, None),
                    },
                ],
                split,
            }),
    {
        let item = self.to_fork_buffer_item(path);
        let items = vec![item];
        assert(fork_item_views(items@) =~= seq![item@]);
        Action::ForkBuffer { items, split }
    }

    /// The 1-based position of the first entry that `f` accepts.
    pub fn search<F: Fn(&FullPath) -> bool>(&self, f: F) -> (r: Option<u64>)
        requires
            forall|i: int| 0 <= i < self.paths@.len() ==> f.requires((&self.paths@[i],)),
        ensures
            r matches Some(n) ==> 1 <= n <= self.paths@.len() && f.ensures(
                (&self.paths@[n - 1],),
                true,
            ) && forall|j: int| 0 <= j < n - 1 ==> f.ensures((&self.paths@[j],), false),
            r is None ==> forall|j: int| 0 <= j < self.paths@.len() ==> f.ensures(
                (&self.paths@[j],),
                false,
            ),
    {
        let mut i: usize = 0;
        while i < self.paths.len()
            invariant
                i <= self.paths@.len(),
                forall|i: int| 0 <= i < self.paths@.len() ==> f.requires((&self.paths@[i],)),
                forall|j: int| 0 <= j < i ==> f.ensures((&self.paths@[j],), false),
            decreases self.paths@.len() - i,
        {
            if f(&self.paths[i]) {
                return Some(i as u64 + 1);
            }
            i += 1;
        }
        None
    }
}

} // verus!

verus! {

impl Split {
    /// Opens the leaves `paths` the way this split says; nothing when there
    /// are none or when the split is `no` or unknown.
    pub fn leaf_node_action(&self, paths: Vec<String>) -> (r: Vec<Action>)
        ensures
            action_views(r@) == (if paths@.len() == 0 || self.name == SplitName::Unknown
                || self.name == SplitName::No {
                Seq::<ActionView>::empty()
            } else {
                seq![ActionView::OpenLeaves { paths: views(paths@), split: *self }]
            }),
    {
        let mut r: Vec<Action> = Vec::new();
        if paths.len() == 0 {
            assert(action_views(r@) =~= Seq::<ActionView>::empty());
            return r;
        }
        match self.name {
            SplitName::Unknown | SplitName::No => {},
            _ => {
                r.push(Action::OpenLeaves { paths, split: *self });
            },
        }
        assert(action_views(r@) =~= (if self.name == SplitName::Unknown || self.name
            == SplitName::No {
            Seq::<ActionView>::empty()
        } else {
            seq![ActionView::OpenLeaves { paths: views(paths@), split: *self }]
        }));
        r
    }
}

} // verus!
