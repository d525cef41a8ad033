//! Opening and closing subtrees, and selecting lines.

use vstd::prelude::*;
use crate::command::action::{
    action_views, lemma_action_views_push, rendered_lines, rendered_props, result_view, Action,
    ActionView, Paths, INDENT_DEPTH,
};
use crate::command::current::{deduped, ids_of_nodes, kept, Current, Target};
use crate::command::error::{Error, ErrorKindView};
use crate::repository::error::Error as RepositoryError;

verus! {

/// One flag per target: whether it is a directory node.
pub open spec fn group_node_flags(ts: Seq<Target>, is_group: Seq<bool>) -> Seq<bool> {
    Seq::new(ts.len(), |i: int| !ts[i].is_parent_node && is_group[i])
}

/// Closing an open subtree, or opening a closed one with its listing.
pub open spec fn toggle_action(t: Target, c: Result<Paths, RepositoryError>) -> ActionView {
    if t.opened {
        ActionView::CloseTree { id: t.id, next_sibling_id: t.next_sibling_id }
    } else {
        match c {
            Ok(p) => ActionView::OpenTree {
                lines: rendered_lines(p.paths@, (t.depth + INDENT_DEPTH) as u64),
                props: rendered_props(p.paths@, (t.depth + INDENT_DEPTH) as u64, Some(t.id)),
                id: t.id,
                count: p.paths@.len() as usize,
            },
            Err(e) => ActionView::ShowError { path: t.path@, message: e.inner.text() },
        }
    }
}

/// Opens or closes the subtrees of the directory targets.
pub struct ToggleTreeCommand<'a> {
    pub current: &'a Current,
}

impl<'a> ToggleTreeCommand<'a> {
    /// The directories to toggle, given whether each target is a directory:
    /// the directory nodes, without those lying under another one toggled.
    pub open spec fn spec_targets(current: Current, is_group: Seq<bool>) -> Seq<Target> {
        deduped(kept(current.spec_targets(), group_node_flags(current.spec_targets(), is_group)))
    }

    /// What toggling answers: each directory of [`Self::spec_targets`] in
    /// turn is closed when open, or opened with `children[i]`, its listing.
    pub open spec fn spec_actions(
        current: Current,
        is_group: Seq<bool>,
        children: Seq<Result<Paths, RepositoryError>>,
    ) -> Result<Seq<ActionView>, ErrorKindView> {
        let ts = Self::spec_targets(current, is_group);
        Ok(Seq::new(ts.len(), |i: int| toggle_action(ts[i], children[i])))
    }

    /// The directories to toggle.
    pub fn targets(&self, is_group: &Vec<bool>) -> (r: Vec<&Target>)
        requires
            is_group@.len() == self.current.spec_targets().len(),
        ensures
            r@.len() == Self::spec_targets(*self.current, is_group@).len(),
            forall|i: int|
                0 <= i < r@.len() ==> *r@[i] == Self::spec_targets(*self.current, is_group@)[i],
    {
        let ts = self.current.targets();
        let mut keep: Vec<bool> = Vec::new();
        let mut i: usize = 0;
        while i < ts.len()
            invariant
                i <= ts@.len(),
                is_group@.len() == ts@.len(),
                keep@ =~= group_node_flags(ts@, is_group@).take(i as int),
            decreases ts@.len() - i,
        {
            keep.push(!ts[i].is_parent_node && is_group[i]);
            i += 1;
        }
        assert(keep@ =~= group_node_flags(ts@, is_group@));
        self.current.dedup_targets(&keep)
    }

    /// Toggles, given whether each target is a directory and the listings
    /// of the directories of [`Self::targets`] (ignored for open ones).
    pub fn actions(
        &self,
        is_group: &Vec<bool>,
        children: &Vec<Result<Paths, RepositoryError>>,
    ) -> (r: Result<Vec<Action>, Error>)
        requires
            is_group@.len() == self.current.spec_targets().len(),
            children@.len() == Self::spec_targets(*self.current, is_group@).len(),
            forall|i: int|
                0 <= i < Self::spec_targets(*self.current, is_group@).len() && !Self::spec_targets(
                    *self.current,
                    is_group@,
                )[i].opened ==> #[trigger] Self::spec_targets(*self.current, is_group@)[i].depth
                    + INDENT_DEPTH <= u64::MAX,
        ensures
            result_view(r) == Self::spec_actions(*self.current, is_group@, children@),
    {
        let ts = self.targets(is_group);
        let ghost sts = Self::spec_targets(*self.current, is_group@);
        let ghost want = Seq::new(sts.len(), |i: int| toggle_action(sts[i], children@[i]));
        let mut out: Vec<Action> = Vec::new();
        let mut i: usize = 0;
        while i < ts.len()
            invariant
                i <= ts@.len(),
                ts@.len() == sts.len(),
                forall|k: int| 0 <= k < ts@.len() ==> *ts@[k] == sts[k],
                sts == Self::spec_targets(*self.current, is_group@),
                forall|k: int|
                    0 <= k < sts.len() && !sts[k].opened ==> #[trigger] sts[k].depth + INDENT_DEPTH
                        <= u64::MAX,
                children@.len() == sts.len(),
                want == Seq::new(sts.len(), |i: int| toggle_action(sts[i], children@[i])),
                action_views(out@) =~= want.take(i as int),
            decreases ts@.len() - i,
        {
            let t = ts[i];
            assert(*ts@[i as int] == sts[i as int]);
            let a = if t.opened {
                Action::CloseTree { id: t.id, next_sibling_id: t.next_sibling_id }
            } else {
                assert(sts[i as int].depth + INDENT_DEPTH <= u64::MAX);
                match &children[i] {
                    Ok(p) => p.to_open_tree_action(t.id, t.depth),
                    Err(err) => Action::ShowError { path: t.path.clone(), message: err.message() },
                }
            };
            proof {
                lemma_action_views_push(out@, a);
            }
            out.push(a);
            i += 1;
        }
        assert(want.take(i as int) =~= want);
        Ok(out)
    }
}

/// Toggles the selection of the target nodes.
pub struct ToggleSelectionCommand<'a> {
    pub current: &'a Current,
}

/// Selects the target nodes.
pub struct SelectCommand<'a> {
    pub current: &'a Current,
}

/// Unselects the target nodes.
pub struct UnselectCommand<'a> {
    pub current: &'a Current,
}

impl<'a> ToggleSelectionCommand<'a> {
    /// Toggles the selection of the nodes under the cursor.
    pub fn actions(&self) -> (r: Result<Vec<Action>, Error>)
        ensures
            result_view(r) == Ok::<Seq<ActionView>, ErrorKindView>(
                seq![ActionView::ToggleSelection { ids: ids_of_nodes(self.current.targets@) }],
            ),
    {
        let v = vec![Action::ToggleSelection { ids: self.current.target_ids() }];
        assert(action_views(v@) =~= seq![v@[0]@]);
        Ok(v)
    }
}

impl<'a> SelectCommand<'a> {
    /// Selects the nodes under the cursor.
    pub fn actions(&self) -> (r: Result<Vec<Action>, Error>)
        ensures
            result_view(r) == Ok::<Seq<ActionView>, ErrorKindView>(
                seq![ActionView::Select { ids: ids_of_nodes(self.current.targets@) }],
            ),
    {
        let v = vec![Action::Select { ids: self.current.target_ids() }];
        assert(action_views(v@) =~= seq![v@[0]@]);
        Ok(v)
    }
}

impl<'a> UnselectCommand<'a> {
    /// Unselects the nodes under the cursor.
    pub fn actions(&self) -> (r: Result<Vec<Action>, Error>)
        ensures
            result_view(r) == Ok::<Seq<ActionView>, ErrorKindView>(
                seq![ActionView::Unselect { ids: ids_of_nodes(self.current.targets@) }],
            ),
    {
        let v = vec![Action::Unselect { ids: self.current.target_ids() }];
        assert(action_views(v@) =~= seq![v@[0]@]);
        Ok(v)
    }
}

} // verus!
