//! What the editor reports about the explorer buffer when a command runs.

use vstd::prelude::*;
use crate::command::action::{rendered_lines, rendered_props, Action, ActionView, Paths};
use crate::repository::path::{parent_of, path_starts_with, FilePath};

verus! {

/// A line of the tree that a command works on.
#[derive(Debug, Clone, PartialEq, Eq)]
pub struct Target {
    pub id: u64,
    pub path: String,
    pub is_parent_node: bool,
    pub parent_id: Option<u64>,
    pub last_sibling_id: Option<u64>,
    pub next_sibling_id: Option<u64>,
    pub depth: u64,
    pub opened: bool,
}

impl Target {
    /// The path of this line.
    pub fn to_string(&self) -> (r: String)
        ensures
            r@ == self.path@,
    {
        self.path.clone()
    }
}

/// A path held in the register: where it came from and the name to paste it as.
#[derive(Debug, Clone, PartialEq, Eq)]
pub struct RegisteredTarget {
    pub path: String,
    pub name: Option<String>,
    pub from: Option<String>,
    pub force: bool,
}

/// A rename asked for in the renamer.
#[derive(Debug, Clone, PartialEq, Eq)]
pub struct RenameTarget {
    pub id: u64,
    pub from: String,
    pub to: String,
    pub is_copy: bool,
}

/// The state of the explorer buffer.
#[derive(Debug, PartialEq, Eq)]
pub struct Current {
    pub path: String,
    pub name: String,
    pub line_number: u64,
    pub used: bool,
    pub has_cut: bool,
    pub renamer_opened: bool,
    pub opened: bool,
    pub target: Option<Target>,
    pub targets: Vec<Target>,
    pub selected_targets: Vec<Target>,
    pub registered_targets: Vec<RegisteredTarget>,
    pub rename_targets: Vec<RenameTarget>,
}

/// The targets kept by a parallel sequence of flags.
pub open spec fn kept(ts: Seq<Target>, keep: Seq<bool>) -> Seq<Target>
    decreases ts.len(),
{
    if ts.len() == 0 {
        seq![]
    } else if keep[ts.len() - 1] {
        kept(ts.drop_last(), keep).push(ts.last())
    } else {
        kept(ts.drop_last(), keep)
    }
}

/// Whether `t` lies under a target of `ts` at another depth.
pub open spec fn under_other_depth(t: Target, ts: Seq<Target>) -> bool {
    exists|j: int|
        0 <= j < ts.len() && ts[j].depth != t.depth && #[trigger] path_starts_with(t.path@, ts[j].path@)
}

/// The targets of `ts`, in order, without those that lie under a target of
/// `ts` at another depth: where a directory and entries under it are all
/// targets, only the directory is left.
pub open spec fn deduped(ts: Seq<Target>) -> Seq<Target> {
    ts.filter(|t: Target| !under_other_depth(t, ts))
}

/// The ids of the targets that are not the parent line.
pub open spec fn ids_of_nodes(ts: Seq<Target>) -> Seq<u64>
    decreases ts.len(),
{
    if ts.len() == 0 {
        seq![]
    } else if ts.last().is_parent_node {
        ids_of_nodes(ts.drop_last())
    } else {
        ids_of_nodes(ts.drop_last()).push(ts.last().id)
    }
}

impl Current {
    /// The directory new entries go to: the one holding the target line when
    /// that is a node, the current one otherwise.
    pub open spec fn group_path(self) -> Seq<char> {
        match self.target {
            Some(t) => if !t.is_parent_node {
                match parent_of(t.path@) {
                    Some(p) => p,
                    None => self.path@,
                }
            } else {
                self.path@
            },
            None => self.path@,
        }
    }

    /// Writing the listing `ps` in place of the target line's siblings.
    pub open spec fn write_view(self, ps: Seq<crate::repository::path::FullPath>) -> ActionView {
        let depth: u64 = match self.target {
            Some(t) => t.depth,
            None => 0,
        };
        let parent_id = match self.target {
            Some(t) => t.parent_id,
            None => None,
        };
        let last_sibling_id = match self.target {
            Some(t) => t.last_sibling_id,
            None => None,
        };
        ActionView::Write {
            lines: rendered_lines(ps, depth),
            props: rendered_props(ps, depth, parent_id),
            parent_id,
            last_sibling_id,
            count: ps.len() as usize,
        }
    }

    /// The directory new entries go to.
    pub fn target_group_path(&self) -> (r: String)
        ensures
            r@ == self.group_path(),
    {
        match &self.target {
            Some(t) => if !t.is_parent_node {
                match FilePath::new(t.path.as_str()).parent() {
                    Some(p) => p,
                    None => self.path.clone(),
                }
            } else {
                self.path.clone()
            },
            None => self.path.clone(),
        }
    }

    /// Writes `paths` in place of the target line's siblings.
    pub fn write_listing(&self, paths: &Paths) -> (r: Action)
        ensures
            r@ == self.write_view(paths.paths@),
    {
        let depth = match &self.target {
            Some(t) => t.depth,
            None => 0,
        };
        let parent_id = match &self.target {
            Some(t) => t.parent_id,
            None => None,
        };
        let last_sibling_id = match &self.target {
            Some(t) => t.last_sibling_id,
            None => None,
        };
        paths.to_write_action(depth, parent_id, last_sibling_id)
    }

    /// The targets a command works on: the selection when there is one,
    /// the lines under the cursor otherwise.
    pub open spec fn spec_targets(self) -> Seq<Target> {
        if self.selected_targets@.len() != 0 {
            self.selected_targets@
        } else {
            self.targets@
        }
    }

    /// The targets a command works on: the selection when there is one,
    /// the lines under the cursor otherwise.
    pub fn targets(&self) -> (r: &Vec<Target>)
        ensures
            r@ == self.spec_targets(),
    {
        if self.selected_targets.len() != 0 {
            return &self.selected_targets;
        }
        &self.targets
    }

    /// The ids of the lines under the cursor that are not the parent line.
    pub fn target_ids(&self) -> (r: Vec<u64>)
        ensures
            r@ == ids_of_nodes(self.targets@),
    {
        let mut r: Vec<u64> = Vec::new();
        let mut i: usize = 0;
        while i < self.targets.len()
            invariant
                i <= self.targets@.len(),
                r@ == ids_of_nodes(self.targets@.take(i as int)),
            decreases self.targets@.len() - i,
        {
            assert(self.targets@.take(i + 1).drop_last() =~= self.targets@.take(i as int));
            if !self.targets[i].is_parent_node {
                r.push(self.targets[i].id);
            }
            i += 1;
        }
        assert(self.targets@.take(i as int) =~= self.targets@);
        r
    }

    /// The targets that `keep` marks, without those lying under another
    /// marked target at a different depth, whatever their order; `keep[i]`
    /// is for `targets()[i]`.
    pub fn dedup_targets(&self, keep: &Vec<bool>) -> (r: Vec<&Target>)
        requires
            keep@.len() == self.spec_targets().len(),
        ensures
            r@.len() == deduped(kept(self.spec_targets(), keep@)).len(),
            forall|i: int|
                0 <= i < r@.len() ==> *r@[i] == deduped(kept(self.spec_targets(), keep@))[i],
    {
        let ts = self.targets();
        let ghost all = kept(ts@, keep@);
        // the targets kept by the flags, as read so far
        let mut filtered: Vec<&Target> = Vec::new();
        let mut i: usize = 0;
        while i < ts.len()
            invariant
                i <= ts@.len(),
                keep@.len() == ts@.len(),
                filtered@.len() == kept(ts@.take(i as int), keep@).len(),
                forall|k: int|
                    0 <= k < filtered@.len() ==> *filtered@[k] == kept(ts@.take(i as int), keep@)[k],
            decreases ts@.len() - i,
        {
            proof {
                assert(ts@.take(i + 1).drop_last() =~= ts@.take(i as int));
                lemma_kept_prefix(ts@.take(i + 1), keep@);
            }
            if keep[i] {
                filtered.push(&ts[i]);
            }
            i += 1;
        }
        assert(ts@.take(i as int) =~= ts@);
        let ghost pred = |x: Target| !under_other_depth(x, all);
        let mut acc: Vec<&Target> = Vec::new();
        let mut j: usize = 0;
        while j < filtered.len()
            invariant
                j <= filtered@.len(),
                filtered@.len() == all.len(),
                forall|k: int| 0 <= k < filtered@.len() ==> *filtered@[k] == all[k],
                pred == (|x: Target| !under_other_depth(x, all)),
                acc@.len() == all.take(j as int).filter(pred).len(),
                forall|k: int| 0 <= k < acc@.len() ==> *acc@[k] == all.take(j as int).filter(pred)[k],
            decreases filtered@.len() - j,
        {
            let t = filtered[j];
            let mut covered = false;
            let mut k: usize = 0;
            while k < filtered.len()
                invariant
                    k <= filtered@.len(),
                    filtered@.len() == all.len(),
                    forall|m: int| 0 <= m < filtered@.len() ==> *filtered@[m] == all[m],
                    covered <==> exists|m: int|
                        0 <= m < k && all[m].depth != t.depth && #[trigger] path_starts_with(
                            t.path@,
                            all[m].path@,
                        ),
                decreases filtered@.len() - k,
            {
                let x = filtered[k];
                proof {
                    assert(*x == all[k as int]);
                }
                if x.depth != t.depth && FilePath::new(t.path.as_str()).contained(x.path.as_str()) {
                    covered = true;
                }
                k += 1;
            }
            proof {
                reveal(Seq::filter);
                let post = all.take(j + 1);
                assert(post.drop_last() =~= all.take(j as int));
                assert(post.last() == all[j as int]);
                assert(covered == under_other_depth(*t, all));
            }
            if !covered {
                acc.push(t);
            }
            j += 1;
        }
        assert(all.take(j as int) =~= all);
        acc
    }
}

/// Law: where a directory and entries under it are all targets, only the
/// directory is left. Each target left is one of the given targets and lies
/// under no given target at another depth; each given target that lies under
/// none is left; a target under a given target at another depth is not left.
pub proof fn lemma_dedup_keeps_parents(ts: Seq<Target>)
    ensures
        forall|k: int|
            0 <= k < deduped(ts).len() ==> ts.contains(#[trigger] deduped(ts)[k])
                && !under_other_depth(deduped(ts)[k], ts),
        forall|k: int|
            0 <= k < ts.len() && !under_other_depth(#[trigger] ts[k], ts) ==> deduped(
                ts,
            ).contains(ts[k]),
        forall|i: int, j: int|
            0 <= i < ts.len() && 0 <= j < ts.len() && ts[j].depth != ts[i].depth
                && #[trigger] path_starts_with(ts[i].path@, ts[j].path@) ==> !deduped(ts).contains(
                ts[i],
            ),
{
    let pred = |x: Target| !under_other_depth(x, ts);
    assert forall|k: int| 0 <= k < deduped(ts).len() implies ts.contains(#[trigger] deduped(ts)[k])
        && !under_other_depth(deduped(ts)[k], ts) by {
        ts.lemma_filter_pred(pred, k);
        assert(ts.filter(pred).contains(ts.filter(pred)[k]));
        ts.lemma_filter_contains_rev(pred, ts.filter(pred)[k]);
    }
    assert forall|k: int| 0 <= k < ts.len() && !under_other_depth(#[trigger] ts[k], ts) implies deduped(
        ts,
    ).contains(ts[k]) by {
        ts.lemma_filter_contains(pred, k);
    }
    assert forall|i: int, j: int|
        0 <= i < ts.len() && 0 <= j < ts.len() && ts[j].depth != ts[i].depth
            && #[trigger] path_starts_with(ts[i].path@, ts[j].path@) implies !deduped(ts).contains(
        ts[i],
    ) by {
        assert(under_other_depth(ts[i], ts));
    }
}

/// Law: new entries go next to the target line when it is an entry of the
/// listing, into the directory that holds it; when the target line is the
/// parent line, or there is none, they go into the current directory.
pub proof fn lemma_group_path_follows_target(c: Current)
    ensures
        c.target is None ==> c.group_path() == c.path@,
        c.target matches Some(t) && t.is_parent_node ==> c.group_path() == c.path@,
        c.target matches Some(t) && !t.is_parent_node && parent_of(t.path@) is Some ==> Some(
            c.group_path(),
        ) == parent_of(c.target.unwrap().path@),
{
}

proof fn lemma_kept_prefix(ts: Seq<Target>, keep: Seq<bool>)
    requires
        ts.len() > 0,
        keep.len() >= ts.len(),
    ensures
        kept(ts, keep) == (if keep[ts.len() - 1] {
            kept(ts.drop_last(), keep).push(ts.last())
        } else {
            kept(ts.drop_last(), keep)
        }),
{
}

} // verus!
