//! Removing the targets.

use vstd::prelude::*;
use crate::command::action::{
    action_views, lemma_action_views_push, rendered_lines, rendered_props, result_view, Action,
    ActionView, Paths,
};
use crate::command::current::{deduped, kept, Current, Target};
use crate::command::error::{lifted, Error, ErrorKindView};
use crate::name::option_views;
use crate::option::{CommandOption, OptionView};
use crate::repository::error::Error as RepositoryError;
use crate::repository::path::{parent_of, root_path, FilePath};
use crate::text::{lemma_views_push, views};

verus! {

/// The switches of `remove`.
pub struct RemoveCommandOptions {
    pub no_confirm: bool,
}

/// Whether the options `os` include `-no-confirm`.
pub open spec fn has_no_confirm(os: Seq<OptionView>) -> bool {
    exists|i: int| 0 <= i < os.len() && os[i] is NoConfirm
}

impl RemoveCommandOptions {
    /// Reads the switches of `remove` from `opts`.
    pub fn from(opts: Vec<CommandOption>) -> (r: RemoveCommandOptions)
        ensures
            r.no_confirm == has_no_confirm(option_views(opts@)),
    {
        let mut no_confirm = false;
        let mut i: usize = 0;
        while i < opts.len()
            invariant
                i <= opts@.len(),
                no_confirm == exists|j: int| 0 <= j < i && (#[trigger] option_views(opts@)[j]) is NoConfirm,
            decreases opts@.len() - i,
        {
            assert(option_views(opts@)[i as int] == opts@[i as int]@);
            match &opts[i] {
                CommandOption::NoConfirm => no_confirm = true,
                _ => {},
            }
            i += 1;
        }
        RemoveCommandOptions { no_confirm }
    }
}

/// One flag per target: whether it is a node rather than the parent line.
pub open spec fn node_flags(ts: Seq<Target>) -> Seq<bool> {
    Seq::new(ts.len(), |i: int| !ts[i].is_parent_node)
}

/// The paths of some targets.
pub open spec fn target_paths(ts: Seq<Target>) -> Seq<Seq<char>> {
    Seq::new(ts.len(), |i: int| ts[i].path@)
}

/// The smallest depth among `ts` (0 when there are none).
pub open spec fn min_depth(ts: Seq<Target>) -> u64
    decreases ts.len(),
{
    if ts.len() == 0 {
        0
    } else if ts.len() == 1 {
        ts[0].depth
    } else {
        let m = min_depth(ts.drop_last());
        if ts.last().depth < m {
            ts.last().depth
        } else {
            m
        }
    }
}

/// The directory holding `p`, or the root.
pub open spec fn parent_or_root(p: Seq<char>) -> Seq<char> {
    match parent_of(p) {
        Some(q) => q,
        None => root_path(),
    }
}

/// A directory to list again after a removal, with where to write it.
pub struct Refresh {
    pub path: String,
    pub depth: u64,
    pub parent_id: Option<u64>,
    pub last_sibling_id: Option<u64>,
}

/// The value of a [`Refresh`].
pub struct RefreshView {
    pub path: Seq<char>,
    pub depth: u64,
    pub parent_id: Option<u64>,
    pub last_sibling_id: Option<u64>,
}

impl View for Refresh {
    type V = RefreshView;

    open spec fn view(&self) -> RefreshView {
        RefreshView {
            path: self.path@,
            depth: self.depth,
            parent_id: self.parent_id,
            last_sibling_id: self.last_sibling_id,
        }
    }
}

/// The values of a sequence of refreshes.
pub open spec fn refresh_views(v: Seq<Refresh>) -> Seq<RefreshView> {
    v.map_values(|r: Refresh| r@)
}

/// The directories holding the targets at depth `m`, each once, in the order
/// first met, with the place of the target it was first met for.
pub open spec fn refreshes(ts: Seq<Target>, m: u64) -> Seq<RefreshView>
    decreases ts.len(),
{
    if ts.len() == 0 {
        seq![]
    } else {
        let prev = refreshes(ts.drop_last(), m);
        let t = ts.last();
        let p = parent_or_root(t.path@);
        if t.depth != m || exists|j: int| 0 <= j < prev.len() && (#[trigger] prev[j]).path == p {
            prev
        } else {
            prev.push(
                RefreshView {
                    path: p,
                    depth: t.depth,
                    parent_id: t.parent_id,
                    last_sibling_id: t.last_sibling_id,
                },
            )
        }
    }
}

/// Writing the new listing of a refreshed directory, or the error met.
pub open spec fn refresh_action(r: RefreshView, c: Result<Paths, RepositoryError>) -> ActionView {
    match c {
        Ok(p) => ActionView::Write {
            lines: rendered_lines(p.paths@, r.depth),
            props: rendered_props(p.paths@, r.depth, r.parent_id),
            parent_id: r.parent_id,
            last_sibling_id: r.last_sibling_id,
            count: p.paths@.len() as usize,
        },
        Err(e) => ActionView::ShowError { path: r.path, message: e.inner.text() },
    }
}

/// Removes the targets.
pub struct RemoveCommand<'a> {
    pub current: &'a Current,
    pub opts: RemoveCommandOptions,
}

impl<'a> RemoveCommand<'a> {
    /// The targets to remove: the nodes among the targets, without those
    /// lying under another one removed.
    pub open spec fn spec_targets(current: Current) -> Seq<Target> {
        deduped(kept(current.spec_targets(), node_flags(current.spec_targets())))
    }

    /// The directories to list again after removing.
    pub open spec fn spec_refreshes(current: Current) -> Seq<RefreshView> {
        let ts = Self::spec_targets(current);
        refreshes(ts, min_depth(ts))
    }

    /// What removing answers: a confirmation request unless `-no-confirm`
    /// was given; otherwise, once `removed` reports the removal done, the
    /// new listing of each directory of [`Self::spec_refreshes`] (or the
    /// error met listing it), in order.
    pub open spec fn spec_actions(
        current: Current,
        no_confirm: bool,
        removed: Result<(), RepositoryError>,
        children: Seq<Result<Paths, RepositoryError>>,
    ) -> Result<Seq<ActionView>, ErrorKindView> {
        if !no_confirm {
            Ok(seq![ActionView::ConfirmRemove { paths: target_paths(Self::spec_targets(current)) }])
        } else {
            match removed {
                Err(e) => Err(lifted(e.inner)),
                Ok(_) => {
                    let rs = Self::spec_refreshes(current);
                    Ok(Seq::new(rs.len(), |i: int| refresh_action(rs[i], children[i])))
                },
            }
        }
    }

    /// The targets to remove.
    pub fn targets(&self) -> (r: Vec<&Target>)
        ensures
            r@.len() == Self::spec_targets(*self.current).len(),
            forall|i: int| 0 <= i < r@.len() ==> *r@[i] == Self::spec_targets(*self.current)[i],
    {
        let ts = self.current.targets();
        let mut keep: Vec<bool> = Vec::new();
        let mut i: usize = 0;
        while i < ts.len()
            invariant
                i <= ts@.len(),
                keep@ =~= node_flags(ts@).take(i as int),
            decreases ts@.len() - i,
        {
            keep.push(!ts[i].is_parent_node);
            i += 1;
        }
        assert(keep@ =~= node_flags(ts@));
        self.current.dedup_targets(&keep)
    }

    /// The paths to remove.
    pub fn paths(&self) -> (r: Vec<String>)
        ensures
            views(r@) == target_paths(Self::spec_targets(*self.current)),
    {
        let ts = self.targets();
        let mut r: Vec<String> = Vec::new();
        let mut i: usize = 0;
        while i < ts.len()
            invariant
                i <= ts@.len(),
                ts@.len() == Self::spec_targets(*self.current).len(),
                forall|k: int| 0 <= k < ts@.len() ==> *ts@[k] == Self::spec_targets(*self.current)[k],
                views(r@) =~= target_paths(Self::spec_targets(*self.current)).take(i as int),
            decreases ts@.len() - i,
        {
            let p = ts[i].path.clone();
            proof {
                lemma_views_push(r@, p);
            }
            r.push(p);
            i += 1;
        }
        r
    }

    /// The directories to list again after removing.
    pub fn refreshes(&self) -> (r: Vec<Refresh>)
        ensures
            refresh_views(r@) == Self::spec_refreshes(*self.current),
    {
        let ts = self.targets();
        let ghost sts = Self::spec_targets(*self.current);
        let mut m: u64 = 0;
        let mut i: usize = 0;
        while i < ts.len()
            invariant
                i <= ts@.len(),
                ts@.len() == sts.len(),
                forall|k: int| 0 <= k < ts@.len() ==> *ts@[k] == sts[k],
                m == min_depth(sts.take(i as int)),
            decreases ts@.len() - i,
        {
            proof {
                assert(sts.take(i + 1).drop_last() =~= sts.take(i as int));
            }
            if i == 0 || ts[i].depth < m {
                m = ts[i].depth;
            }
            i += 1;
        }
        assert(sts.take(i as int) =~= sts);
        let mut r: Vec<Refresh> = Vec::new();
        let mut i: usize = 0;
        assert(refresh_views(r@) =~= Seq::<RefreshView>::empty());
        while i < ts.len()
            invariant
                i <= ts@.len(),
                ts@.len() == sts.len(),
                forall|k: int| 0 <= k < ts@.len() ==> *ts@[k] == sts[k],
                m == min_depth(sts),
                refresh_views(r@) == refreshes(sts.take(i as int), m),
            decreases ts@.len() - i,
        {
            proof {
                assert(sts.take(i + 1).drop_last() =~= sts.take(i as int));
            }
            let t = ts[i];
            if t.depth == m {
                let p = FilePath::new(t.path.as_str()).parent_or_root();
                let mut seen = false;
                let mut j: usize = 0;
                while j < r.len()
                    invariant
                        j <= r@.len(),
                        seen == exists|k: int| 0 <= k < j && (#[trigger] refresh_views(r@)[k]).path == p@,
                    decreases r@.len() - j,
                {
                    assert(refresh_views(r@)[j as int] == r@[j as int]@);
                    if crate::text::str_eq(r[j].path.as_str(), p.as_str()) {
                        seen = true;
                    }
                    j += 1;
                }
                if !seen {
                    let e = Refresh {
                        path: p,
                        depth: t.depth,
                        parent_id: t.parent_id,
                        last_sibling_id: t.last_sibling_id,
                    };
                    assert(refresh_views(r@.push(e)) =~= refresh_views(r@).push(e@));
                    r.push(e);
                }
            }
            i += 1;
        }
        assert(sts.take(i as int) =~= sts);
        r
    }

    /// Removes, given `removed`, the outcome of removing [`Self::paths`],
    /// and the new listings of [`Self::refreshes`].
    pub fn actions(
        &self,
        removed: Result<(), RepositoryError>,
        children: &Vec<Result<Paths, RepositoryError>>,
    ) -> (r: Result<Vec<Action>, Error>)
        requires
            self.opts.no_confirm ==> children@.len() == Self::spec_refreshes(*self.current).len(),
        ensures
            result_view(r) == Self::spec_actions(
                *self.current,
                self.opts.no_confirm,
                removed,
                children@,
            ),
    {
        if !self.opts.no_confirm {
            let r = vec![Action::ConfirmRemove { paths: self.paths() }];
            assert(action_views(r@) =~= seq![
                ActionView::ConfirmRemove {
                    paths: target_paths(Self::spec_targets(*self.current)),
                },
            ]);
            return Ok(r);
        }
        if let Err(e) = removed {
            return Err(Error::from_repository(e));
        }
        let rs = self.refreshes();
        let ghost rv = refresh_views(rs@);
        let ghost want = Seq::new(rv.len(), |i: int| refresh_action(rv[i], children@[i]));
        let mut out: Vec<Action> = Vec::new();
        let mut i: usize = 0;
        while i < rs.len()
            invariant
                i <= rs@.len(),
                rv == refresh_views(rs@),
                children@.len() == rs@.len(),
                want == Seq::new(rv.len(), |i: int| refresh_action(rv[i], children@[i])),
                action_views(out@) =~= want.take(i as int),
            decreases rs@.len() - i,
        {
            assert(rv[i as int] == rs@[i as int]@);
            let a = match &children[i] {
                Ok(p) => p.to_write_action(rs[i].depth, rs[i].parent_id, rs[i].last_sibling_id),
                Err(err) => Action::ShowError { path: rs[i].path.clone(), message: err.message() },
            };
            proof {
                lemma_action_views_push(out@, a);
            }
            out.push(a);
            i += 1;
        }
        assert(want.take(i as int) =~= want);
        Ok(out)
    }
}

/// The smallest depth is no more than any target's and is some target's.
proof fn lemma_min_depth(ts: Seq<Target>)
    ensures
        forall|j: int| 0 <= j < ts.len() ==> min_depth(ts) <= #[trigger] ts[j].depth,
        ts.len() > 0 ==> exists|j: int| 0 <= j < ts.len() && ts[j].depth == min_depth(ts),
    decreases ts.len(),
{
    if ts.len() > 1 {
        let prev = ts.drop_last();
        lemma_min_depth(prev);
        assert forall|j: int| 0 <= j < ts.len() implies min_depth(ts) <= #[trigger] ts[j].depth by {
            if j < prev.len() {
                assert(ts[j] == prev[j]);
            }
        }
        if min_depth(ts) != ts.last().depth {
            let j = choose|j: int| 0 <= j < prev.len() && prev[j].depth == min_depth(prev);
            assert(ts[j] == prev[j]);
        }
    } else if ts.len() == 1 {
        assert(ts[0].depth == min_depth(ts));
    }
}

/// Every refresh for depth `m` is at depth `m`, and the directory holding
/// each target at depth `m` is refreshed.
proof fn lemma_refreshes_cover(ts: Seq<Target>, m: u64)
    ensures
        forall|i: int| 0 <= i < refreshes(ts, m).len() ==> (#[trigger] refreshes(ts, m)[i]).depth == m,
        forall|j: int|
            0 <= j < ts.len() && (#[trigger] ts[j]).depth == m ==> exists|i: int|
                0 <= i < refreshes(ts, m).len() && refreshes(ts, m)[i].path == parent_or_root(
                    ts[j].path@,
                ),
    decreases ts.len(),
{
    if ts.len() > 0 {
        let prev_ts = ts.drop_last();
        lemma_refreshes_cover(prev_ts, m);
        let prev = refreshes(prev_ts, m);
        let rs = refreshes(ts, m);
        assert(rs.len() >= prev.len());
        assert forall|i: int| 0 <= i < prev.len() implies rs[i] == prev[i] by {}
        assert forall|j: int|
            0 <= j < ts.len() && (#[trigger] ts[j]).depth == m implies exists|i: int|
                0 <= i < rs.len() && rs[i].path == parent_or_root(ts[j].path@) by {
            if j < prev_ts.len() {
                assert(ts[j] == prev_ts[j]);
                let i = choose|i: int|
                    0 <= i < prev.len() && prev[i].path == parent_or_root(prev_ts[j].path@);
                assert(rs[i] == prev[i]);
            } else {
                let p = parent_or_root(ts.last().path@);
                if exists|k: int| 0 <= k < prev.len() && (#[trigger] prev[k]).path == p {
                    let k = choose|k: int| 0 <= k < prev.len() && (#[trigger] prev[k]).path == p;
                    assert(rs[k] == prev[k]);
                } else {
                    assert(rs[rs.len() - 1].path == p);
                }
            }
        }
    }
}

/// Law: after a removal the directories listed again are those at the
/// smallest depth among the removed targets: no refreshed directory lies
/// deeper than any removed target, each is at the depth of one of them,
/// and the directory holding every shallowest removed target is listed
/// again (so something is listed whenever something is removed).
pub proof fn lemma_refresh_at_min_depth(current: Current)
    ensures
        ({
            let ts = RemoveCommand::spec_targets(current);
            let rs = RemoveCommand::spec_refreshes(current);
            &&& forall|i: int, j: int|
                0 <= i < rs.len() && 0 <= j < ts.len() ==> #[trigger] rs[i].depth <= #[trigger] ts[j].depth
            &&& forall|i: int|
                0 <= i < rs.len() ==> exists|j: int| 0 <= j < ts.len() && ts[j].depth == #[trigger] rs[i].depth
            &&& forall|j: int|
                0 <= j < ts.len() && (forall|k: int| 0 <= k < ts.len() ==> ts[j].depth <= #[trigger] ts[k].depth)
                    ==> exists|i: int| 0 <= i < rs.len() && rs[i].path == parent_or_root(#[trigger] ts[j].path@)
            &&& ts.len() > 0 ==> rs.len() > 0
        }),
{
    let ts = RemoveCommand::spec_targets(current);
    let m = min_depth(ts);
    lemma_min_depth(ts);
    lemma_refreshes_cover(ts, m);
    let rs = RemoveCommand::spec_refreshes(current);
    assert forall|i: int| 0 <= i < rs.len() implies exists|j: int|
        0 <= j < ts.len() && ts[j].depth == #[trigger] rs[i].depth by {
        assert(rs[i].depth == m);
    }
    assert forall|j: int|
        0 <= j < ts.len() && (forall|k: int| 0 <= k < ts.len() ==> ts[j].depth <= #[trigger] ts[k].depth)
            implies exists|i: int| 0 <= i < rs.len() && rs[i].path == parent_or_root(#[trigger] ts[j].path@) by {
        let w = choose|w: int| 0 <= w < ts.len() && ts[w].depth == m;
        assert(ts[j].depth <= ts[w].depth);
        assert(m <= ts[j].depth);
    }
    if ts.len() > 0 {
        let w = choose|w: int| 0 <= w < ts.len() && ts[w].depth == m;
        assert(ts[w].depth == m);
    }
}

} // verus!
