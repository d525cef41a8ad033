//! Renaming the target line, and renaming many paths at once.

use vstd::prelude::*;
use crate::command::action::{
    action_views, lemma_action_views_push, rendered_lines, rendered_props, rename_item_views,
    result_view, Action, ActionView, Paths, RenameItem, RenameItemView,
};
use crate::command::current::{deduped, kept, Current, Target};
use crate::command::error::{lifted, lifted_view, none_error, Error, ErrorKind, ErrorKindView};
use crate::command::parent::write_all_view;
use crate::command::remove::node_flags;
use crate::name::option_views;
use crate::option::{CommandOption, OptionView};
use crate::repository::error::{none_kind, Error as RepositoryError};
use crate::repository::file::{joined, move_op, FilePathRepository, FsOp, FsOpView};
use crate::repository::path::{opt_view, parent_of, relative_path, slashed, FilePath};

verus! {

/// The switches of `rename`.
pub struct RenameCommandOptions {
    pub no_confirm: bool,
    pub path: Option<String>,
}

/// The new name given with `-path` (the last one wins).
pub open spec fn path_option(os: Seq<OptionView>) -> Option<Seq<char>>
    decreases os.len(),
{
    if os.len() == 0 {
        None
    } else {
        match os.last() {
            OptionView::Path(p) => Some(p),
            _ => path_option(os.drop_last()),
        }
    }
}

impl RenameCommandOptions {
    /// Reads the switches of `rename` from `opts`.
    pub fn from(opts: Vec<CommandOption>) -> (r: RenameCommandOptions)
        ensures
            r.no_confirm == crate::command::remove::has_no_confirm(option_views(opts@)),
            opt_view(r.path) == path_option(option_views(opts@)),
    {
        let mut no_confirm = false;
        let mut path: Option<String> = None;
        let mut i: usize = 0;
        while i < opts.len()
            invariant
                i <= opts@.len(),
                no_confirm == exists|j: int|
                    0 <= j < i && (#[trigger] option_views(opts@)[j]) is NoConfirm,
                opt_view(path) == path_option(option_views(opts@).take(i as int)),
            decreases opts@.len() - i,
        {
            proof {
                assert(option_views(opts@)[i as int] == opts@[i as int]@);
                assert(option_views(opts@).take(i + 1).drop_last() =~= option_views(opts@).take(
                    i as int,
                ));
            }
            match &opts[i] {
                CommandOption::NoConfirm => no_confirm = true,
                CommandOption::Path { value } => path = Some(value.clone()),
                _ => {},
            }
            i += 1;
        }
        assert(option_views(opts@).take(i as int) =~= option_views(opts@));
        RenameCommandOptions { no_confirm, path }
    }
}

/// What renaming decides before touching the file tree.
pub enum RenameStep {
    /// Answer with these actions and do nothing else.
    Answer(Vec<Action>),
    /// Perform this move, then list the directory it happened in.
    Move { op: FsOp, group: String },
}

/// The value of a [`RenameStep`], or the error renaming fails with.
pub enum RenameStepView {
    Answer(Seq<ActionView>),
    Fail(ErrorKindView),
    Move { op: FsOpView, group: Seq<char> },
}

/// The value of a planned rename.
pub open spec fn step_view(r: Result<RenameStep, Error>) -> RenameStepView {
    match r {
        Ok(RenameStep::Answer(v)) => RenameStepView::Answer(action_views(v@)),
        Ok(RenameStep::Move { op, group }) => RenameStepView::Move { op: op@, group: group@ },
        Err(e) => RenameStepView::Fail(e@),
    }
}

/// The message given when a rename without confirmation lacks what it needs.
pub open spec fn missing_rename_arguments() -> Seq<char> {
    "no confirm rename required -path and -current-target"@
}

/// Renames the target line.
pub struct RenameCommand<'a> {
    pub current: &'a Current,
    pub opts: RenameCommandOptions,
}

impl<'a> RenameCommand<'a> {
    /// Renaming target `t` to `p`, without confirmation.
    pub open spec fn spec_move(current: Current, t: Target, p: Seq<char>) -> RenameStepView {
        match slashed(t.path@) {
            None => RenameStepView::Fail(lifted_view(none_kind())),
            Some(from) => {
                let group = if !t.is_parent_node {
                    parent_of(t.path@)
                } else {
                    Some(current.path@)
                };
                match group {
                    None => RenameStepView::Fail(none_error()),
                    Some(g) => match joined(g, p) {
                        None => RenameStepView::Fail(lifted_view(none_kind())),
                        Some(to) => RenameStepView::Move { op: move_op(from, to, false, false), group: g },
                    },
                }
            },
        }
    }

    /// What renaming decides: without `-no-confirm` it asks for the new name
    /// of a target node; with it, and with a target and `-path`, it moves
    /// the target; with `-no-confirm` but no target or path it fails;
    /// otherwise it does nothing.
    pub open spec fn spec_plan(current: Current, no_confirm: bool, path: Option<Seq<char>>) -> RenameStepView {
        match current.target {
            Some(t) => if !no_confirm {
                if !t.is_parent_node {
                    match relative_path(t.path@, current.path@) {
                        Ok(rel) => RenameStepView::Answer(
                            seq![ActionView::ConfirmRename { path: t.path@, relative_path: rel }],
                        ),
                        Err(e) => RenameStepView::Fail(lifted_view(e)),
                    }
                } else {
                    RenameStepView::Answer(seq![])
                }
            } else {
                match path {
                    Some(p) => Self::spec_move(current, t, p),
                    None => RenameStepView::Fail(ErrorKindView::Invalid(missing_rename_arguments())),
                }
            },
            None => if no_confirm {
                RenameStepView::Fail(ErrorKindView::Invalid(missing_rename_arguments()))
            } else {
                RenameStepView::Answer(seq![])
            },
        }
    }

    /// What renaming answers, given the outcome of the move it planned and
    /// the new listing of the directory it happened in.
    pub open spec fn spec_actions(
        current: Current,
        no_confirm: bool,
        path: Option<Seq<char>>,
        renamed: Result<(), RepositoryError>,
        listing: Result<Paths, RepositoryError>,
    ) -> Result<Seq<ActionView>, ErrorKindView> {
        match Self::spec_plan(current, no_confirm, path) {
            RenameStepView::Answer(v) => Ok(v),
            RenameStepView::Fail(e) => Err(e),
            RenameStepView::Move { .. } => match renamed {
                Err(e) => Err(lifted(e.inner)),
                Ok(_) => match listing {
                    Err(e) => Err(lifted(e.inner)),
                    Ok(ps) => {
                        let t = current.target.unwrap();
                        Ok(
                            seq![
                                ActionView::Write {
                                    lines: rendered_lines(ps.paths@, t.depth),
                                    props: rendered_props(ps.paths@, t.depth, t.parent_id),
                                    parent_id: t.parent_id,
                                    last_sibling_id: t.last_sibling_id,
                                    count: ps.paths@.len() as usize,
                                },
                            ],
                        )
                    },
                },
            },
        }
    }

    /// Decides what renaming does.
    pub fn plan(&self) -> (r: Result<RenameStep, Error>)
        ensures
            step_view(r) == Self::spec_plan(
                *self.current,
                self.opts.no_confirm,
                opt_view(self.opts.path),
            ),
    {
        let t = match &self.current.target {
            Some(t) => t,
            None => {
                if self.opts.no_confirm {
                    return Err(
                        ErrorKind::invalid("no confirm rename required -path and -current-target"),
                    );
                }
                let v: Vec<Action> = Vec::new();
                assert(action_views(v@) =~= Seq::<ActionView>::empty());
                return Ok(RenameStep::Answer(v));
            },
        };
        if !self.opts.no_confirm {
            if !t.is_parent_node {
                let rel = match FilePath::new(t.path.as_str()).to_relative(self.current.path.as_str()) {
                    Ok(rel) => rel,
                    Err(e) => return Err(Error::from_repository(e)),
                };
                let v = vec![Action::ConfirmRename { relative_path: rel, path: t.to_string() }];
                assert(action_views(v@) =~= seq![v@[0]@]);
                return Ok(RenameStep::Answer(v));
            }
            let v: Vec<Action> = Vec::new();
            assert(action_views(v@) =~= Seq::<ActionView>::empty());
            return Ok(RenameStep::Answer(v));
        }
        let path = match &self.opts.path {
            Some(p) => p,
            None => {
                return Err(
                    ErrorKind::invalid("no confirm rename required -path and -current-target"),
                )
            },
        };
        let from = match FilePath::new(t.path.as_str()).to_string() {
            Ok(f) => f,
            Err(e) => return Err(Error::from_repository(e)),
        };
        let group = if !t.is_parent_node {
            match FilePath::new(t.path.as_str()).parent() {
                Some(g) => g,
                None => return Err(Error::none()),
            }
        } else {
            self.current.path.clone()
        };
        let repository = FilePathRepository {};
        match repository.rename_with(from.as_str(), group.as_str(), path.as_str(), false) {
            Ok(op) => Ok(RenameStep::Move { op, group }),
            Err(e) => Err(Error::from_repository(e)),
        }
    }

    /// Renames, given `renamed`, the outcome of the planned move, and
    /// `listing`, the new listing of its directory (both ignored when no
    /// move was planned).
    pub fn actions(
        &self,
        renamed: Result<(), RepositoryError>,
        listing: Result<Paths, RepositoryError>,
    ) -> (r: Result<Vec<Action>, Error>)
        ensures
            result_view(r) == Self::spec_actions(
                *self.current,
                self.opts.no_confirm,
                opt_view(self.opts.path),
                renamed,
                listing,
            ),
    {
        match self.plan()? {
            RenameStep::Answer(v) => Ok(v),
            RenameStep::Move { .. } => {
                if let Err(e) = renamed {
                    return Err(Error::from_repository(e));
                }
                let paths = match listing {
                    Ok(ps) => ps,
                    Err(e) => return Err(Error::from_repository(e)),
                };
                let t = match &self.current.target {
                    Some(t) => t,
                    None => return Err(Error::none()),
                };
                let v = vec![paths.to_write_action(t.depth, t.parent_id, t.last_sibling_id)];
                assert(action_views(v@) =~= seq![v@[0]@]);
                Ok(v)
            },
        }
    }
}

/// Law: a rename without confirmation keeps the target where it is. For an
/// entry of the listing, the move goes from the entry to the new name in
/// the directory that holds the entry, never moves it anywhere else, and
/// that directory is the one listed again; for the parent line, the new
/// name is taken in the current directory.
pub proof fn lemma_rename_keeps_directory(current: Current, p: Seq<char>)
    requires
        current.target is Some,
        slashed(current.target.unwrap().path@) is Some,
    ensures
        ({
            let t = current.target.unwrap();
            let from = slashed(t.path@).unwrap();
            let dir = if t.is_parent_node {
                Some(current.path@)
            } else {
                parent_of(t.path@)
            };
            match dir {
                Some(g) => match joined(g, p) {
                    Some(to) => RenameCommand::spec_plan(current, true, Some(p))
                        == RenameStepView::Move { op: FsOpView::Rename(from, to, false), group: g },
                    None => RenameCommand::spec_plan(current, true, Some(p)) is Fail,
                },
                None => RenameCommand::spec_plan(current, true, Some(p)) is Fail,
            }
        }),
{
}

/// The renamer's entries for the targets `ts`, relative to `base`, or the
/// first error met.
pub open spec fn renamer_items(ts: Seq<Target>, base: Seq<char>) -> Result<Seq<RenameItemView>, ErrorKindView>
    decreases ts.len(),
{
    if ts.len() == 0 {
        Ok(seq![])
    } else {
        match renamer_items(ts.drop_last(), base) {
            Err(e) => Err(e),
            Ok(prev) => {
                let t = ts.last();
                match relative_path(t.path@, base) {
                    Err(e) => Err(lifted_view(e)),
                    Ok(rel) => Ok(
                        prev.push(
                            RenameItemView { id: t.id, path: t.path@, relative_path: rel, is_copy: false },
                        ),
                    ),
                }
            },
        }
    }
}

/// The entries renamed, for the outcomes `results` of the renames asked.
pub open spec fn renamed_items(
    ts: Seq<crate::command::current::RenameTarget>,
    results: Seq<Result<String, RepositoryError>>,
) -> Seq<RenameItemView>
    decreases ts.len(),
{
    if ts.len() == 0 {
        seq![]
    } else {
        let prev = renamed_items(ts.drop_last(), results);
        match results[ts.len() - 1] {
            Ok(to) => prev.push(
                RenameItemView {
                    id: ts.last().id,
                    path: to@,
                    relative_path: ts.last().to@,
                    is_copy: false,
                },
            ),
            Err(_) => prev,
        }
    }
}

/// The errors met renaming, for the outcomes `results` of the renames asked.
pub open spec fn rename_errors(
    ts: Seq<crate::command::current::RenameTarget>,
    results: Seq<Result<String, RepositoryError>>,
) -> Seq<ActionView>
    decreases ts.len(),
{
    if ts.len() == 0 {
        seq![]
    } else {
        let prev = rename_errors(ts.drop_last(), results);
        match results[ts.len() - 1] {
            Ok(_) => prev,
            Err(e) => prev.push(
                ActionView::ShowError { path: ts.last().to@, message: lifted(e.inner).text() },
            ),
        }
    }
}

/// Renames many paths at once through the renamer.
pub struct MultipleRenameCommand<'a> {
    pub current: &'a Current,
}

impl<'a> MultipleRenameCommand<'a> {
    /// What renaming many paths answers. With nothing to rename it opens the
    /// renamer on the targets (unless it is open already); otherwise
    /// `results[i]` is the outcome of the `i`-th rename asked (the path
    /// renamed to, or the error met) and `listing` the new listing of the
    /// current directory.
    pub open spec fn spec_actions(
        current: Current,
        results: Seq<Result<String, RepositoryError>>,
        listing: Result<Paths, RepositoryError>,
    ) -> Result<Seq<ActionView>, ErrorKindView> {
        if current.rename_targets@.len() == 0 && !current.renamer_opened {
            let ts = deduped(kept(current.spec_targets(), node_flags(current.spec_targets())));
            match renamer_items(ts, current.path@) {
                Err(e) => Err(e),
                Ok(items) => Ok(seq![ActionView::OpenRenamer { path: current.path@, items }]),
            }
        } else if current.rename_targets@.len() == 0 {
            Ok(seq![])
        } else {
            match listing {
                Err(e) => Err(lifted(e.inner)),
                Ok(ps) => {
                    let errors = rename_errors(current.rename_targets@, results);
                    Ok(
                        seq![
                            ActionView::CompleteRenamer {
                                items: renamed_items(current.rename_targets@, results),
                                has_error: errors.len() != 0,
                            },
                            write_all_view(ps.paths@),
                        ] + errors,
                    )
                },
            }
        }
    }

    /// The move or copy each rename asks for: the path renamed to lies in
    /// the current directory.
    pub fn requests(&self) -> (r: Vec<Result<FsOp, RepositoryError>>)
        ensures
            r@.len() == self.current.rename_targets@.len(),
            forall|i: int|
                0 <= i < r@.len() ==> rename_requested(
                    self.current.path@,
                    self.current.rename_targets@[i],
                    #[trigger] r@[i],
                ),
    {
        let repository = FilePathRepository {};
        let mut r: Vec<Result<FsOp, RepositoryError>> = Vec::new();
        let mut i: usize = 0;
        while i < self.current.rename_targets.len()
            invariant
                i <= self.current.rename_targets@.len(),
                r@.len() == i,
                forall|j: int|
                    0 <= j < i ==> rename_requested(
                        self.current.path@,
                        self.current.rename_targets@[j],
                        #[trigger] r@[j],
                    ),
            decreases self.current.rename_targets@.len() - i,
        {
            let t = &self.current.rename_targets[i];
            r.push(
                repository.rename_or_copy_with(
                    t.from.as_str(),
                    self.current.path.as_str(),
                    t.to.as_str(),
                    t.is_copy,
                    false,
                ),
            );
            i += 1;
        }
        r
    }

    /// Renames, given the outcome of each rename asked and the new listing
    /// of the current directory.
    pub fn actions(
        &self,
        results: &Vec<Result<String, RepositoryError>>,
        listing: Result<Paths, RepositoryError>,
    ) -> (r: Result<Vec<Action>, Error>)
        requires
            results@.len() == self.current.rename_targets@.len(),
        ensures
            result_view(r) == Self::spec_actions(*self.current, results@, listing),
    {
        let n = self.current.rename_targets.len();
        if n == 0 && !self.current.renamer_opened {
            let keep_ts = self.current.targets();
            let mut keep: Vec<bool> = Vec::new();
            let mut i: usize = 0;
            while i < keep_ts.len()
                invariant
                    i <= keep_ts@.len(),
                    keep@ =~= node_flags(keep_ts@).take(i as int),
                decreases keep_ts@.len() - i,
            {
                keep.push(!keep_ts[i].is_parent_node);
                i += 1;
            }
            assert(keep@ =~= node_flags(keep_ts@));
            let ts = self.current.dedup_targets(&keep);
            let ghost sts = deduped(kept(self.current.spec_targets(), node_flags(self.current.spec_targets())));
            let mut items: Vec<RenameItem> = Vec::new();
            let mut i: usize = 0;
            assert(rename_item_views(items@) =~= Seq::<RenameItemView>::empty());
            while i < ts.len()
                invariant
                    i <= ts@.len(),
                    self.current.rename_targets@.len() == 0,
                    !self.current.renamer_opened,
                    sts == deduped(
                        kept(self.current.spec_targets(), node_flags(self.current.spec_targets())),
                    ),
                    ts@.len() == sts.len(),
                    forall|k: int| 0 <= k < ts@.len() ==> *ts@[k] == sts[k],
                    renamer_items(sts.take(i as int), self.current.path@) == Ok::<
                        Seq<RenameItemView>,
                        ErrorKindView,
                    >(rename_item_views(items@)),
                decreases ts@.len() - i,
            {
                proof {
                    assert(sts.take(i + 1).drop_last() =~= sts.take(i as int));
                }
                let t = ts[i];
                let rel = match FilePath::new(t.path.as_str()).to_relative(self.current.path.as_str()) {
                    Ok(rel) => rel,
                    Err(e) => {
                        proof {
                            assert(*ts@[i as int] == sts[i as int]);
                            assert(relative_path(sts[i as int].path@, self.current.path@) == Err::<Seq<char>, crate::repository::error::ErrorKindView>(e.inner@));
                            lemma_renamer_items_err(sts, self.current.path@, i as int);
                            assert(renamer_items(sts, self.current.path@) == Err::<Seq<RenameItemView>, ErrorKindView>(lifted_view(e.inner@)));
                        }
                        let err = Error::from_repository(e);
                        assert(err@ == lifted_view(e.inner@));
                        return Err(err);
                    },
                };
                let item = RenameItem { id: t.id, path: t.path.clone(), relative_path: rel, is_copy: false };
                assert(rename_item_views(items@.push(item)) =~= rename_item_views(items@).push(item@));
                items.push(item);
                i += 1;
            }
            assert(sts.take(i as int) =~= sts);
            let v = vec![Action::OpenRenamer { path: self.current.path.clone(), items }];
            assert(action_views(v@) =~= seq![v@[0]@]);
            return Ok(v);
        } else if n == 0 {
            let v: Vec<Action> = Vec::new();
            assert(action_views(v@) =~= Seq::<ActionView>::empty());
            return Ok(v);
        }
        let ghost rts = self.current.rename_targets@;
        let mut items: Vec<RenameItem> = Vec::new();
        let mut errors: Vec<Action> = Vec::new();
        let mut i: usize = 0;
        assert(rename_item_views(items@) =~= Seq::<RenameItemView>::empty());
        assert(action_views(errors@) =~= Seq::<ActionView>::empty());
        while i < n
            invariant
                i <= n,
                n == rts.len(),
                rts == self.current.rename_targets@,
                results@.len() == n,
                rename_item_views(items@) == renamed_items(rts.take(i as int), results@),
                action_views(errors@) == rename_errors(rts.take(i as int), results@),
            decreases n - i,
        {
            proof {
                assert(rts.take(i + 1).drop_last() =~= rts.take(i as int));
                assert(rts.take(i + 1).last() == rts[i as int]);
            }
            let t = &self.current.rename_targets[i];
            match &results[i] {
                Ok(to) => {
                    let item = RenameItem {
                        id: t.id,
                        path: to.clone(),
                        relative_path: t.to.clone(),
                        is_copy: false,
                    };
                    assert(rename_item_views(items@.push(item)) =~= rename_item_views(items@).push(
                        item@,
                    ));
                    items.push(item);
                },
                Err(err) => {
                    let a = Action::ShowError { path: t.to.clone(), message: Error::lifted_message(err) };
                    proof {
                        lemma_action_views_push(errors@, a);
                    }
                    errors.push(a);
                },
            }
            i += 1;
        }
        assert(rts.take(i as int) =~= rts);
        let paths = match listing {
            Ok(ps) => ps,
            Err(e) => return Err(Error::from_repository(e)),
        };
        let has_error = errors.len() != 0;
        let mut actions = vec![
            Action::CompleteRenamer { items, has_error },
            paths.to_write_all_action(),
        ];
        let ghost head = action_views(actions@);
        assert(head =~= seq![actions@[0]@, actions@[1]@]);
        let ghost ev = errors@;
        actions.append(&mut errors);
        assert(action_views(actions@) =~= head + action_views(ev));
        Ok(actions)
    }
}

/// Whether `r` is the move or copy that renaming `t` asks for in `base`,
/// or the error met when there is none.
pub open spec fn rename_requested(
    base: Seq<char>,
    t: crate::command::current::RenameTarget,
    r: Result<FsOp, RepositoryError>,
) -> bool {
    match r {
        Ok(op) => joined(base, t.to@) matches Some(p) && op@ == move_op(t.from@, p, t.is_copy, false),
        Err(_) => joined(base, t.to@) is None,
    }
}

proof fn lemma_renamer_items_err(ts: Seq<Target>, base: Seq<char>, i: int)
    requires
        0 <= i < ts.len(),
        renamer_items(ts.take(i), base) is Ok,
        relative_path(ts[i].path@, base) is Err,
    ensures
        renamer_items(ts, base) == Err::<Seq<RenameItemView>, ErrorKindView>(
            lifted_view(relative_path(ts[i].path@, base)->Err_0),
        ),
    decreases ts.len() - i,
{
    assert(ts.take(i + 1).drop_last() =~= ts.take(i));
    if i + 1 < ts.len() {
        lemma_renamer_items_err_extend(ts, base, i + 1, lifted_view(relative_path(ts[i].path@, base)->Err_0));
    } else {
        assert(ts.take(i + 1) =~= ts);
    }
}

proof fn lemma_renamer_items_err_extend(ts: Seq<Target>, base: Seq<char>, k: int, e: ErrorKindView)
    requires
        0 < k <= ts.len(),
        renamer_items(ts.take(k), base) == Err::<Seq<RenameItemView>, ErrorKindView>(e),
    ensures
        renamer_items(ts, base) == Err::<Seq<RenameItemView>, ErrorKindView>(e),
    decreases ts.len() - k,
{
    if k < ts.len() {
        assert(ts.take(k + 1).drop_last() =~= ts.take(k));
        lemma_renamer_items_err_extend(ts, base, k + 1, e);
    } else {
        assert(ts.take(k) =~= ts);
    }
}

} // verus!
