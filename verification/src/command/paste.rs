//! Pasting the registered paths next to the target line.

use vstd::prelude::*;
use crate::command::action::{
    action_views, choose_item_views, lemma_action_views_push, result_view, Action, ActionView,
    ChooseItem, ChooseItemView, Paths,
};
use crate::command::current::{Current, RegisteredTarget};
use crate::command::error::{lifted, lifted_view, Error, ErrorKind, ErrorKindView};
use crate::repository::error::{none_kind, Error as RepositoryError};
use crate::repository::file::{joined, move_op, FilePathRepository, FsOp};
use crate::repository::path::{path_file_name, relative_path, slashed, FilePath};

verus! {

/// Where a registered path is taken from.
pub open spec fn source_key(rt: RegisteredTarget) -> Seq<char> {
    match rt.from {
        Some(f) => f@,
        None => rt.path@,
    }
}

/// The registered paths, each source taken once, in the order first met.
pub open spec fn unique_sources(rs: Seq<RegisteredTarget>) -> Seq<RegisteredTarget>
    decreases rs.len(),
{
    if rs.len() == 0 {
        seq![]
    } else {
        let prev = unique_sources(rs.drop_last());
        if exists|j: int| 0 <= j < prev.len() && source_key(#[trigger] prev[j]) == source_key(rs.last()) {
            prev
        } else {
            prev.push(rs.last())
        }
    }
}

/// One paste: from where, to where, and whether it may overwrite.
pub struct PasteMove {
    pub from: String,
    pub to: String,
    pub force: bool,
}

/// The value of a [`PasteMove`].
pub struct PasteMoveView {
    pub from: Seq<char>,
    pub to: Seq<char>,
    pub force: bool,
}

impl View for PasteMove {
    type V = PasteMoveView;

    open spec fn view(&self) -> PasteMoveView {
        PasteMoveView { from: self.from@, to: self.to@, force: self.force }
    }
}

/// The message given when a registered path has no name to paste it as.
pub open spec fn missing_name() -> Seq<char> {
    "new name not found"@
}

/// What to do next with one source while pasting.
#[derive(Debug, PartialEq, Eq)]
pub enum PasteStep {
    /// Move or copy it to its destination.
    Perform,
    /// Do nothing on disk for it: it is offered for a choice, or the
    /// command has already failed.
    Skip,
    /// The command fails here; no later source is pasted.
    Abort,
}

/// Pastes the registered paths.
pub struct PasteCommand<'a> {
    pub current: &'a Current,
}

impl<'a> PasteCommand<'a> {
    /// The paste of `rt` into the directory new entries go to: its source in
    /// slash form, to its given name (or its own name) there.
    pub open spec fn spec_plan(current: Current, rt: RegisteredTarget) -> Result<PasteMoveView, ErrorKindView> {
        let src = source_key(rt);
        match slashed(src) {
            None => Err(lifted_view(none_kind())),
            Some(from) => {
                let name = match rt.name {
                    Some(n) => Some(n@),
                    None => path_file_name(src),
                };
                match name {
                    None => Err(ErrorKindView::Invalid(missing_name())),
                    Some(n) => match joined(current.group_path(), n) {
                        None => Err(lifted_view(none_kind())),
                        Some(to) => Ok(PasteMoveView { from, to, force: rt.force }),
                    },
                }
            },
        }
    }

    /// Folds the pastes in order: a paste whose destination exists and that
    /// may not overwrite is offered for a choice; any other is performed and
    /// its error, if one, is shown. The first paste that cannot be planned,
    /// or whose destination cannot be shown relative to the current
    /// directory, fails the whole command.
    pub open spec fn spec_fold(
        current: Current,
        us: Seq<RegisteredTarget>,
        exists: Seq<bool>,
        moved: Seq<Result<(), RepositoryError>>,
    ) -> Result<(Seq<ChooseItemView>, Seq<ActionView>), ErrorKindView>
        decreases us.len(),
    {
        if us.len() == 0 {
            Ok((seq![], seq![]))
        } else {
            match Self::spec_fold(current, us.drop_last(), exists, moved) {
                Err(e) => Err(e),
                Ok((items, errors)) => {
                    let i = us.len() - 1;
                    match Self::spec_plan(current, us[i]) {
                        Err(e) => Err(e),
                        Ok(mv) => if !mv.force && exists[i] {
                            match relative_path(mv.to, current.path@) {
                                Err(e) => Err(lifted_view(e)),
                                Ok(rel) => Ok(
                                    (
                                        items.push(
                                            ChooseItemView { from: mv.from, path: mv.to, relative_path: rel },
                                        ),
                                        errors,
                                    ),
                                ),
                            }
                        } else {
                            match moved[i] {
                                Err(e) => Ok(
                                    (
                                        items,
                                        errors.push(
                                            ActionView::ShowError {
                                                path: mv.to,
                                                message: lifted(e.inner).text(),
                                            },
                                        ),
                                    ),
                                ),
                                Ok(_) => Ok((items, errors)),
                            }
                        },
                    }
                },
            }
        }
    }

    /// What pasting answers, given for each source of [`Self::sources`]
    /// whether its destination exists and the outcome of performing it
    /// (ignored for a paste offered for a choice), and the new listing of the
    /// directory pasted into.
    pub open spec fn spec_actions(
        current: Current,
        exists: Seq<bool>,
        moved: Seq<Result<(), RepositoryError>>,
        listing: Result<Paths, RepositoryError>,
    ) -> Result<Seq<ActionView>, ErrorKindView> {
        match Self::spec_fold(current, unique_sources(current.registered_targets@), exists, moved) {
            Err(e) => Err(e),
            Ok((items, errors)) => match listing {
                Err(e) => Err(lifted(e.inner)),
                Ok(ps) => Ok(
                    seq![current.write_view(ps.paths@), ActionView::ClearRegister] + errors + seq![
                        ActionView::Choose { path: current.path@, items, has_cut: current.has_cut },
                    ],
                ),
            },
        }
    }

    /// The registered paths, each source once.
    pub fn sources(&self) -> (r: Vec<&RegisteredTarget>)
        ensures
            r@.len() == unique_sources(self.current.registered_targets@).len(),
            forall|i: int|
                0 <= i < r@.len() ==> *r@[i] == unique_sources(self.current.registered_targets@)[i],
    {
        let rs = &self.current.registered_targets;
        let mut r: Vec<&RegisteredTarget> = Vec::new();
        let mut i: usize = 0;
        while i < rs.len()
            invariant
                i <= rs@.len(),
                r@.len() == unique_sources(rs@.take(i as int)).len(),
                forall|k: int| 0 <= k < r@.len() ==> *r@[k] == unique_sources(rs@.take(i as int))[k],
            decreases rs@.len() - i,
        {
            proof {
                assert(rs@.take(i + 1).drop_last() =~= rs@.take(i as int));
            }
            let key = Self::source_of(&rs[i]);
            let mut seen = false;
            let mut j: usize = 0;
            while j < r.len()
                invariant
                    j <= r@.len(),
                    seen == exists|k: int| 0 <= k < j && source_key(*r@[k]) == key@,
                decreases r@.len() - j,
            {
                let other = Self::source_of(r[j]);
                if crate::text::str_eq(other.as_str(), key.as_str()) {
                    seen = true;
                }
                j += 1;
            }
            proof {
                let prev = unique_sources(rs@.take(i as int));
                if seen {
                    let k = choose|k: int| 0 <= k < r@.len() && source_key(*r@[k]) == key@;
                    assert(source_key(prev[k]) == source_key(rs@[i as int]));
                } else {
                    assert forall|k: int| 0 <= k < prev.len() implies source_key(#[trigger] prev[k])
                        != source_key(rs@[i as int]) by {
                        assert(source_key(*r@[k]) != key@);
                    }
                }
            }
            if !seen {
                r.push(&rs[i]);
            }
            i += 1;
        }
        assert(rs@.take(i as int) =~= rs@);
        r
    }

    /// Where `rt` is taken from.
    fn source_of(rt: &RegisteredTarget) -> (r: String)
        ensures
            r@ == source_key(*rt),
    {
        match &rt.from {
            Some(f) => f.clone(),
            None => rt.path.clone(),
        }
    }

    /// Plans the paste of `rt`.
    pub fn plan(&self, rt: &RegisteredTarget) -> (r: Result<PasteMove, Error>)
        ensures
            match r {
                Ok(mv) => Self::spec_plan(*self.current, *rt) == Ok::<PasteMoveView, ErrorKindView>(mv@),
                Err(e) => Self::spec_plan(*self.current, *rt) == Err::<PasteMoveView, ErrorKindView>(e@),
            },
    {
        let src = Self::source_of(rt);
        let fp = FilePath::new(src.as_str());
        let from_name = fp.name();
        let from = match fp.to_string() {
            Ok(f) => f,
            Err(e) => return Err(Error::from_repository(e)),
        };
        let name = match &rt.name {
            Some(n) => n.clone(),
            None => match from_name {
                Some(n) => n,
                None => return Err(ErrorKind::invalid("new name not found")),
            },
        };
        let group = self.current.target_group_path();
        let to = match FilePath::new(group.as_str()).join(name.as_str()) {
            Ok(t) => t,
            Err(e) => return Err(Error::from_repository(e)),
        };
        Ok(PasteMove { from, to, force: rt.force })
    }

    /// Whether the paste `mv` is offered for a choice rather than performed,
    /// given whether its destination exists.
    pub fn needs_choice(mv: &PasteMove, exists: bool) -> (r: bool)
        ensures
            r == (!mv.force && exists),
    {
        !mv.force && exists
    }

    /// What to do with the paste `mv`, given whether its destination
    /// exists: perform it (`true`), offer it for a choice (`false`), or fail
    /// the command when the destination cannot be shown relative to the
    /// current directory.
    pub fn decide(&self, mv: &PasteMove, exists: bool) -> (r: Result<bool, Error>)
        ensures
            !(!mv.force && exists) ==> r matches Ok(true),
            (!mv.force && exists) ==> match relative_path(mv.to@, self.current.path@) {
                Ok(_) => r matches Ok(false),
                Err(e) => r matches Err(err) && err@ == lifted_view(e),
            },
    {
        if !Self::needs_choice(mv, exists) {
            return Ok(true);
        }
        match FilePath::new(mv.to.as_str()).to_relative(self.current.path.as_str()) {
            Ok(_) => Ok(false),
            Err(e) => Err(Error::from_repository(e)),
        }
    }

    /// The next step for one source, given whether an earlier source
    /// already failed the command, how it was planned, and, for a planned
    /// paste, whether its destination exists (`taken`).
    pub fn step(&self, aborted: bool, planned: &Result<PasteMove, Error>, taken: bool) -> (r:
        PasteStep)
        ensures
            aborted ==> r is Skip,
            !aborted ==> match planned {
                Err(_) => r is Abort,
                Ok(mv) => if !mv.force && taken {
                    match relative_path(mv.to@, self.current.path@) {
                        Ok(_) => r is Skip,
                        Err(_) => r is Abort,
                    }
                } else {
                    r is Perform
                },
            },
    {
        if aborted {
            return PasteStep::Skip;
        }
        match planned {
            Err(_) => PasteStep::Abort,
            Ok(mv) => match self.decide(mv, taken) {
                Ok(true) => PasteStep::Perform,
                Ok(false) => PasteStep::Skip,
                Err(_) => PasteStep::Abort,
            },
        }
    }

    /// The operation performing `mv`: a copy unless the paths were cut.
    pub fn operation(&self, mv: &PasteMove) -> (r: FsOp)
        ensures
            r@ == move_op(mv.from@, mv.to@, !self.current.has_cut, mv.force),
    {
        FilePathRepository {}.rename_or_copy(
            mv.from.as_str(),
            mv.to.as_str(),
            !self.current.has_cut,
            mv.force,
        )
    }

    /// Pastes, given whether each destination exists, the outcome of each
    /// paste performed, and the new listing of the directory pasted into.
    pub fn actions(
        &self,
        exists: &Vec<bool>,
        moved: &Vec<Result<(), RepositoryError>>,
        listing: Result<Paths, RepositoryError>,
    ) -> (r: Result<Vec<Action>, Error>)
        requires
            exists@.len() == unique_sources(self.current.registered_targets@).len(),
            moved@.len() == unique_sources(self.current.registered_targets@).len(),
        ensures
            result_view(r) == Self::spec_actions(*self.current, exists@, moved@, listing),
    {
        let us = self.sources();
        let ghost uv = unique_sources(self.current.registered_targets@);
        let mut items: Vec<ChooseItem> = Vec::new();
        let mut errors: Vec<Action> = Vec::new();
        let mut i: usize = 0;
        assert(choose_item_views(items@) =~= Seq::<ChooseItemView>::empty());
        assert(action_views(errors@) =~= Seq::<ActionView>::empty());
        while i < us.len()
            invariant
                i <= us@.len(),
                uv == unique_sources(self.current.registered_targets@),
                us@.len() == uv.len(),
                forall|k: int| 0 <= k < us@.len() ==> *us@[k] == uv[k],
                exists@.len() == uv.len(),
                moved@.len() == uv.len(),
                Self::spec_fold(*self.current, uv.take(i as int), exists@, moved@) == Ok::<
                    (Seq<ChooseItemView>, Seq<ActionView>),
                    ErrorKindView,
                >((choose_item_views(items@), action_views(errors@))),
            decreases us@.len() - i,
        {
            proof {
                assert(uv.take(i + 1).drop_last() =~= uv.take(i as int));
                assert(uv.take(i + 1)[i as int] == uv[i as int]);
            }
            let mv = match self.plan(us[i]) {
                Ok(mv) => mv,
                Err(e) => {
                    proof {
                        assert(Self::spec_fold(*self.current, uv.take(i + 1), exists@, moved@)
                            == Err::<(Seq<ChooseItemView>, Seq<ActionView>), ErrorKindView>(e@));
                        lemma_fold_err_extend(*self.current, uv, exists@, moved@, i + 1, e@);
                    }
                    return Err(e);
                },
            };
            if Self::needs_choice(&mv, exists[i]) {
                let rel = match FilePath::new(mv.to.as_str()).to_relative(self.current.path.as_str()) {
                    Ok(rel) => rel,
                    Err(e) => {
                        let err = Error::from_repository(e);
                        proof {
                            assert(Self::spec_fold(*self.current, uv.take(i + 1), exists@, moved@)
                                == Err::<(Seq<ChooseItemView>, Seq<ActionView>), ErrorKindView>(err@));
                            lemma_fold_err_extend(*self.current, uv, exists@, moved@, i + 1, err@);
                        }
                        return Err(err);
                    },
                };
                let item = ChooseItem { relative_path: rel, path: mv.to, from: mv.from };
                assert(choose_item_views(items@.push(item)) =~= choose_item_views(items@).push(item@));
                items.push(item);
            } else {
                match &moved[i] {
                    Err(err) => {
                        let a = Action::ShowError { path: mv.to, message: Error::lifted_message(err) };
                        proof {
                            lemma_action_views_push(errors@, a);
                        }
                        errors.push(a);
                    },
                    Ok(_) => {},
                }
            }
            i += 1;
        }
        assert(uv.take(i as int) =~= uv);
        let paths = match listing {
            Ok(ps) => ps,
            Err(e) => return Err(Error::from_repository(e)),
        };
        let mut actions = vec![self.current.write_listing(&paths), Action::ClearRegister];
        let ghost head = action_views(actions@);
        assert(head =~= seq![self.current.write_view(paths.paths@), ActionView::ClearRegister]);
        let ghost ev = errors@;
        let ghost iv = choose_item_views(items@);
        actions.append(&mut errors);
        let ghost mid = action_views(actions@);
        assert(mid =~= head + action_views(ev));
        let c = Action::Choose {
            path: self.current.path.clone(),
            items,
            has_cut: self.current.has_cut,
        };
        proof {
            lemma_action_views_push(actions@, c);
        }
        actions.push(c);
        assert(action_views(actions@) =~= head + action_views(ev) + seq![
            ActionView::Choose { path: self.current.path@, items: iv, has_cut: self.current.has_cut },
        ]);
        Ok(actions)
    }
}

proof fn lemma_fold_err_extend(
    current: Current,
    us: Seq<RegisteredTarget>,
    exists: Seq<bool>,
    moved: Seq<Result<(), RepositoryError>>,
    k: int,
    e: ErrorKindView,
)
    requires
        0 < k <= us.len(),
        PasteCommand::spec_fold(current, us.take(k), exists, moved) == Err::<
            (Seq<ChooseItemView>, Seq<ActionView>),
            ErrorKindView,
        >(e),
    ensures
        PasteCommand::spec_fold(current, us, exists, moved) == Err::<
            (Seq<ChooseItemView>, Seq<ActionView>),
            ErrorKindView,
        >(e),
    decreases us.len() - k,
{
    if k < us.len() {
        assert(us.take(k + 1).drop_last() =~= us.take(k));
        lemma_fold_err_extend(current, us, exists, moved, k + 1, e);
    } else {
        assert(us.take(k) =~= us);
    }
}

} // verus!
