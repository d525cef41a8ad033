//! Creating files and directories next to the target line.

use vstd::prelude::*;
use crate::command::action::{action_views, lemma_action_views_push, result_view, Action, ActionView, Paths};
use crate::command::child::leaf_node_view;
use crate::command::current::Current;
use crate::command::error::{lifted, Error, ErrorKindView};
use crate::name::option_views;
use crate::option::{CommandOption, OptionView, Split, SplitModName, SplitName};
use crate::repository::error::Error as RepositoryError;
use crate::repository::file::{FilePathRepository, FsOp};
use crate::text::{lemma_views_push, views};

verus! {

/// The switches of `new`.
pub struct NewCommandOptions {
    pub paths: Vec<String>,
    pub open: Split,
}

/// The value of [`NewCommandOptions`].
pub struct NewOptionsView {
    pub paths: Seq<Seq<char>>,
    pub open: Split,
}

impl View for NewCommandOptions {
    type V = NewOptionsView;

    open spec fn view(&self) -> NewOptionsView {
        NewOptionsView { paths: views(self.paths@), open: self.open }
    }
}

/// The switches of `new` that the options `os` set: every `-paths` value in
/// order, and the last split given (not opening by default).
pub open spec fn new_options(os: Seq<OptionView>) -> NewOptionsView
    decreases os.len(),
{
    if os.len() == 0 {
        NewOptionsView { paths: seq![], open: Split { name: SplitName::No, mod_name: SplitModName::No } }
    } else {
        let prev = new_options(os.drop_last());
        match os.last() {
            OptionView::Split(s) => NewOptionsView { open: s, ..prev },
            OptionView::Paths(p) => NewOptionsView { paths: prev.paths.push(p), ..prev },
            _ => prev,
        }
    }
}

impl NewCommandOptions {
    /// Reads the switches of `new` from `opts`.
    pub fn from(opts: Vec<CommandOption>) -> (r: NewCommandOptions)
        ensures
            r@ == new_options(option_views(opts@)),
    {
        let mut r = NewCommandOptions {
            paths: Vec::new(),
            open: Split { name: SplitName::No, mod_name: SplitModName::No },
        };
        assert(views(r.paths@) =~= Seq::<Seq<char>>::empty());
        let mut i: usize = 0;
        while i < opts.len()
            invariant
                i <= opts@.len(),
                r@ == new_options(option_views(opts@).take(i as int)),
            decreases opts@.len() - i,
        {
            proof {
                assert(option_views(opts@).take(i + 1).drop_last() =~= option_views(opts@).take(
                    i as int,
                ));
                assert(option_views(opts@).take(i + 1).last() == opts@[i as int]@);
            }
            match &opts[i] {
                CommandOption::Split { value } => r.open = *value,
                CommandOption::Paths { value } => {
                    let v = value.clone();
                    proof {
                        lemma_views_push(r.paths@, v);
                    }
                    r.paths.push(v);
                },
                _ => {},
            }
            i += 1;
        }
        assert(option_views(opts@).take(i as int) =~= option_views(opts@));
        r
    }
}

/// The paths of `ps` that were created and are not directories.
pub open spec fn created_leaves(ps: Seq<Seq<char>>, created: Seq<Result<bool, RepositoryError>>) -> Seq<
    Seq<char>,
>
    decreases ps.len(),
{
    if ps.len() == 0 {
        seq![]
    } else {
        let prev = created_leaves(ps.drop_last(), created);
        match created[ps.len() - 1] {
            Ok(is_group) => if !is_group {
                prev.push(ps.last())
            } else {
                prev
            },
            Err(_) => prev,
        }
    }
}

/// The errors met creating `ps`.
pub open spec fn creation_errors(ps: Seq<Seq<char>>, created: Seq<Result<bool, RepositoryError>>) -> Seq<
    ActionView,
>
    decreases ps.len(),
{
    if ps.len() == 0 {
        seq![]
    } else {
        let prev = creation_errors(ps.drop_last(), created);
        match created[ps.len() - 1] {
            Ok(_) => prev,
            Err(e) => prev.push(ActionView::ShowError { path: ps.last(), message: e.inner.text() }),
        }
    }
}

/// Whether `r` is the operation creating `name` under `base`, or the error
/// met when no such operation exists.
pub open spec fn creation_requested(
    base: Seq<char>,
    name: Seq<char>,
    r: Result<FsOp, RepositoryError>,
) -> bool {
    match r {
        Ok(op) => crate::repository::file::create_op(base, name) == Some(op@),
        Err(_) => crate::repository::file::create_op(base, name) is None,
    }
}

/// Creates the entries given with `-paths`.
pub struct NewCommand<'a> {
    pub current: &'a Current,
    pub opts: NewCommandOptions,
}

impl<'a> NewCommand<'a> {
    /// What creating answers. With no path given it asks for names;
    /// otherwise `created[i]` is the outcome of creating the `i`-th path
    /// (whether that name is a directory, or the error met) and `listing`
    /// the new listing of the directory they went to.
    pub open spec fn spec_actions(
        current: Current,
        opts: NewOptionsView,
        created: Seq<Result<bool, RepositoryError>>,
        listing: Result<Paths, RepositoryError>,
    ) -> Result<Seq<ActionView>, ErrorKindView> {
        if opts.paths.len() == 0 {
            Ok(seq![ActionView::ConfirmNew])
        } else {
            match listing {
                Err(e) => Err(lifted(e.inner)),
                Ok(ps) => Ok(
                    seq![current.write_view(ps.paths@)] + leaf_node_view(
                        opts.open,
                        created_leaves(opts.paths, created),
                    ) + creation_errors(opts.paths, created),
                ),
            }
        }
    }

    /// The directory the new entries go to.
    pub fn target(&self) -> (r: String)
        ensures
            r@ == self.current.group_path(),
    {
        self.current.target_group_path()
    }

    /// The operation each path given asks for: a directory when the name
    /// ends with `/`, a file otherwise, under [`Self::target`].
    pub fn requests(&self) -> (r: Vec<Result<FsOp, RepositoryError>>)
        ensures
            r@.len() == self.opts.paths@.len(),
            forall|i: int|
                0 <= i < r@.len() ==> creation_requested(
                    self.current.group_path(),
                    self.opts.paths@[i]@,
                    #[trigger] r@[i],
                ),
    {
        let base = self.target();
        let repository = FilePathRepository {};
        let mut r: Vec<Result<FsOp, RepositoryError>> = Vec::new();
        let mut i: usize = 0;
        while i < self.opts.paths.len()
            invariant
                i <= self.opts.paths@.len(),
                base@ == self.current.group_path(),
                r@.len() == i,
                forall|j: int|
                    0 <= j < i ==> creation_requested(
                        self.current.group_path(),
                        self.opts.paths@[j]@,
                        #[trigger] r@[j],
                    ),
            decreases self.opts.paths@.len() - i,
        {
            r.push(repository.create_with(base.as_str(), self.opts.paths[i].as_str()));
            i += 1;
        }
        r
    }

    /// Creates, given the outcome of each creation and the new listing.
    pub fn actions(
        &self,
        created: &Vec<Result<bool, RepositoryError>>,
        listing: Result<Paths, RepositoryError>,
    ) -> (r: Result<Vec<Action>, Error>)
        requires
            created@.len() == self.opts.paths@.len(),
        ensures
            result_view(r) == Self::spec_actions(*self.current, self.opts@, created@, listing),
    {
        if self.opts.paths.len() == 0 {
            let r = vec![Action::ConfirmNew];
            assert(action_views(r@) =~= seq![ActionView::ConfirmNew]);
            return Ok(r);
        }
        let ghost ps = views(self.opts.paths@);
        let mut open_paths: Vec<String> = Vec::new();
        let mut errors: Vec<Action> = Vec::new();
        let mut i: usize = 0;
        assert(views(open_paths@) =~= Seq::<Seq<char>>::empty());
        assert(action_views(errors@) =~= Seq::<ActionView>::empty());
        while i < self.opts.paths.len()
            invariant
                i <= self.opts.paths@.len(),
                ps == views(self.opts.paths@),
                created@.len() == ps.len(),
                views(open_paths@) == created_leaves(ps.take(i as int), created@),
                action_views(errors@) == creation_errors(ps.take(i as int), created@),
            decreases self.opts.paths@.len() - i,
        {
            proof {
                assert(ps.take(i + 1).drop_last() =~= ps.take(i as int));
                assert(ps.take(i + 1).last() == self.opts.paths@[i as int]@);
            }
            match &created[i] {
                Ok(is_group) => {
                    if !*is_group {
                        let p = self.opts.paths[i].clone();
                        proof {
                            lemma_views_push(open_paths@, p);
                        }
                        open_paths.push(p);
                    }
                },
                Err(err) => {
                    let a = Action::ShowError {
                        path: self.opts.paths[i].clone(),
                        message: err.message(),
                    };
                    proof {
                        lemma_action_views_push(errors@, a);
                    }
                    errors.push(a);
                },
            }
            i += 1;
        }
        assert(ps.take(i as int) =~= ps);
        let paths = match listing {
            Ok(ps) => ps,
            Err(e) => return Err(Error::from_repository(e)),
        };
        let mut actions = vec![self.current.write_listing(&paths)];
        let ghost a0 = action_views(actions@);
        assert(a0 =~= seq![self.current.write_view(paths.paths@)]);
        let mut opened = self.opts.open.leaf_node_action(open_paths);
        let ghost a1 = action_views(opened@);
        let ghost ev = errors@;
        actions.append(&mut opened);
        assert(action_views(actions@) =~= a0 + a1);
        let ghost mid = actions@;
        actions.append(&mut errors);
        assert(action_views(actions@) =~= action_views(mid) + action_views(ev));
        Ok(actions)
    }
}

} // verus!
