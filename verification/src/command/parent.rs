//! Moving the view to the directory that holds the current one.

use vstd::prelude::*;
use crate::command::action::{
    first_position, lemma_first_position, lemma_no_position, rendered_lines, rendered_props,
    result_view, Action, ActionView, Paths,
};
use crate::command::current::Current;
use crate::command::error::{lifted, Error, ErrorKindView};
use crate::repository::error::Error as RepositoryError;
use crate::repository::path::{parent_of, slashed, FilePath, FullPath};

verus! {

/// Whether an entry is the path `p` (compared in slash form).
pub open spec fn is_same_path(p: Seq<char>) -> spec_fn(FullPath) -> bool {
    |e: FullPath| slashed(p) == slashed(e.path@)
}

/// Whether an entry is shown with the name `n`.
pub open spec fn is_named(n: Seq<char>) -> spec_fn(FullPath) -> bool {
    |e: FullPath| e.name@ == n
}

/// Places the cursor on the line found, if one was.
pub open spec fn cursor_to(pos: Option<nat>) -> Seq<ActionView> {
    match pos {
        Some(n) => seq![ActionView::SetCursor { line_number: n as u64 }],
        None => seq![],
    }
}

/// Replaces the buffer with the listing `ps`.
pub open spec fn write_all_view(ps: Seq<FullPath>) -> ActionView {
    ActionView::WriteAll { lines: rendered_lines(ps, 0), props: rendered_props(ps, 0, None) }
}

/// The line of `paths` that holds the entry `p`, searched in slash form.
pub fn position_of_path(paths: &Paths, p: &str) -> (r: Option<u64>)
    ensures
        match first_position(paths.paths@, is_same_path(p@)) {
            Some(n) => r == Some(n as u64),
            None => r is None,
        },
{
    let fp = FilePath::new(p);
    let pred = |e: &FullPath| -> (b: bool)
        ensures
            b == (slashed(p@) == slashed(e.path@)),
        { fp.equals(e.path.as_str()) };
    let r = paths.search(pred);
    proof {
        let f = is_same_path(p@);
        match r {
            Some(n) => {
                assert forall|j: int| 0 <= j < n - 1 implies !f(#[trigger] paths.paths@[j]) by {}
                lemma_first_position(paths.paths@, f, n - 1);
            },
            None => {
                assert forall|j: int| 0 <= j < paths.paths@.len() implies !f(
                    #[trigger] paths.paths@[j],
                ) by {}
                lemma_no_position(paths.paths@, f);
            },
        }
    }
    r
}

/// The line of `paths` whose entry is shown with the name `name`.
pub fn position_of_name(paths: &Paths, name: &str) -> (r: Option<u64>)
    ensures
        match first_position(paths.paths@, is_named(name@)) {
            Some(n) => r == Some(n as u64),
            None => r is None,
        },
{
    let pred = |e: &FullPath| -> (b: bool)
        ensures
            b == (e.name@ == name@),
        { crate::text::str_eq(e.name.as_str(), name) };
    let r = paths.search(pred);
    proof {
        let f = is_named(name@);
        match r {
            Some(n) => {
                assert forall|j: int| 0 <= j < n - 1 implies !f(#[trigger] paths.paths@[j]) by {}
                lemma_first_position(paths.paths@, f, n - 1);
            },
            None => {
                assert forall|j: int| 0 <= j < paths.paths@.len() implies !f(
                    #[trigger] paths.paths@[j],
                ) by {}
                lemma_no_position(paths.paths@, f);
            },
        }
    }
    r
}

/// Moves the view one directory up.
pub struct ParentCommand<'a> {
    pub current: &'a Current,
}

impl<'a> ParentCommand<'a> {
    /// What moving up answers, given the listing of the parent directory.
    pub open spec fn spec_actions(
        current: Current,
        listing: Result<Vec<FullPath>, RepositoryError>,
    ) -> Result<Seq<ActionView>, ErrorKindView> {
        match parent_of(current.path@) {
            None => Ok(seq![]),
            Some(pp) => match listing {
                Err(e) => Err(lifted(e.inner)),
                Ok(ps) => Ok(
                    seq![
                        write_all_view(ps@),
                        ActionView::SetPath { path: pp },
                        ActionView::AddHistory {
                            path: current.path@,
                            line_number: current.line_number,
                            back: false,
                        },
                    ] + cursor_to(first_position(ps@, is_same_path(current.path@))),
                ),
            },
        }
    }

    /// The directory to list: the one holding the current path, if any.
    pub fn target(&self) -> (r: Option<String>)
        ensures
            crate::repository::path::opt_view(r) == parent_of(self.current.path@),
            r is Some <==> crate::repository::path::path_parent(self.current.path@) is Some,
    {
        FilePath::new(self.current.path.as_str()).parent()
    }

    /// Moves the view up, given `listing`, the listing of [`Self::target`]
    /// (ignored when there is no target).
    pub fn actions(&self, listing: Result<Vec<FullPath>, RepositoryError>) -> (r: Result<
        Vec<Action>,
        Error,
    >)
        ensures
            result_view(r) == Self::spec_actions(*self.current, listing),
    {
        let parent_path = match self.target() {
            Some(p) => p,
            None => {
                assert(parent_of(self.current.path@) is None);
                let r: Vec<Action> = Vec::new();
                assert(crate::command::action::action_views(r@) =~= Seq::<ActionView>::empty());
                return Ok(r);
            },
        };
        let paths = match listing {
            Ok(ps) => Paths::from(ps),
            Err(e) => return Err(Error::from_repository(e)),
        };
        let ghost pp = parent_path@;
        let mut actions = vec![
            paths.to_write_all_action(),
            Action::SetPath { path: parent_path },
            Action::AddHistory {
                path: self.current.path.clone(),
                line_number: self.current.line_number,
                back: false,
            },
        ];
        let pos = position_of_path(&paths, self.current.path.as_str());
        let ghost head = crate::command::action::action_views(actions@);
        assert(head =~= seq![
            write_all_view(paths.paths@),
            ActionView::SetPath { path: pp },
            ActionView::AddHistory {
                path: self.current.path@,
                line_number: self.current.line_number,
                back: false,
            },
        ]);
        if let Some(n) = pos {
            actions.push(Action::SetCursor { line_number: n });
        }
        assert(crate::command::action::action_views(actions@) =~= head + cursor_to(
            first_position(paths.paths@, is_same_path(self.current.path@)),
        ));
        Ok(actions)
    }
}

} // verus!
