//! Moving the view to a directory.

use vstd::prelude::*;
use crate::command::action::{
    action_views, rendered_lines, rendered_props, result_view, Action,
    ActionView, ForkBufferItemView, Paths,
};
use crate::command::current::Current;
use crate::command::error::{lifted, Error, ErrorKindView};
use crate::command::parent::{cursor_to, is_named, position_of_name, write_all_view};
use crate::name::option_views;
use crate::option::{CommandOption, OptionView, Split, SplitModName, SplitName};
use crate::repository::error::Error as RepositoryError;
use crate::repository::path::FullPath;
use crate::text::str_eq;

verus! {

/// The switches of `go`.
pub struct GoCommandOptions {
    pub back: bool,
    pub create: bool,
    pub path: Option<String>,
    pub split: Split,
}

/// The value of [`GoCommandOptions`].
pub struct GoOptionsView {
    pub back: bool,
    pub create: bool,
    pub path: Option<Seq<char>>,
    pub split: Split,
}

impl View for GoCommandOptions {
    type V = GoOptionsView;

    open spec fn view(&self) -> GoOptionsView {
        GoOptionsView {
            back: self.back,
            create: self.create,
            path: crate::repository::path::opt_view(self.path),
            split: self.split,
        }
    }
}

/// The switches of `go` that the options `os` set, the last one of each
/// kind winning; a vertical split on the left by default.
pub open spec fn go_options(os: Seq<OptionView>) -> GoOptionsView
    decreases os.len(),
{
    if os.len() == 0 {
        GoOptionsView {
            back: false,
            create: false,
            path: None,
            split: Split { name: SplitName::Vertical, mod_name: SplitModName::LeftAbove },
        }
    } else {
        let prev = go_options(os.drop_last());
        match os.last() {
            OptionView::Back => GoOptionsView { back: true, ..prev },
            OptionView::Create => GoOptionsView { create: true, ..prev },
            OptionView::Path(v) => GoOptionsView { path: Some(v), ..prev },
            OptionView::Split(s) => GoOptionsView { split: s, ..prev },
            _ => prev,
        }
    }
}

impl GoCommandOptions {
    /// Reads the switches of `go` from `opts`.
    pub fn from(opts: Vec<CommandOption>) -> (r: GoCommandOptions)
        ensures
            r@ == go_options(option_views(opts@)),
    {
        let mut r = GoCommandOptions {
            back: false,
            create: false,
            path: None,
            split: Split { name: SplitName::Vertical, mod_name: SplitModName::LeftAbove },
        };
        let mut i: usize = 0;
        while i < opts.len()
            invariant
                i <= opts@.len(),
                r@ == go_options(option_views(opts@).take(i as int)),
            decreases opts@.len() - i,
        {
            proof {
                assert(option_views(opts@).take(i + 1).drop_last() =~= option_views(opts@).take(
                    i as int,
                ));
                assert(option_views(opts@).take(i + 1).last() == opts@[i as int]@);
            }
            match &opts[i] {
                CommandOption::Back => r.back = true,
                CommandOption::Create => r.create = true,
                CommandOption::Path { value } => r.path = Some(value.clone()),
                CommandOption::Split { value } => r.split = *value,
                _ => {},
            }
            i += 1;
        }
        assert(option_views(opts@).take(i as int) =~= option_views(opts@));
        r
    }
}

/// Moves the view to a directory (the current one by default).
pub struct GoCommand<'a> {
    pub current: &'a Current,
    pub opts: GoCommandOptions,
}

impl<'a> GoCommand<'a> {
    /// The path to resolve: the one given with `-path`, or the current one.
    pub open spec fn spec_target(current: Current, opts: GoOptionsView) -> Seq<char> {
        match opts.path {
            Some(p) => p,
            None => current.path@,
        }
    }

    /// What going answers, given the resolved target and its listing.
    pub open spec fn spec_actions(
        current: Current,
        opts: GoOptionsView,
        target: Result<String, RepositoryError>,
        listing: Result<Vec<FullPath>, RepositoryError>,
    ) -> Result<Seq<ActionView>, ErrorKindView> {
        match target {
            Err(e) => Err(lifted(e.inner)),
            Ok(t) => match listing {
                Err(e) => Err(lifted(e.inner)),
                Ok(ps) => if current.opened && opts.create {
                    Ok(
                        seq![
                            ActionView::ForkBuffer {
                                items: seq![
                                    ForkBufferItemView {
                                        path: t@,
                                        lines: rendered_lines(ps@, 0),
                                        props: rendered_props(ps@, 0, None),
                                    },
                                ],
                                split: opts.split,
                            },
                        ],
                    )
                } else {
                    Ok(
                        seq![write_all_view(ps@)] + (if current.path@ != t@ {
                            seq![
                                ActionView::TryToRestoreCursor { path: t@ },
                                ActionView::AddHistory {
                                    path: current.path@,
                                    line_number: current.line_number,
                                    back: opts.back,
                                },
                            ]
                        } else {
                            seq![]
                        }) + (if !current.opened {
                            seq![ActionView::OpenView { path: t@, split: opts.split }]
                                + cursor_to(first_position_named(ps@, current.name@))
                        } else {
                            seq![]
                        }),
                    )
                },
            },
        }
    }

    /// The path to resolve before listing.
    pub fn target(&self) -> (r: String)
        ensures
            r@ == Self::spec_target(*self.current, self.opts@),
    {
        match &self.opts.path {
            Some(p) => p.clone(),
            None => self.current.path.clone(),
        }
    }

    /// Moves the view, given `target`, the resolved [`Self::target`], and
    /// `listing`, its listing (ignored when resolving failed).
    pub fn actions(
        &self,
        target: Result<String, RepositoryError>,
        listing: Result<Vec<FullPath>, RepositoryError>,
    ) -> (r: Result<Vec<Action>, Error>)
        ensures
            result_view(r) == Self::spec_actions(*self.current, self.opts@, target, listing),
    {
        let target_group_path = match target {
            Ok(t) => t,
            Err(e) => return Err(Error::from_repository(e)),
        };
        let paths = match listing {
            Ok(ps) => Paths::from(ps),
            Err(e) => return Err(Error::from_repository(e)),
        };
        if self.current.opened && self.opts.create {
            let a = paths.to_fork_buffer(target_group_path.as_str(), self.opts.split);
            let r = vec![a];
            assert(action_views(r@) =~= seq![a@]);
            return Ok(r);
        }
        let mut actions = vec![paths.to_write_all_action()];
        let ghost part1 = action_views(actions@);
        assert(part1 =~= seq![write_all_view(paths.paths@)]);
        let differs = !str_eq(self.current.path.as_str(), target_group_path.as_str());
        if differs {
            actions.push(Action::TryToRestoreCursor { path: target_group_path.clone() });
            actions.push(
                Action::AddHistory {
                    path: self.current.path.clone(),
                    line_number: self.current.line_number,
                    back: self.opts.back,
                },
            );
        }
        let ghost part2 = action_views(actions@);
        assert(part2 =~= part1 + (if differs {
            seq![
                ActionView::TryToRestoreCursor { path: target_group_path@ },
                ActionView::AddHistory {
                    path: self.current.path@,
                    line_number: self.current.line_number,
                    back: self.opts.back,
                },
            ]
        } else {
            seq![]
        }));
        if !self.current.opened {
            actions.push(Action::OpenView { path: target_group_path.clone(), split: self.opts.split });
            let ghost part3 = action_views(actions@);
            if let Some(n) = position_of_name(&paths, self.current.name.as_str()) {
                actions.push(Action::SetCursor { line_number: n });
            }
            assert(action_views(actions@) =~= part3 + cursor_to(
                first_position_named(paths.paths@, self.current.name@),
            ));
        }
        assert(action_views(actions@) =~= part2 + (if !self.current.opened {
            seq![ActionView::OpenView { path: target_group_path@, split: self.opts.split }]
                + cursor_to(first_position_named(paths.paths@, self.current.name@))
        } else {
            seq![]
        }));
        Ok(actions)
    }
}

/// The 1-based position of the first entry shown with the name `n`.
pub open spec fn first_position_named(ps: Seq<FullPath>, n: Seq<char>) -> Option<nat> {
    crate::command::action::first_position(ps, is_named(n))
}

/// Law: when going reaches a directory other than the current one without
/// forking a new buffer, the listing is written first, then the cursor is
/// restored in the target and the current path is added to the history,
/// whether or not the view was already open; when it stays where it is,
/// neither happens.
pub proof fn lemma_go_elsewhere_records(
    current: Current,
    opts: GoOptionsView,
    t: String,
    ps: Vec<FullPath>,
)
    requires
        !(current.opened && opts.create),
    ensures
        match GoCommand::spec_actions(current, opts, Ok(t), Ok(ps)) {
            Ok(v) => {
                &&& v[0] == write_all_view(ps@)
                &&& current.path@ != t@ ==> v.len() >= 3 && v[1] == ActionView::TryToRestoreCursor {
                    path: t@,
                } && v[2] == ActionView::AddHistory {
                    path: current.path@,
                    line_number: current.line_number,
                    back: opts.back,
                }
                &&& current.path@ == t@ ==> forall|i: int|
                    0 <= i < v.len() ==> !(#[trigger] v[i] is TryToRestoreCursor) && !(v[i] is AddHistory)
            },
            Err(_) => false,
        },
{
    let v = seq![write_all_view(ps@)] + (if current.path@ != t@ {
        seq![
            ActionView::TryToRestoreCursor { path: t@ },
            ActionView::AddHistory {
                path: current.path@,
                line_number: current.line_number,
                back: opts.back,
            },
        ]
    } else {
        seq![]
    }) + (if !current.opened {
        seq![ActionView::OpenView { path: t@, split: opts.split }]
            + cursor_to(first_position_named(ps@, current.name@))
    } else {
        seq![]
    });
    assert(GoCommand::spec_actions(current, opts, Ok(t), Ok(ps)) == Ok::<Seq<ActionView>, ErrorKindView>(v));
    if current.path@ == t@ {
        let tail = if !current.opened {
            seq![ActionView::OpenView { path: t@, split: opts.split }]
                + cursor_to(first_position_named(ps@, current.name@))
        } else {
            seq![]
        };
        assert(v =~= seq![write_all_view(ps@)] + tail);
        assert forall|i: int| 0 <= i < v.len() implies !(#[trigger] v[i] is TryToRestoreCursor)
            && !(v[i] is AddHistory) by {
            if i > 0 {
                assert(v[i] == tail[i - 1]);
                if i > 1 {
                    assert(tail[i - 1] == cursor_to(first_position_named(ps@, current.name@))[i - 2]);
                }
            }
        }
    }
}

} // verus!
