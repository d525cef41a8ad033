//! Opening the targets: leaves in editor windows, directories as listings.

use vstd::prelude::*;
use crate::command::action::{
    action_views, lemma_action_views_push, rendered_lines, rendered_props, result_view, Action,
    ActionView, ForkBufferItemView, Paths,
};
use crate::command::current::{Current, Target};
use crate::command::error::{lifted, Error, ErrorKindView};
use crate::command::parent::write_all_view;
use crate::name::option_views;
use crate::option::{CommandOption, OptionView, Split, SplitModName, SplitName};
use crate::repository::error::Error as RepositoryError;
use crate::text::{lemma_views_push, views};

verus! {

/// The switches of `child`.
#[derive(Debug, Clone, Copy, PartialEq, Eq)]
pub struct ChildCommandOptions {
    pub split: Split,
    pub quit: bool,
}

/// The switches of `child` that the options `os` set: the last split
/// given (opening in place by default), and whether to quit afterwards.
pub open spec fn child_options(os: Seq<OptionView>) -> ChildCommandOptions
    decreases os.len(),
{
    if os.len() == 0 {
        ChildCommandOptions {
            split: Split { name: SplitName::Open, mod_name: SplitModName::No },
            quit: false,
        }
    } else {
        let prev = child_options(os.drop_last());
        match os.last() {
            OptionView::Split(s) => ChildCommandOptions { split: s, ..prev },
            OptionView::Quit => ChildCommandOptions { quit: true, ..prev },
            _ => prev,
        }
    }
}

impl ChildCommandOptions {
    /// Reads the switches of `child` from `opts`.
    pub fn from(opts: Vec<CommandOption>) -> (r: ChildCommandOptions)
        ensures
            r == child_options(option_views(opts@)),
    {
        let mut r = ChildCommandOptions {
            split: Split { name: SplitName::Open, mod_name: SplitModName::No },
            quit: false,
        };
        let mut i: usize = 0;
        while i < opts.len()
            invariant
                i <= opts@.len(),
                r == child_options(option_views(opts@).take(i as int)),
            decreases opts@.len() - i,
        {
            proof {
                assert(option_views(opts@).take(i + 1).drop_last() =~= option_views(opts@).take(
                    i as int,
                ));
                assert(option_views(opts@).take(i + 1).last() == opts@[i as int]@);
            }
            match &opts[i] {
                CommandOption::Split { value } => r.split = *value,
                CommandOption::Quit => r.quit = true,
                _ => {},
            }
            i += 1;
        }
        assert(option_views(opts@).take(i as int) =~= option_views(opts@));
        r
    }
}

/// Where the run of equal flags that starts at `k` ends.
pub open spec fn run_end(g: Seq<bool>, k: int) -> int
    decreases g.len() - k,
{
    if k + 1 >= g.len() {
        g.len() as int
    } else if g[k + 1] != g[k] {
        k + 1
    } else {
        run_end(g, k + 1)
    }
}

pub proof fn lemma_run_end_bounds(g: Seq<bool>, k: int)
    requires
        0 <= k < g.len(),
    ensures
        k < run_end(g, k) <= g.len(),
    decreases g.len() - k,
{
    if k + 1 < g.len() && g[k + 1] == g[k] {
        lemma_run_end_bounds(g, k + 1);
    }
}

/// The paths of the targets `k..e`.
pub open spec fn run_paths(ts: Seq<Target>, k: int, e: int) -> Seq<Seq<char>> {
    Seq::new((e - k) as nat, |i: int| ts[k + i].path@)
}

/// What `leaf_node_action` answers for `paths` opened with `split`.
pub open spec fn leaf_node_view(split: Split, paths: Seq<Seq<char>>) -> Seq<ActionView> {
    if paths.len() == 0 || split.name == SplitName::Unknown || split.name == SplitName::No {
        seq![]
    } else {
        seq![ActionView::OpenLeaves { paths, split }]
    }
}

/// The error shown for target `t`.
pub open spec fn error_view(t: Target, e: RepositoryError) -> ActionView {
    ActionView::ShowError { path: t.path@, message: lifted(e.inner).text() }
}

/// Opening directory `t` in place.
pub open spec fn open_item(t: Target, l: Result<Paths, RepositoryError>) -> Seq<ActionView> {
    match l {
        Ok(p) => seq![write_all_view(p.paths@), ActionView::TryToRestoreCursor { path: t.path@ }],
        Err(e) => seq![error_view(t, e)],
    }
}

/// Opening directory `t` in a new buffer.
pub open spec fn fork_item(t: Target, l: Result<Paths, RepositoryError>, split: Split) -> Seq<
    ActionView,
> {
    match l {
        Ok(p) => seq![
            ActionView::ForkBuffer {
                items: seq![
                    ForkBufferItemView {
                        path: t.path@,
                        lines: rendered_lines(p.paths@, 0),
                        props: rendered_props(p.paths@, 0, None),
                    },
                ],
                split,
            },
        ],
        Err(_) => seq![],
    }
}

/// The error met listing directory `t`, if any.
pub open spec fn error_item(t: Target, l: Result<Paths, RepositoryError>) -> Seq<ActionView> {
    match l {
        Ok(_) => seq![],
        Err(e) => seq![error_view(t, e)],
    }
}

/// Opening each directory of `k..e` in place.
pub open spec fn open_items(
    ts: Seq<Target>,
    ls: Seq<Result<Paths, RepositoryError>>,
    k: int,
    e: int,
) -> Seq<ActionView>
    decreases e - k,
{
    if e <= k {
        seq![]
    } else {
        open_items(ts, ls, k, e - 1) + open_item(ts[e - 1], ls[e - 1])
    }
}

/// Opening each directory of `k..e` in a new buffer.
pub open spec fn fork_items(
    ts: Seq<Target>,
    ls: Seq<Result<Paths, RepositoryError>>,
    split: Split,
    k: int,
    e: int,
) -> Seq<ActionView>
    decreases e - k,
{
    if e <= k {
        seq![]
    } else {
        fork_items(ts, ls, split, k, e - 1) + fork_item(ts[e - 1], ls[e - 1], split)
    }
}

/// The errors met listing the directories of `k..e`.
pub open spec fn error_items(
    ts: Seq<Target>,
    ls: Seq<Result<Paths, RepositoryError>>,
    k: int,
    e: int,
) -> Seq<ActionView>
    decreases e - k,
{
    if e <= k {
        seq![]
    } else {
        error_items(ts, ls, k, e - 1) + error_item(ts[e - 1], ls[e - 1])
    }
}

/// Opens the single run `k..e` of targets that are all leaves or all directories.
pub open spec fn run_actions(
    current: Current,
    opts: ChildCommandOptions,
    ts: Seq<Target>,
    g: Seq<bool>,
    ls: Seq<Result<Paths, RepositoryError>>,
    k: int,
    e: int,
) -> Seq<ActionView> {
    if !g[k] {
        leaf_node_view(opts.split, run_paths(ts, k, e)) + (if opts.quit {
            seq![ActionView::Quit]
        } else {
            seq![]
        })
    } else if opts.split.name == SplitName::Open {
        open_items(ts, ls, k, e) + seq![
            ActionView::AddHistory {
                path: current.path@,
                line_number: current.line_number,
                back: false,
            },
        ]
    } else {
        fork_items(ts, ls, opts.split, k, e) + error_items(ts, ls, k, e)
    }
}

/// Opens the runs of targets from `k` on, run by run.
pub open spec fn runs_from(
    current: Current,
    opts: ChildCommandOptions,
    ts: Seq<Target>,
    g: Seq<bool>,
    ls: Seq<Result<Paths, RepositoryError>>,
    k: int,
) -> Seq<ActionView>
    decreases g.len() - k,
{
    if k < 0 || k >= g.len() {
        seq![]
    } else {
        let e = run_end(g, k);
        proof {
            lemma_run_end_bounds(g, k);
        }
        run_actions(current, opts, ts, g, ls, k, e) + runs_from(current, opts, ts, g, ls, e)
    }
}

/// Opens the targets.
pub struct ChildCommand<'a> {
    pub current: &'a Current,
    pub opts: ChildCommandOptions,
}

proof fn lemma_action_views_append(a: Seq<Action>, b: Seq<Action>)
    ensures
        action_views(a + b) == action_views(a) + action_views(b),
{
    assert(action_views(a + b) =~= action_views(a) + action_views(b));
}

impl<'a> ChildCommand<'a> {
    /// What opening answers: the runs of consecutive targets that are all
    /// leaves or all directories are opened in turn, then the selection is
    /// cleared. `is_group[i]` tells whether `targets()[i]` is a directory
    /// and `listings[i]` is its listing (ignored for leaves).
    pub open spec fn spec_actions(
        current: Current,
        opts: ChildCommandOptions,
        is_group: Seq<bool>,
        listings: Seq<Result<Paths, RepositoryError>>,
    ) -> Result<Seq<ActionView>, ErrorKindView> {
        Ok(
            runs_from(current, opts, current.spec_targets(), is_group, listings, 0)
                + seq![ActionView::UnselectAll],
        )
    }

    fn run(
        &self,
        ts: &Vec<Target>,
        is_group: &Vec<bool>,
        listings: &Vec<Result<Paths, RepositoryError>>,
        k: usize,
        e: usize,
    ) -> (r: Vec<Action>)
        requires
            k < e <= ts@.len(),
            is_group@.len() == ts@.len(),
            listings@.len() == ts@.len(),
        ensures
            action_views(r@) == run_actions(
                *self.current,
                self.opts,
                ts@,
                is_group@,
                listings@,
                k as int,
                e as int,
            ),
    {
        if !is_group[k] {
            let mut paths: Vec<String> = Vec::new();
            let mut i = k;
            while i < e
                invariant
                    k <= i <= e <= ts@.len(),
                    views(paths@) =~= run_paths(ts@, k as int, i as int),
                decreases e - i,
            {
                let p = ts[i].to_string();
                proof {
                    lemma_views_push(paths@, p);
                }
                paths.push(p);
                i += 1;
            }
            let mut r = self.opts.split.leaf_node_action(paths);
            let ghost head = action_views(r@);
            if self.opts.quit {
                proof {
                    lemma_action_views_push(r@, Action::Quit);
                }
                r.push(Action::Quit);
            }
            assert(action_views(r@) =~= head + (if self.opts.quit {
                seq![ActionView::Quit]
            } else {
                seq![]
            }));
            r
        } else if self.opts.split.name == SplitName::Open {
            let mut r: Vec<Action> = Vec::new();
            let mut i = k;
            assert(action_views(r@) =~= Seq::<ActionView>::empty());
            while i < e
                invariant
                    k <= i <= e <= ts@.len(),
                    listings@.len() == ts@.len(),
                    action_views(r@) == open_items(ts@, listings@, k as int, i as int),
                decreases e - i,
            {
                let ghost before = action_views(r@);
                match &listings[i] {
                    Ok(p) => {
                        let a = p.to_write_all_action();
                        let b = Action::TryToRestoreCursor { path: ts[i].to_string() };
                        proof {
                            lemma_action_views_push(r@, a);
                            lemma_action_views_push(r@.push(a), b);
                        }
                        r.push(a);
                        r.push(b);
                    },
                    Err(err) => {
                        let a = Action::ShowError {
                            path: ts[i].to_string(),
                            message: Error::lifted_message(err),
                        };
                        proof {
                            lemma_action_views_push(r@, a);
                        }
                        r.push(a);
                    },
                }
                assert(action_views(r@) =~= before + open_item(ts@[i as int], listings@[i as int]));
                i += 1;
            }
            let h = Action::AddHistory {
                path: self.current.path.clone(),
                line_number: self.current.line_number,
                back: false,
            };
            proof {
                lemma_action_views_push(r@, h);
            }
            r.push(h);
            r
        } else {
            let mut forks: Vec<Action> = Vec::new();
            let mut errors: Vec<Action> = Vec::new();
            let mut i = k;
            assert(action_views(forks@) =~= Seq::<ActionView>::empty());
            assert(action_views(errors@) =~= Seq::<ActionView>::empty());
            while i < e
                invariant
                    k <= i <= e <= ts@.len(),
                    listings@.len() == ts@.len(),
                    action_views(forks@) == fork_items(
                        ts@,
                        listings@,
                        self.opts.split,
                        k as int,
                        i as int,
                    ),
                    action_views(errors@) == error_items(ts@, listings@, k as int, i as int),
                decreases e - i,
            {
                let ghost fb = action_views(forks@);
                let ghost eb = action_views(errors@);
                match &listings[i] {
                    Ok(p) => {
                        let a = p.to_fork_buffer(ts[i].path.as_str(), self.opts.split);
                        proof {
                            lemma_action_views_push(forks@, a);
                        }
                        forks.push(a);
                    },
                    Err(err) => {
                        let a = Action::ShowError {
                            path: ts[i].to_string(),
                            message: Error::lifted_message(err),
                        };
                        proof {
                            lemma_action_views_push(errors@, a);
                        }
                        errors.push(a);
                    },
                }
                assert(action_views(forks@) =~= fb + fork_item(
                    ts@[i as int],
                    listings@[i as int],
                    self.opts.split,
                ));
                assert(action_views(errors@) =~= eb + error_item(
                    ts@[i as int],
                    listings@[i as int],
                ));
                i += 1;
            }
            let ghost fv = forks@;
            let ghost ev = errors@;
            forks.append(&mut errors);
            proof {
                lemma_action_views_append(fv, ev);
            }
            forks
        }
    }

    /// Opens the targets, given whether each is a directory and the
    /// listings of those that are.
    pub fn actions(
        &self,
        is_group: &Vec<bool>,
        listings: &Vec<Result<Paths, RepositoryError>>,
    ) -> (r: Result<Vec<Action>, Error>)
        requires
            is_group@.len() == self.current.spec_targets().len(),
            listings@.len() == self.current.spec_targets().len(),
        ensures
            result_view(r) == Self::spec_actions(*self.current, self.opts, is_group@, listings@),
    {
        let ts = self.current.targets();
        let n = ts.len();
        let ghost g = is_group@;
        let ghost total = runs_from(*self.current, self.opts, ts@, g, listings@, 0);
        let mut out: Vec<Action> = Vec::new();
        let mut k: usize = 0;
        assert(action_views(out@) + runs_from(*self.current, self.opts, ts@, g, listings@, 0)
            =~= total);
        while k < n
            invariant
                n == ts@.len(),
                g.len() == n,
                g == is_group@,
                listings@.len() == n,
                k <= n,
                total == runs_from(*self.current, self.opts, ts@, g, listings@, 0),
                action_views(out@) + runs_from(*self.current, self.opts, ts@, g, listings@, k as int)
                    == total,
            decreases n - k,
        {
            let mut e = k + 1;
            while e < n && is_group[e] == is_group[k]
                invariant
                    k < e <= n,
                    g.len() == n,
                    g == is_group@,
                    forall|i: int| k <= i < e ==> g[i] == g[k as int],
                    run_end(g, k as int) == run_end(g, e - 1),
                decreases n - e,
            {
                e += 1;
            }
            assert(g[e - 1] == g[k as int]);
            assert(run_end(g, e - 1) == e);
            proof {
                lemma_run_end_bounds(g, k as int);
            }
            let mut part = self.run(ts, is_group, listings, k, e);
            let ghost ov = out@;
            let ghost pv = part@;
            out.append(&mut part);
            proof {
                lemma_action_views_append(ov, pv);
                assert(runs_from(*self.current, self.opts, ts@, g, listings@, k as int)
                    == run_actions(*self.current, self.opts, ts@, g, listings@, k as int, e as int)
                    + runs_from(*self.current, self.opts, ts@, g, listings@, e as int));
            }
            k = e;
        }
        let ghost ov = out@;
        proof {
            lemma_action_views_push(out@, Action::UnselectAll);
        }
        out.push(Action::UnselectAll);
        assert(runs_from(*self.current, self.opts, ts@, g, listings@, n as int) =~= Seq::<
            ActionView,
        >::empty());
        assert(action_views(ov) =~= total);
        Ok(out)
    }
}

/// Whether `split` opens leaves in editor windows at all.
pub open spec fn opens_windows(split: Split) -> bool {
    split.name != SplitName::Unknown && split.name != SplitName::No
}

/// Law: a run of leaf targets `k..e` is opened as one window request for
/// all of their paths, in order (when the split opens windows), followed by
/// `Quit` exactly when `-quit` was given, however many leaves the run has.
pub proof fn lemma_leaf_run_then_quit(
    current: Current,
    opts: ChildCommandOptions,
    ts: Seq<Target>,
    g: Seq<bool>,
    ls: Seq<Result<Paths, RepositoryError>>,
    k: int,
    e: int,
)
    requires
        0 <= k < e <= ts.len(),
        e <= g.len(),
        !g[k],
    ensures
        run_actions(current, opts, ts, g, ls, k, e) == (if opens_windows(opts.split) {
            seq![
                ActionView::OpenLeaves {
                    paths: Seq::new((e - k) as nat, |i: int| ts[k + i].path@),
                    split: opts.split,
                },
            ]
        } else {
            seq![]
        }) + (if opts.quit {
            seq![ActionView::Quit]
        } else {
            seq![]
        }),
        opts.quit ==> run_actions(current, opts, ts, g, ls, k, e).last() == ActionView::Quit,
{
}

/// A run that starts at `k` where all flags from `k` on are equal ends at the end.
proof fn lemma_run_end_uniform(g: Seq<bool>, k: int)
    requires
        0 <= k < g.len(),
        forall|i: int| k <= i < g.len() ==> g[i] == g[k],
    ensures
        run_end(g, k) == g.len(),
    decreases g.len() - k,
{
    if k + 1 < g.len() {
        lemma_run_end_uniform(g, k + 1);
    }
}

/// Law: when every target is a leaf, `child` opens them all in one window
/// request, in order (when the split opens windows), then quits exactly when
/// `-quit` was given, then clears the selection.
pub proof fn lemma_child_all_leaves(
    current: Current,
    opts: ChildCommandOptions,
    is_group: Seq<bool>,
    ls: Seq<Result<Paths, RepositoryError>>,
)
    requires
        current.spec_targets().len() > 0,
        is_group.len() == current.spec_targets().len(),
        forall|i: int| 0 <= i < is_group.len() ==> !is_group[i],
    ensures
        ChildCommand::spec_actions(current, opts, is_group, ls) == Ok::<Seq<ActionView>, ErrorKindView>(
            (if opens_windows(opts.split) {
                seq![
                    ActionView::OpenLeaves {
                        paths: current.spec_targets().map_values(|t: Target| t.path@),
                        split: opts.split,
                    },
                ]
            } else {
                seq![]
            }) + (if opts.quit {
                seq![ActionView::Quit]
            } else {
                seq![]
            }) + seq![ActionView::UnselectAll],
        ),
{
    let ts = current.spec_targets();
    let n = ts.len() as int;
    lemma_run_end_uniform(is_group, 0);
    lemma_leaf_run_then_quit(current, opts, ts, is_group, ls, 0, n);
    assert(runs_from(current, opts, ts, is_group, ls, n) == Seq::<ActionView>::empty());
    assert(Seq::new((n - 0) as nat, |i: int| ts[0 + i].path@) =~= ts.map_values(|t: Target| t.path@));
    assert(runs_from(current, opts, ts, is_group, ls, 0) =~= run_actions(current, opts, ts, is_group, ls, 0, n));
}

} // verus!
