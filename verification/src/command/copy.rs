//! Putting the targets in the register, to copy or to move them.

use vstd::prelude::*;
use crate::command::action::{action_views, registered_views, result_view, Action, ActionView, RegisteredItem};
use crate::command::current::{kept, Current, Target};
use crate::command::error::{lifted, Error, ErrorKindView};
use crate::command::remove::node_flags;
use crate::repository::error::Error as RepositoryError;

verus! {

/// The canonical paths of the nodes, or the first error met resolving one.
pub open spec fn resolved_paths(n: nat, canonical: Seq<Result<String, RepositoryError>>) -> Result<
    Seq<Seq<char>>,
    ErrorKindView,
>
    decreases n,
{
    if n == 0 {
        Ok(seq![])
    } else {
        match resolved_paths((n - 1) as nat, canonical) {
            Err(e) => Err(e),
            Ok(prev) => match canonical[n - 1] {
                Err(e) => Err(lifted(e.inner)),
                Ok(p) => Ok(prev.push(p@)),
            },
        }
    }
}

proof fn lemma_resolved_err_extend(n: nat, k: nat, canonical: Seq<Result<String, RepositoryError>>, e: ErrorKindView)
    requires
        k <= n,
        resolved_paths(k, canonical) == Err::<Seq<Seq<char>>, ErrorKindView>(e),
    ensures
        resolved_paths(n, canonical) == Err::<Seq<Seq<char>>, ErrorKindView>(e),
    decreases n - k,
{
    if k < n {
        lemma_resolved_err_extend(n, k + 1, canonical, e);
    }
}

impl Current {
    /// The targets that are nodes, in order.
    pub open spec fn spec_nodes(self) -> Seq<Target> {
        kept(self.spec_targets(), node_flags(self.spec_targets()))
    }

    /// The targets that are nodes (the paths to resolve before registering).
    pub fn target_nodes(&self) -> (r: Vec<&Target>)
        ensures
            r@.len() == self.spec_nodes().len(),
            forall|i: int| 0 <= i < r@.len() ==> *r@[i] == self.spec_nodes()[i],
    {
        let ts = self.targets();
        let mut r: Vec<&Target> = Vec::new();
        let mut i: usize = 0;
        while i < ts.len()
            invariant
                i <= ts@.len(),
                ts@ == self.spec_targets(),
                r@.len() == kept(ts@.take(i as int), node_flags(ts@)).len(),
                forall|k: int| 0 <= k < r@.len() ==> *r@[k] == kept(ts@.take(i as int), node_flags(ts@))[k],
            decreases ts@.len() - i,
        {
            proof {
                assert(ts@.take(i + 1).drop_last() =~= ts@.take(i as int));
            }
            if !ts[i].is_parent_node {
                r.push(&ts[i]);
            }
            i += 1;
        }
        assert(ts@.take(i as int) =~= ts@);
        r
    }

    /// The register entries for the nodes, given `canonical[i]`, the
    /// outcome of resolving the `i`-th node; the first error met fails.
    pub fn target_items(&self, canonical: &Vec<Result<String, RepositoryError>>) -> (r: Result<
        Vec<RegisteredItem>,
        Error,
    >)
        requires
            canonical@.len() == self.spec_nodes().len(),
        ensures
            match r {
                Ok(items) => resolved_paths(canonical@.len(), canonical@) == Ok::<
                    Seq<Seq<char>>,
                    ErrorKindView,
                >(registered_views(items@)),
                Err(e) => resolved_paths(canonical@.len(), canonical@) == Err::<
                    Seq<Seq<char>>,
                    ErrorKindView,
                >(e@),
            },
    {
        let mut items: Vec<RegisteredItem> = Vec::new();
        let mut i: usize = 0;
        assert(registered_views(items@) =~= Seq::<Seq<char>>::empty());
        while i < canonical.len()
            invariant
                i <= canonical@.len(),
                resolved_paths(i as nat, canonical@) == Ok::<Seq<Seq<char>>, ErrorKindView>(
                    registered_views(items@),
                ),
            decreases canonical@.len() - i,
        {
            match &canonical[i] {
                Ok(p) => {
                    let item = RegisteredItem { path: p.clone() };
                    assert(registered_views(items@.push(item)) =~= registered_views(items@).push(
                        p@,
                    ));
                    items.push(item);
                },
                Err(e) => {
                    let err = match &e.inner {
                        crate::repository::error::ErrorKind::AlreadyExists { path } => Error::from(
                            crate::command::error::ErrorKind::AlreadyExists { path: path.clone() },
                        ),
                        _ => Error::from(
                            crate::command::error::ErrorKind::Internal { message: e.message() },
                        ),
                    };
                    proof {
                        lemma_resolved_err_extend(canonical@.len(), (i + 1) as nat, canonical@, err@);
                    }
                    return Err(err);
                },
            }
            i += 1;
        }
        Ok(items)
    }
}

/// Registers the nodes among the targets to be copied.
pub struct CopyCommand<'a> {
    pub current: &'a Current,
}

/// Registers the nodes among the targets to be moved.
pub struct CutCommand<'a> {
    pub current: &'a Current,
}

impl<'a> CopyCommand<'a> {
    /// What copying answers, given the outcome of resolving each node.
    pub open spec fn spec_actions(canonical: Seq<Result<String, RepositoryError>>) -> Result<
        Seq<ActionView>,
        ErrorKindView,
    > {
        match resolved_paths(canonical.len(), canonical) {
            Err(e) => Err(e),
            Ok(items) => Ok(seq![ActionView::Copy { items }, ActionView::UnselectAll]),
        }
    }

    /// Copies, given the outcome of resolving each node of `target_nodes`.
    pub fn actions(&self, canonical: &Vec<Result<String, RepositoryError>>) -> (r: Result<
        Vec<Action>,
        Error,
    >)
        requires
            canonical@.len() == self.current.spec_nodes().len(),
        ensures
            result_view(r) == Self::spec_actions(canonical@),
    {
        let items = self.current.target_items(canonical)?;
        let v = vec![Action::Copy { items }, Action::UnselectAll];
        assert(action_views(v@) =~= seq![v@[0]@, v@[1]@]);
        Ok(v)
    }
}

impl<'a> CutCommand<'a> {
    /// What cutting answers, given the outcome of resolving each node.
    pub open spec fn spec_actions(canonical: Seq<Result<String, RepositoryError>>) -> Result<
        Seq<ActionView>,
        ErrorKindView,
    > {
        match resolved_paths(canonical.len(), canonical) {
            Err(e) => Err(e),
            Ok(items) => Ok(seq![ActionView::Cut { items }, ActionView::UnselectAll]),
        }
    }

    /// Cuts, given the outcome of resolving each node of `target_nodes`.
    pub fn actions(&self, canonical: &Vec<Result<String, RepositoryError>>) -> (r: Result<
        Vec<Action>,
        Error,
    >)
        requires
            canonical@.len() == self.current.spec_nodes().len(),
        ensures
            result_view(r) == Self::spec_actions(canonical@),
    {
        let items = self.current.target_items(canonical)?;
        let v = vec![Action::Cut { items }, Action::UnselectAll];
        assert(action_views(v@) =~= seq![v@[0]@, v@[1]@]);
        Ok(v)
    }
}

} // verus!
