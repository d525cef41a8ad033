//! The file tree on disk: which operation a request amounts to, the checks
//! made before it, and how a directory's entries become a listing.

use vstd::prelude::*;
use crate::repository::error::Error;
use crate::repository::error::{none_kind, ErrorKindView};
use crate::repository::path::{
    full_path_views, opt_view, path_join, path_parent, slashed, FilePath, FullPath, FullPathView,
};
use crate::text::{concat, owned};

verus! {

/// An operation on the file tree.
#[derive(Debug, PartialEq, Eq)]
pub enum FsOp {
    CreateLeaf { path: String },
    CreateGroup { path: String },
    Rename { from: String, to: String, force: bool },
    Copy { from: String, to: String },
}

/// The value of an [`FsOp`].
pub enum FsOpView {
    CreateLeaf(Seq<char>),
    CreateGroup(Seq<char>),
    Rename(Seq<char>, Seq<char>, bool),
    Copy(Seq<char>, Seq<char>),
}

impl View for FsOp {
    type V = FsOpView;

    open spec fn view(&self) -> FsOpView {
        match self {
            FsOp::CreateLeaf { path } => FsOpView::CreateLeaf(path@),
            FsOp::CreateGroup { path } => FsOpView::CreateGroup(path@),
            FsOp::Rename { from, to, force } => FsOpView::Rename(from@, to@, *force),
            FsOp::Copy { from, to } => FsOpView::Copy(from@, to@),
        }
    }
}

impl FsOp {
    /// The path an operation creates or writes to.
    pub fn destination(&self) -> (r: String)
        ensures
            r@ == (match self@ {
                FsOpView::CreateLeaf(p) => p,
                FsOpView::CreateGroup(p) => p,
                FsOpView::Rename(_, to, _) => to,
                FsOpView::Copy(_, to) => to,
            }),
    {
        match self {
            FsOp::CreateLeaf { path } => path.clone(),
            FsOp::CreateGroup { path } => path.clone(),
            FsOp::Rename { to, .. } => to.clone(),
            FsOp::Copy { to, .. } => to.clone(),
        }
    }
}

/// The path `base` joined with `joined`, in slash form.
pub open spec fn joined(base: Seq<char>, joined: Seq<char>) -> Option<Seq<char>> {
    slashed(path_join(base, joined))
}

/// Creating `joined` under `base`: a directory when the name ends with `/`.
pub open spec fn create_op(base: Seq<char>, name: Seq<char>) -> Option<FsOpView> {
    match joined(base, name) {
        Some(p) => if name.len() > 0 && name.last() == '/' {
            Some(FsOpView::CreateGroup(p))
        } else {
            Some(FsOpView::CreateLeaf(p))
        },
        None => None,
    }
}

/// Moving `from` to `to`, or copying it there.
pub open spec fn move_op(from: Seq<char>, to: Seq<char>, is_copy: bool, force: bool) -> FsOpView {
    if is_copy {
        FsOpView::Copy(from, to)
    } else {
        FsOpView::Rename(from, to, force)
    }
}

/// The path whose existence decides whether an operation may go ahead.
pub open spec fn guarded_path(op: FsOpView) -> Option<Seq<char>> {
    match op {
        FsOpView::CreateLeaf(p) => Some(p),
        FsOpView::CreateGroup(p) => Some(p),
        FsOpView::Rename(_, to, force) => if force {
            None
        } else {
            Some(to)
        },
        FsOpView::Copy(_, _) => None,
    }
}

/// One entry read from a directory, with what the system reported of it.
pub struct DirEntry {
    /// The entry's name (its last path component).
    pub name: String,
    /// Whether the name is valid text.
    pub name_is_text: bool,
    pub is_dir: bool,
    /// Whether the entry resolves to something on disk (a broken symbolic
    /// link does not).
    pub exists: bool,
    /// The entry's canonical path, or the error met resolving it.
    pub canonical: Result<String, Error>,
}

/// Whether the characters of `a` come before those of `b` (code point by
/// code point, a proper prefix first).
pub open spec fn text_lt(a: Seq<char>, b: Seq<char>) -> bool
    decreases a.len(),
{
    if a.len() == 0 {
        b.len() > 0
    } else if b.len() == 0 {
        false
    } else if a[0] != b[0] {
        (a[0] as u32) < (b[0] as u32)
    } else {
        text_lt(a.drop_first(), b.drop_first())
    }
}

/// Whether entry `a` is listed before entry `b`: directories first, then by name.
pub open spec fn entry_before(a: DirEntry, b: DirEntry) -> bool {
    (a.is_dir && !b.is_dir) || (a.is_dir == b.is_dir && text_lt(a.name@, b.name@))
}

/// Where index `x` goes among the sorted indices `order`: before the first
/// entry it is listed before, after all others.
pub open spec fn insertion_point(es: Seq<DirEntry>, order: Seq<int>, x: int) -> int
    decreases order.len(),
{
    if order.len() == 0 {
        0
    } else if entry_before(es[x], es[order[0]]) {
        0
    } else {
        1 + insertion_point(es, order.drop_first(), x)
    }
}

/// The indices of the first `n` entries in listing order, by insertion:
/// each entry goes after every earlier one it is not listed before.
pub open spec fn listing_order(es: Seq<DirEntry>, n: nat) -> Seq<int>
    decreases n,
{
    if n == 0 {
        seq![]
    } else {
        let prev = listing_order(es, (n - 1) as nat);
        prev.insert(insertion_point(es, prev, n - 1), n - 1)
    }
}

/// The text an entry is listed with: its name, with a `/` after a directory's.
pub open spec fn entry_label(e: DirEntry) -> Seq<char> {
    if e.is_dir {
        e.name@ + "/"@
    } else {
        e.name@
    }
}

/// The listing of the entries taken in the order `order` (up to `n` of
/// them): entries that do not resolve are skipped; the first error met
/// resolving an entry, or an entry whose name is not text, fails it.
pub open spec fn listing_of(es: Seq<DirEntry>, order: Seq<int>, n: nat) -> Result<Seq<FullPathView>, ErrorKindView>
    decreases n,
{
    if n == 0 {
        Ok(seq![])
    } else {
        match listing_of(es, order, (n - 1) as nat) {
            Err(e) => Err(e),
            Ok(prev) => {
                let e = es[order[n - 1]];
                if !e.exists {
                    Ok(prev)
                } else {
                    match e.canonical {
                        Err(err) => Err(err.inner@),
                        Ok(p) => if !e.name_is_text {
                            Err(none_kind())
                        } else {
                            Ok(
                                prev.push(
                                    FullPathView {
                                        name: entry_label(e),
                                        path: p@,
                                        is_parent_node: false,
                                    },
                                ),
                            )
                        },
                    }
                }
            },
        }
    }
}

/// The paths among `ps` that are directories (or, when `dirs` is false,
/// that are not), in order.
pub open spec fn removal_views(ps: Seq<Seq<char>>, is_dir: Seq<bool>, dirs: bool) -> Seq<Seq<char>>
    decreases ps.len(),
{
    if ps.len() == 0 {
        seq![]
    } else if is_dir[ps.len() - 1] == dirs {
        removal_views(ps.drop_last(), is_dir, dirs).push(ps.last())
    } else {
        removal_views(ps.drop_last(), is_dir, dirs)
    }
}

proof fn lemma_listing_order_len(es: Seq<DirEntry>, n: nat)
    requires
        n <= es.len(),
    ensures
        listing_order(es, n).len() == n,
        forall|i: int| 0 <= i < n ==> 0 <= #[trigger] listing_order(es, n)[i] < n,
    decreases n,
{
    if n > 0 {
        lemma_listing_order_len(es, (n - 1) as nat);
        lemma_insertion_point_bounds(es, listing_order(es, (n - 1) as nat), n - 1);
    }
}

proof fn lemma_insertion_point_bounds(es: Seq<DirEntry>, order: Seq<int>, x: int)
    ensures
        0 <= insertion_point(es, order, x) <= order.len(),
    decreases order.len(),
{
    if order.len() > 0 {
        lemma_insertion_point_bounds(es, order.drop_first(), x);
    }
}

proof fn lemma_listing_err_extend(
    es: Seq<DirEntry>,
    order: Seq<int>,
    n: nat,
    k: nat,
    e: ErrorKindView,
)
    requires
        k <= n,
        listing_of(es, order, k) == Err::<Seq<FullPathView>, ErrorKindView>(e),
    ensures
        listing_of(es, order, n) == Err::<Seq<FullPathView>, ErrorKindView>(e),
    decreases n - k,
{
    if k < n {
        lemma_listing_err_extend(es, order, n, k + 1, e);
    }
}

/// No text comes before itself.
pub proof fn lemma_text_lt_irreflexive(a: Seq<char>)
    ensures
        !text_lt(a, a),
    decreases a.len(),
{
    if a.len() > 0 {
        lemma_text_lt_irreflexive(a.drop_first());
    }
}

/// The order of texts is transitive.
pub proof fn lemma_text_lt_transitive(a: Seq<char>, b: Seq<char>, c: Seq<char>)
    requires
        text_lt(a, b),
        text_lt(b, c),
    ensures
        text_lt(a, c),
    decreases a.len(),
{
    if a.len() > 0 && b.len() > 0 && c.len() > 0 && a[0] == b[0] && b[0] == c[0] {
        lemma_text_lt_transitive(a.drop_first(), b.drop_first(), c.drop_first());
    }
}

/// Listing order is irreflexive and transitive.
pub proof fn lemma_entry_before_order(a: DirEntry, b: DirEntry, c: DirEntry)
    ensures
        !entry_before(a, a),
        entry_before(a, b) && entry_before(b, c) ==> entry_before(a, c),
{
    lemma_text_lt_irreflexive(a.name@);
    if entry_before(a, b) && entry_before(b, c) && a.is_dir == b.is_dir && b.is_dir == c.is_dir {
        lemma_text_lt_transitive(a.name@, b.name@, c.name@);
    }
}

/// Whether the indices `order` list their entries in listing order: no
/// entry is listed before one that precedes it.
pub open spec fn in_listing_order(es: Seq<DirEntry>, order: Seq<int>) -> bool {
    forall|i: int, j: int|
        0 <= i < j < order.len() ==> !entry_before(es[#[trigger] order[j]], es[#[trigger] order[i]])
}

proof fn lemma_insertion_point_spec(es: Seq<DirEntry>, order: Seq<int>, x: int)
    ensures
        forall|i: int| 0 <= i < insertion_point(es, order, x) ==> !entry_before(es[x], es[#[trigger] order[i]]),
        insertion_point(es, order, x) < order.len() ==> entry_before(
            es[x],
            es[order[insertion_point(es, order, x)]],
        ),
    decreases order.len(),
{
    lemma_insertion_point_bounds(es, order, x);
    if order.len() > 0 && !entry_before(es[x], es[order[0]]) {
        lemma_insertion_point_spec(es, order.drop_first(), x);
        let ip = insertion_point(es, order, x);
        assert(ip == 1 + insertion_point(es, order.drop_first(), x));
        lemma_insertion_point_bounds(es, order.drop_first(), x);
        if ip < order.len() {
            assert(order[ip] == order.drop_first()[ip - 1]);
        }
        assert forall|i: int| 0 <= i < insertion_point(es, order, x) implies !entry_before(
            es[x],
            es[#[trigger] order[i]],
        ) by {
            if i > 0 {
                assert(order[i] == order.drop_first()[i - 1]);
            }
        }
    }
}

/// Law: a directory's entries are listed directories first, then by name;
/// no entry is listed after one it comes before.
pub proof fn lemma_listing_sorted(es: Seq<DirEntry>, n: nat)
    requires
        n <= es.len(),
    ensures
        in_listing_order(es, listing_order(es, n)),
    decreases n,
{
    if n > 0 {
        let prev = listing_order(es, (n - 1) as nat);
        let x = n - 1;
        lemma_listing_sorted(es, (n - 1) as nat);
        lemma_listing_order_len(es, (n - 1) as nat);
        lemma_insertion_point_spec(es, prev, x);
        lemma_insertion_point_bounds(es, prev, x);
        let k = insertion_point(es, prev, x);
        let next = prev.insert(k, x);
        assert(next == listing_order(es, n));
        assert forall|i: int, j: int| 0 <= i < j < next.len() implies !entry_before(
            es[#[trigger] next[j]],
            es[#[trigger] next[i]],
        ) by {
            if j < k {
                assert(next[i] == prev[i] && next[j] == prev[j]);
            } else if j == k {
                assert(next[j] == x);
                assert(next[i] == prev[i]);
            } else if i == k {
                assert(next[i] == x);
                assert(next[j] == prev[j - 1]);
                lemma_entry_before_order(es[x], es[prev[k]], es[prev[j - 1]]);
                lemma_entry_before_order(es[prev[j - 1]], es[x], es[prev[k]]);
                if j - 1 > k {
                    assert(!entry_before(es[prev[j - 1]], es[prev[k]]));
                } else {
                    lemma_entry_before_order(es[x], es[x], es[x]);
                    if entry_before(es[prev[k]], es[x]) {
                        lemma_entry_before_order(es[x], es[prev[k]], es[x]);
                    }
                }
            } else if i < k {
                assert(next[i] == prev[i] && next[j] == prev[j - 1]);
            } else {
                assert(next[i] == prev[i - 1] && next[j] == prev[j - 1]);
            }
        }
    }
}

/// Law: the listing order takes each of the first `n` entries exactly once.
pub proof fn lemma_listing_order_permutes(es: Seq<DirEntry>, n: nat)
    requires
        n <= es.len(),
    ensures
        listing_order(es, n).len() == n,
        listing_order(es, n).no_duplicates(),
        forall|x: int| 0 <= x < n ==> listing_order(es, n).contains(x),
    decreases n,
{
    lemma_listing_order_len(es, n);
    if n > 0 {
        let prev = listing_order(es, (n - 1) as nat);
        lemma_listing_order_permutes(es, (n - 1) as nat);
        lemma_listing_order_len(es, (n - 1) as nat);
        lemma_insertion_point_bounds(es, prev, n - 1);
        let k = insertion_point(es, prev, n - 1);
        let next = prev.insert(k, n - 1);
        assert(next == listing_order(es, n));
        assert forall|i: int, j: int| 0 <= i < j < next.len() implies next[i] != next[j] by {
            if i < k && j < k {
            } else if j == k {
                assert(next[i] == prev[i]);
            } else if i == k {
                assert(next[j] == prev[j - 1]);
            } else if i < k {
                assert(next[i] == prev[i] && next[j] == prev[j - 1]);
            } else {
                assert(next[i] == prev[i - 1] && next[j] == prev[j - 1]);
            }
        }
        assert forall|x: int| 0 <= x < n implies next.contains(x) by {
            if x == n - 1 {
                assert(next[k] == x);
            } else {
                assert(prev.contains(x));
                let i = choose|i: int| 0 <= i < prev.len() && prev[i] == x;
                if i < k {
                    assert(next[i] == x);
                } else {
                    assert(next[i + 1] == x);
                }
            }
        }
    }
}

/// The file tree on disk, as far as its choices and checks go.
pub struct FilePathRepository {}

impl FilePathRepository {
    /// The path written `p`.
    pub fn path(&self, p: &str) -> (r: FilePath)
        ensures
            r.path@ == p@,
    {
        FilePath::new(p)
    }

    /// Creating `name` under `base`: a directory when `name` ends with `/`,
    /// a file otherwise.
    pub fn create_with(&self, base: &str, name: &str) -> (r: Result<FsOp, Error>)
        ensures
            r matches Ok(op) ==> create_op(base@, name@) == Some(op@),
            r is Err <==> create_op(base@, name@) is None,
            r is Ok,
            r matches Err(e) ==> e.inner@ == crate::repository::error::none_kind(),
    {
        let new_path = self.path(base).join(name)?;
        let n = name.unicode_len();
        if n > 0 && name.get_char(n - 1) == '/' {
            Ok(FsOp::CreateGroup { path: new_path })
        } else {
            Ok(FsOp::CreateLeaf { path: new_path })
        }
    }

    /// Moving `from` to `to`, or copying it there when `is_copy`.
    pub fn rename_or_copy(&self, from: &str, to: &str, is_copy: bool, force: bool) -> (r: FsOp)
        ensures
            r@ == move_op(from@, to@, is_copy, force),
    {
        if is_copy {
            return FsOp::Copy { from: crate::text::owned(from), to: crate::text::owned(to) };
        }
        FsOp::Rename { from: crate::text::owned(from), to: crate::text::owned(to), force }
    }

    /// Moving `from` to `name` under `base` (never a copy).
    pub fn rename_with(&self, from: &str, base: &str, name: &str, force: bool) -> (r: Result<
        FsOp,
        Error,
    >)
        ensures
            r matches Ok(op) ==> (joined(base@, name@) matches Some(p) && op@ == move_op(
                from@,
                p,
                false,
                force,
            )),
            r is Err <==> joined(base@, name@) is None,
            r is Ok,
            r matches Err(e) ==> e.inner@ == crate::repository::error::none_kind(),
    {
        let new_path = self.path(base).join(name)?;
        Ok(self.rename_or_copy(from, new_path.as_str(), false, force))
    }

    /// Moving or copying `from` to `name` under `to`.
    pub fn rename_or_copy_with(
        &self,
        from: &str,
        to: &str,
        name: &str,
        is_copy: bool,
        force: bool,
    ) -> (r: Result<FsOp, Error>)
        ensures
            r matches Ok(op) ==> (joined(to@, name@) matches Some(p) && op@ == move_op(
                from@,
                p,
                is_copy,
                force,
            )),
            r is Err <==> joined(to@, name@) is None,
            r is Ok,
            r matches Err(e) ==> e.inner@ == crate::repository::error::none_kind(),
    {
        let new_path = self.path(to).join(name)?;
        Ok(self.rename_or_copy(from, new_path.as_str(), is_copy, force))
    }

    /// Whether the characters of `a` come before those of `b`.
    pub fn text_less(a: &str, b: &str) -> (r: bool)
        ensures
            r == text_lt(a@, b@),
    {
        let n = a.unicode_len();
        let m = b.unicode_len();
        let mut i: usize = 0;
        assert(a@.skip(0) =~= a@);
        assert(b@.skip(0) =~= b@);
        while i < n && i < m && a.get_char(i) == b.get_char(i)
            invariant
                n == a@.len(),
                m == b@.len(),
                i <= n,
                i <= m,
                text_lt(a@, b@) == text_lt(a@.skip(i as int), b@.skip(i as int)),
            decreases n - i,
        {
            assert(a@.skip(i as int).drop_first() =~= a@.skip(i + 1));
            assert(b@.skip(i as int).drop_first() =~= b@.skip(i + 1));
            i += 1;
        }
        if i == n {
            i < m
        } else if i == m {
            false
        } else {
            (a.get_char(i) as u32) < (b.get_char(i) as u32)
        }
    }

    /// Whether entry `a` is listed before entry `b`.
    pub fn before(a: &DirEntry, b: &DirEntry) -> (r: bool)
        ensures
            r == entry_before(*a, *b),
    {
        (a.is_dir && !b.is_dir) || (a.is_dir == b.is_dir && Self::text_less(
            a.name.as_str(),
            b.name.as_str(),
        ))
    }

    /// The indices of `es` in listing order: directories first, then by
    /// name, entries that compare alike kept in the order read.
    pub fn order(es: &Vec<DirEntry>) -> (r: Vec<usize>)
        ensures
            r@.len() == listing_order(es@, es@.len()).len(),
            forall|i: int| 0 <= i < r@.len() ==> r@[i] as int == listing_order(es@, es@.len())[i],
    {
        let mut order: Vec<usize> = Vec::new();
        let mut n: usize = 0;
        while n < es.len()
            invariant
                n <= es@.len(),
                order@.len() == listing_order(es@, n as nat).len(),
                forall|i: int| 0 <= i < order@.len() ==> order@[i] as int == listing_order(es@, n as nat)[i],
                forall|i: int| 0 <= i < order@.len() ==> order@[i] < n,
            decreases es@.len() - n,
        {
            let ghost prev = listing_order(es@, n as nat);
            let mut k: usize = 0;
            assert(prev.skip(0) =~= prev);
            while k < order.len() && !Self::before(&es[n], &es[order[k]])
                invariant
                    n < es@.len(),
                    k <= order@.len(),
                    order@.len() == prev.len(),
                    forall|i: int| 0 <= i < order@.len() ==> order@[i] as int == prev[i],
                    forall|i: int| 0 <= i < order@.len() ==> order@[i] < n,
                    insertion_point(es@, prev, n as int) == k + insertion_point(
                        es@,
                        prev.skip(k as int),
                        n as int,
                    ),
                decreases order@.len() - k,
            {
                assert(prev.skip(k as int).drop_first() =~= prev.skip(k + 1));
                assert(prev.skip(k as int)[0] == prev[k as int]);
                k += 1;
            }
            proof {
                if k < order@.len() {
                    assert(prev.skip(k as int)[0] == prev[k as int]);
                }
            }
            order.insert(k, n);
            proof {
                let next = listing_order(es@, (n + 1) as nat);
                assert(next == prev.insert(k as int, n as int));
            }
            n += 1;
        }
        order
    }

    /// The listing of a directory's entries `es`: in listing order, without
    /// those that do not resolve, each shown with its label and canonical path.
    pub fn children(&self, es: &Vec<DirEntry>) -> (r: Result<Vec<FullPath>, Error>)
        ensures
            match r {
                Ok(v) => listing_of(es@, listing_order(es@, es@.len()), es@.len()) == Ok::<
                    Seq<FullPathView>,
                    ErrorKindView,
                >(full_path_views(v@)),
                Err(e) => listing_of(es@, listing_order(es@, es@.len()), es@.len()) == Err::<
                    Seq<FullPathView>,
                    ErrorKindView,
                >(e.inner@),
            },
    {
        let order = Self::order(es);
        let ghost ord = listing_order(es@, es@.len());
        proof {
            lemma_listing_order_len(es@, es@.len());
        }
        let mut out: Vec<FullPath> = Vec::new();
        let mut i: usize = 0;
        assert(full_path_views(out@) =~= Seq::<FullPathView>::empty());
        while i < order.len()
            invariant
                i <= order@.len(),
                ord == listing_order(es@, es@.len()),
                order@.len() == ord.len(),
                ord.len() == es@.len(),
                forall|k: int| 0 <= k < order@.len() ==> order@[k] as int == ord[k],
                forall|k: int| 0 <= k < order@.len() ==> order@[k] < es@.len(),
                listing_of(es@, ord, i as nat) == Ok::<Seq<FullPathView>, ErrorKindView>(
                    full_path_views(out@),
                ),
            decreases order@.len() - i,
        {
            let e = &es[order[i]];
            if e.exists {
                match &e.canonical {
                    Err(err) => {
                        let r = Error::from(err.inner.duplicate());
                        proof {
                            lemma_listing_err_extend(es@, ord, es@.len(), (i + 1) as nat, r.inner@);
                        }
                        return Err(r);
                    },
                    Ok(p) => {
                        if !e.name_is_text {
                            let r = Error::none();
                            proof {
                                lemma_listing_err_extend(es@, ord, es@.len(), (i + 1) as nat, r.inner@);
                            }
                            return Err(r);
                        }
                        let label = if e.is_dir {
                            concat(e.name.as_str(), "/")
                        } else {
                            e.name.clone()
                        };
                        let fp = FullPath { name: label, path: p.clone(), is_parent_node: false };
                        assert(full_path_views(out@.push(fp)) =~= full_path_views(out@).push(fp@));
                        out.push(fp);
                    },
                }
            }
            i += 1;
        }
        Ok(out)
    }

    /// The directory whose canonical path heads the listing of `path`: the
    /// one holding it, or `path` itself when it has none.
    pub fn list_parent(&self, path: &str) -> (r: String)
        ensures
            r@ == (match path_parent(path@) {
                Some(p) => p,
                None => path@,
            }),
    {
        match FilePath::new(path).raw_parent() {
            Some(p) => p,
            None => owned(path),
        }
    }

    /// The listing of a directory: an entry `..` for the directory holding
    /// it (`parent`, its canonical path, or the error met resolving it),
    /// then its children.
    pub fn list(
        &self,
        parent: Result<String, Error>,
        children: Result<Vec<FullPath>, Error>,
    ) -> (r: Result<Vec<FullPath>, Error>)
        ensures
            match parent {
                Err(e) => r matches Err(e2) && e2.inner == e.inner,
                Ok(p) => match children {
                    Err(e) => r matches Err(e2) && e2.inner == e.inner,
                    Ok(cs) => r matches Ok(v) && full_path_views(v@) == seq![
                        FullPathView { name: ".."@, path: p@, is_parent_node: true },
                    ] + full_path_views(cs@),
                },
            },
    {
        let abs_path = parent?;
        let cs = children?;
        let mut v = vec![FullPath { name: owned(".."), path: abs_path, is_parent_node: true }];
        let ghost head = full_path_views(v@);
        let ghost cv = cs@;
        let mut cs = cs;
        v.append(&mut cs);
        assert(full_path_views(v@) =~= head + full_path_views(cv));
        Ok(v)
    }

    /// The order paths are removed in: files first, then directories, each
    /// group in the order given; `is_dir[i]` tells whether `paths[i]` is a
    /// directory.
    pub fn removal_order(&self, paths: &Vec<String>, is_dir: &Vec<bool>) -> (r: Vec<String>)
        requires
            is_dir@.len() == paths@.len(),
        ensures
            crate::text::views(r@) == removal_views(crate::text::views(paths@), is_dir@, false)
                + removal_views(crate::text::views(paths@), is_dir@, true),
    {
        let mut files: Vec<String> = Vec::new();
        let mut dirs: Vec<String> = Vec::new();
        let ghost pv = crate::text::views(paths@);
        let mut i: usize = 0;
        while i < paths.len()
            invariant
                i <= paths@.len(),
                is_dir@.len() == paths@.len(),
                pv == crate::text::views(paths@),
                crate::text::views(files@) == removal_views(pv.take(i as int), is_dir@, false),
                crate::text::views(dirs@) == removal_views(pv.take(i as int), is_dir@, true),
            decreases paths@.len() - i,
        {
            proof {
                assert(pv.take(i + 1).drop_last() =~= pv.take(i as int));
                assert(pv.take(i + 1).last() == paths@[i as int]@);
            }
            let p = paths[i].clone();
            if is_dir[i] {
                proof {
                    crate::text::lemma_views_push(dirs@, p);
                }
                dirs.push(p);
            } else {
                proof {
                    crate::text::lemma_views_push(files@, p);
                }
                files.push(p);
            }
            i += 1;
        }
        assert(pv.take(i as int) =~= pv);
        let ghost fv = files@;
        let ghost dv = dirs@;
        files.append(&mut dirs);
        assert(crate::text::views(files@) =~= crate::text::views(fv) + crate::text::views(dv));
        files
    }

    /// One step of finding the nearest path that exists, starting from a
    /// path that may not: stop at `path` when it exists (`None`), go on to
    /// the directory holding it otherwise, and fail when there is none.
    pub fn climb(&self, path: &str, exists: bool) -> (r: Result<Option<String>, Error>)
        ensures
            exists ==> r matches Ok(None),
            !exists ==> match path_parent(path@) {
                Some(p) => r matches Ok(Some(q)) && q@ == p,
                None => r matches Err(e) && e.inner@ == none_kind(),
            },
    {
        if exists {
            return Ok(None);
        }
        match FilePath::new(path).raw_parent() {
            Some(p) => Ok(Some(p)),
            None => Err(Error::none()),
        }
    }

    /// The path whose existence must be checked before `op`, if any: a new
    /// entry must not exist yet, and a move that is not forced must not
    /// overwrite.
    pub fn guard(&self, op: &FsOp) -> (r: Option<String>)
        ensures
            opt_view(r) == guarded_path(op@),
    {
        match op {
            FsOp::CreateLeaf { path } => Some(path.clone()),
            FsOp::CreateGroup { path } => Some(path.clone()),
            FsOp::Rename { from: _, to, force } => if *force {
                None
            } else {
                Some(to.clone())
            },
            FsOp::Copy { .. } => None,
        }
    }

    /// Whether `op` may go ahead, given whether its guarded path exists: it
    /// may not when that path is taken.
    pub fn check(&self, op: &FsOp, exists: bool) -> (r: Result<(), Error>)
        ensures
            r is Ok <==> (guarded_path(op@) is None || !exists),
            r matches Err(e) ==> (guarded_path(op@) matches Some(p) && e.inner@
                == crate::repository::error::ErrorKindView::AlreadyExists(p)),
    {
        match self.guard(op) {
            Some(p) => if exists {
                Err(Error::already_exists(p.as_str()))
            } else {
                Ok(())
            },
            None => Ok(()),
        }
    }
}

} // verus!
