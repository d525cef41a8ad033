//! Text operations on paths, and the entries of a listing.

use vstd::prelude::*;
use crate::repository::error::{none_kind, Error, ErrorKind, ErrorKindView};
use crate::text::owned;
use path_slash::PathExt;

verus! {

/// The character sequence inside an optional string.
pub open spec fn opt_view(o: Option<String>) -> Option<Seq<char>> {
    match o {
        Some(s) => Some(s@),
        None => None,
    }
}

/// Names what `std::path::Path::parent` gives for the path written `p`
/// (`None` for a root or an empty path), read back as text.
pub uninterp spec fn path_parent(p: Seq<char>) -> Option<Seq<char>>;

/// Names what `std::path::Path::join` gives for `base` joined with `p`, as text.
pub uninterp spec fn path_join(base: Seq<char>, p: Seq<char>) -> Seq<char>;

/// Names what `std::path::Path::file_name` gives for `p`, as text.
pub uninterp spec fn path_file_name(p: Seq<char>) -> Option<Seq<char>>;

/// Names what `std::path::Path::starts_with` answers for `p` and `base`
/// (a whole-component prefix test).
pub uninterp spec fn path_starts_with(p: Seq<char>, base: Seq<char>) -> bool;

/// Names what `std::path::Path::strip_prefix` gives for `p` and `base`, as
/// text (`None` when `base` is not a prefix of `p`).
pub uninterp spec fn path_strip_prefix(p: Seq<char>, base: Seq<char>) -> Option<Seq<char>>;

/// Names what `path_slash::PathExt::to_slash` gives for the path written `p`.
/// What it gives depends on the target: off Windows it is the text itself,
/// on Windows the components joined by `/`; the name covers both.
pub uninterp spec fn slash_form(p: Seq<char>) -> Option<Seq<char>>;

/// Names what `url::Url::from_file_path` followed by `url::Url::to_file_path`
/// gives for `p` (`None` when either step fails), as text.
pub uninterp spec fn file_url_round_trip(p: Seq<char>) -> Option<Seq<char>>;

/// Calls `std::path::Path::parent` on `p`; the result is what `path_parent`
/// names. The parent of a path given as text is a prefix of that text, so
/// reading it back as text loses nothing.
#[verifier::external_body]
fn std_parent(p: &str) -> (r: Option<String>)
    ensures
        opt_view(r) == path_parent(p@),
{
    match std::path::Path::new(p).parent() {
        Some(q) => Some(q.to_string_lossy().into_owned()),
        None => None,
    }
}

/// Calls `std::path::Path::join`; the result is what `path_join` names.
#[verifier::external_body]
fn std_join(base: &str, p: &str) -> (r: String)
    ensures
        r@ == path_join(base@, p@),
{
    std::path::Path::new(base).join(p).to_string_lossy().into_owned()
}

/// Calls `std::path::Path::file_name`; the result is what `path_file_name` names.
#[verifier::external_body]
fn std_file_name(p: &str) -> (r: Option<String>)
    ensures
        opt_view(r) == path_file_name(p@),
{
    match std::path::Path::new(p).file_name() {
        Some(n) => Some(n.to_string_lossy().into_owned()),
        None => None,
    }
}

/// Calls `std::path::Path::starts_with`; the answer is what `path_starts_with` names.
#[verifier::external_body]
fn std_starts_with(p: &str, base: &str) -> (r: bool)
    ensures
        r == path_starts_with(p@, base@),
{
    std::path::Path::new(p).starts_with(base)
}

/// Calls `std::path::Path::strip_prefix`; the result is what
/// `path_strip_prefix` names (its error carries no information and is
/// mapped to `None`). As std documents, it fails exactly when `base` is not
/// a prefix of `p` in the sense of `Path::starts_with`.
#[verifier::external_body]
fn std_strip_prefix(p: &str, base: &str) -> (r: Option<String>)
    ensures
        opt_view(r) == path_strip_prefix(p@, base@),
        r is Some <==> path_starts_with(p@, base@),
{
    match std::path::Path::new(p).strip_prefix(base) {
        Ok(q) => Some(q.to_string_lossy().into_owned()),
        Err(_) => None,
    }
}

/// Calls `path_slash::PathExt::to_slash` on the path written `p`; the
/// result is what `slash_form` names. A path made from a `&str` is valid
/// Unicode throughout, so the conversion always succeeds.
#[verifier::external_body]
fn slash_of(p: &str) -> (r: Option<String>)
    ensures
        opt_view(r) == slash_form(p@),
        r is Some,
{
    match std::path::Path::new(p).to_slash() {
        Some(s) => Some(s.into_owned()),
        None => None,
    }
}

/// Calls `url::Url::from_file_path` on `p` and `url::Url::to_file_path` on
/// the URL it gives; the result is what `file_url_round_trip` names.
#[verifier::external_body]
fn url_round_trip(p: &str) -> (r: Option<String>)
    ensures
        opt_view(r) == file_url_round_trip(p@),
{
    match url::Url::from_file_path(p) {
        Ok(u) => match u.to_file_path() {
            Ok(b) => Some(b.to_string_lossy().into_owned()),
            Err(_) => None,
        },
        Err(_) => None,
    }
}

/// `s` with every `://` (taken left to right, without overlap) written `:/`.
pub open spec fn collapse_scheme(s: Seq<char>) -> Seq<char>
    decreases s.len(),
{
    if s.len() < 3 {
        s
    } else if s[0] == ':' && s[1] == '/' && s[2] == '/' {
        seq![':', '/'] + collapse_scheme(s.skip(3))
    } else {
        seq![s[0]] + collapse_scheme(s.drop_first())
    }
}

/// Replaces every `://` in `s` by `:/`.
pub fn collapse_scheme_separator(s: &str) -> (r: String)
    ensures
        r@ == collapse_scheme(s@),
{
    let n = s.unicode_len();
    let mut r = String::new();
    let mut i: usize = 0;
    assert(s@.skip(0) =~= s@);
    while i < n
        invariant
            n == s@.len(),
            i <= n,
            r@ + collapse_scheme(s@.skip(i as int)) == collapse_scheme(s@),
        decreases n - i,
    {
        let ghost rest = s@.skip(i as int);
        if 3 <= n - i && s.get_char(i) == ':' && s.get_char(i + 1) == '/' && s.get_char(i + 2)
            == '/' {
            proof {
                reveal_strlit(":/");
                assert(rest.skip(3) =~= s@.skip(i + 3));
                assert(r@ + collapse_scheme(rest) =~= (r@ + seq![':', '/']) + collapse_scheme(
                    s@.skip(i + 3),
                ));
            }
            r.append(":/");
            i += 3;
        } else {
            let c = s.substring_char(i, i + 1);
            proof {
                assert(rest.drop_first() =~= s@.skip(i + 1));
                assert(c@ =~= seq![rest[0]]);
                assert(r@ + collapse_scheme(rest) =~= (r@ + c@) + collapse_scheme(s@.skip(i + 1)));
            }
            r.append(c);
            i += 1;
        }
    }
    proof {
        assert(s@.skip(n as int) =~= Seq::<char>::empty());
        assert(r@ + Seq::<char>::empty() =~= r@);
    }
    r
}

/// The slash form of a path, with `://` collapsed to `:/`.
pub open spec fn slashed(p: Seq<char>) -> Option<Seq<char>> {
    match slash_form(p) {
        Some(s) => Some(collapse_scheme(s)),
        None => None,
    }
}

/// A path written with `/` separators, with `://` collapsed to `:/`.
pub fn to_slash(p: &str) -> (r: Option<String>)
    ensures
        opt_view(r) == slashed(p@),
        r is Some,
{
    match slash_of(p) {
        Some(s) => Some(collapse_scheme_separator(s.as_str())),
        None => None,
    }
}

/// The directory that holds `p`, in slash form.
pub open spec fn parent_of(p: Seq<char>) -> Option<Seq<char>> {
    match path_parent(p) {
        Some(q) => slashed(q),
        None => None,
    }
}

/// The canonical text of a path that the system has already resolved:
/// read back through a file URL, in slash form.
pub open spec fn canonical_text(resolved: Seq<char>) -> Option<Seq<char>> {
    match file_url_round_trip(resolved) {
        Some(q) => slashed(q),
        None => None,
    }
}

/// The path `p` relative to `base`, in slash form, or the error met.
pub open spec fn relative_path(p: Seq<char>, base: Seq<char>) -> Result<Seq<char>, ErrorKindView> {
    match path_strip_prefix(p, base) {
        None => Err(ErrorKindView::IO("prefix not found"@)),
        Some(q) => match slashed(q) {
            Some(s) => Ok(s),
            None => Err(none_kind()),
        },
    }
}

/// The root of the file tree.
pub open spec fn root_path() -> Seq<char> {
    "/"@
}

/// A path in the file tree, given as text.
pub struct FilePath {
    pub path: String,
}

impl FilePath {
    /// The path written `p`.
    pub fn new(p: &str) -> (r: FilePath)
        ensures
            r.path@ == p@,
    {
        FilePath { path: owned(p) }
    }

    /// The directory that holds this path, if there is one.
    pub fn parent(&self) -> (r: Option<String>)
        ensures
            opt_view(r) == parent_of(self.path@),
            r is Some <==> path_parent(self.path@) is Some,
    {
        match std_parent(self.path.as_str()) {
            Some(q) => to_slash(q.as_str()),
            None => None,
        }
    }

    /// The directory that holds this path as the system spells it, before
    /// any conversion to slash form.
    pub fn raw_parent(&self) -> (r: Option<String>)
        ensures
            opt_view(r) == path_parent(self.path@),
    {
        std_parent(self.path.as_str())
    }

    /// The canonical text of `resolved`, the result of resolving this path
    /// on disk.
    pub fn canonicalize(resolved: &str) -> (r: Result<String, Error>)
        ensures
            r matches Ok(s) ==> canonical_text(resolved@) == Some(s@),
            r is Err <==> canonical_text(resolved@) is None,
            r is Ok <==> file_url_round_trip(resolved@) is Some,
            r matches Err(e) ==> e.inner matches ErrorKind::Internal { message } && message@
                == "NoneError"@,
    {
        match url_round_trip(resolved) {
            Some(q) => match to_slash(q.as_str()) {
                Some(s) => Ok(s),
                None => Err(Error::none()),
            },
            None => Err(Error::none()),
        }
    }

    /// This path joined with `p`, in slash form.
    pub fn join(&self, p: &str) -> (r: Result<String, Error>)
        ensures
            r matches Ok(s) ==> slashed(path_join(self.path@, p@)) == Some(s@),
            r is Err <==> slashed(path_join(self.path@, p@)) is None,
            r is Ok,
            r matches Err(e) ==> e.inner matches ErrorKind::Internal { message } && message@
                == "NoneError"@,
    {
        let joined = std_join(self.path.as_str(), p);
        match to_slash(joined.as_str()) {
            Some(s) => Ok(s),
            None => Err(Error::none()),
        }
    }

    /// Whether this path and `p` have the same slash form.
    pub fn equals(&self, p: &str) -> (r: bool)
        ensures
            r == (slashed(self.path@) == slashed(p@)),
    {
        let a = to_slash(self.path.as_str());
        let b = to_slash(p);
        match (a, b) {
            (Some(x), Some(y)) => crate::text::str_eq(x.as_str(), y.as_str()),
            (None, None) => true,
            _ => false,
        }
    }

    /// The last component of this path.
    pub fn name(&self) -> (r: Option<String>)
        ensures
            opt_view(r) == path_file_name(self.path@),
    {
        std_file_name(self.path.as_str())
    }

    /// This path in slash form.
    pub fn to_string(&self) -> (r: Result<String, Error>)
        ensures
            r matches Ok(s) ==> slashed(self.path@) == Some(s@),
            r is Err <==> slashed(self.path@) is None,
            r is Ok,
            r matches Err(e) ==> e.inner matches ErrorKind::Internal { message } && message@
                == "NoneError"@,
    {
        match to_slash(self.path.as_str()) {
            Some(s) => Ok(s),
            None => Err(Error::none()),
        }
    }

    /// Whether this path lies under `haystack` (component-wise).
    pub fn contained(&self, haystack: &str) -> (r: bool)
        ensures
            r == path_starts_with(self.path@, haystack@),
    {
        std_starts_with(self.path.as_str(), haystack)
    }

    /// This path relative to `base`, in slash form.
    pub fn to_relative(&self, base: &str) -> (r: Result<String, Error>)
        ensures
            match r {
                Ok(s) => relative_path(self.path@, base@) == Ok::<Seq<char>, ErrorKindView>(s@),
                Err(e) => relative_path(self.path@, base@) == Err::<Seq<char>, ErrorKindView>(
                    e.inner@,
                ),
            },
            r is Ok <==> path_starts_with(self.path@, base@),
    {
        match std_strip_prefix(self.path.as_str(), base) {
            Some(q) => match to_slash(q.as_str()) {
                Some(s) => Ok(s),
                None => Err(Error::none()),
            },
            None => Err(Error::io(owned("prefix not found"))),
        }
    }

    /// The root of the file tree.
    pub fn root(&self) -> (r: String)
        ensures
            r@ == root_path(),
    {
        owned("/")
    }

    /// The directory that holds this path, or the root when there is none.
    pub fn parent_or_root(&self) -> (r: String)
        ensures
            r@ == (match parent_of(self.path@) {
                Some(q) => q,
                None => root_path(),
            }),
    {
        match self.parent() {
            Some(p) => p,
            None => self.root(),
        }
    }
}

/// An entry of a listing: the text it is shown with and its canonical path.
#[derive(Debug, Clone, PartialEq, Eq)]
pub struct FullPath {
    pub name: String,
    pub path: String,
    pub is_parent_node: bool,
}

/// The value of a [`FullPath`].
pub struct FullPathView {
    pub name: Seq<char>,
    pub path: Seq<char>,
    pub is_parent_node: bool,
}

impl View for FullPath {
    type V = FullPathView;

    open spec fn view(&self) -> FullPathView {
        FullPathView { name: self.name@, path: self.path@, is_parent_node: self.is_parent_node }
    }
}

/// The values of a sequence of entries.
pub open spec fn full_path_views(v: Seq<FullPath>) -> Seq<FullPathView> {
    v.map_values(|p: FullPath| p@)
}

impl FullPath {
    /// The entry shown as `name: path`.
    pub fn to_display_string(&self) -> (r: String)
        ensures
            r@ == self.name@ + ": "@ + self.path@,
    {
        let r = crate::text::concat(self.name.as_str(), ": ");
        crate::text::concat(r.as_str(), self.path.as_str())
    }
}

} // verus!
