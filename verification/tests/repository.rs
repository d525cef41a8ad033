use kiview::repository::error::{Error, ErrorKind};
use kiview::repository::file::{DirEntry, FilePathRepository, FsOp};
use kiview::repository::path::{collapse_scheme_separator, to_slash, FilePath, FullPath};
use kiview::state::{go_request, GoCommand, GoTarget, PluginState, State};

fn s(x: &str) -> String {
    x.to_string()
}

fn dir_entry(name: &str, is_dir: bool, exists: bool, canonical: Result<String, Error>) -> DirEntry {
    DirEntry { name: s(name), name_is_text: true, is_dir, exists, canonical }
}

#[test]
fn path_text_operations() {
    let p = FilePath::new("/x/y/z.txt");
    assert_eq!(p.parent(), Some(s("/x/y")));
    assert_eq!(FilePath::new("/").parent(), None);
    assert_eq!(FilePath::new("/").parent_or_root(), s("/"));
    assert_eq!(p.parent_or_root(), s("/x/y"));
    assert_eq!(p.name(), Some(s("z.txt")));
    assert_eq!(FilePath::new("/").name(), None);
    assert_eq!(FilePath::new("/x").join("a/b").unwrap(), s("/x/a/b"));
    assert_eq!(FilePath::new("/x").join("/abs").unwrap(), s("/abs"));
    assert!(p.contained("/x"));
    assert!(!p.contained("/x/y/z"));
    assert!(!FilePath::new("/xa").contained("/x"));
    assert_eq!(p.to_relative("/x").unwrap(), s("y/z.txt"));
    assert_eq!(
        p.to_relative("/q").unwrap_err().inner,
        ErrorKind::IO { message: s("prefix not found") }
    );
    assert!(FilePath::new("/x/").equals("/x/"));
    assert!(!FilePath::new("/x").equals("/y"));
    assert_eq!(p.to_string().unwrap(), s("/x/y/z.txt"));
    assert_eq!(p.root(), s("/"));
    assert_eq!(FilePath::new("/x/y").raw_parent(), Some(s("/x")));
}

#[test]
fn slash_form_collapses_scheme_separators() {
    assert_eq!(collapse_scheme_separator("a://b://c"), s("a:/b:/c"));
    assert_eq!(collapse_scheme_separator(":///"), s("://"));
    assert_eq!(to_slash("file:///tmp"), Some(s("file://tmp")));
    assert_eq!(to_slash("/tmp/x"), Some(s("/tmp/x")));
}

#[test]
fn canonical_text_goes_through_a_file_url() {
    assert_eq!(FilePath::canonicalize("/tmp/a b").unwrap(), s("/tmp/a b"));
    assert_eq!(
        FilePath::canonicalize("relative").unwrap_err().inner,
        ErrorKind::Internal { message: s("NoneError") }
    );
}

#[test]
fn operations_and_their_checks() {
    let r = FilePathRepository {};
    assert_eq!(r.create_with("/x", "a").unwrap(), FsOp::CreateLeaf { path: s("/x/a") });
    assert_eq!(r.create_with("/x", "d/").unwrap(), FsOp::CreateGroup { path: s("/x/d/") });
    assert_eq!(r.rename_or_copy("/a", "/b", true, false), FsOp::Copy { from: s("/a"), to: s("/b") });
    assert_eq!(
        r.rename_with("/a", "/x", "b", true).unwrap(),
        FsOp::Rename { from: s("/a"), to: s("/x/b"), force: true }
    );
    assert_eq!(
        r.rename_or_copy_with("/a", "/x", "c", false, false).unwrap(),
        FsOp::Rename { from: s("/a"), to: s("/x/c"), force: false }
    );
    assert_eq!(FsOp::Copy { from: s("/a"), to: s("/b") }.destination(), s("/b"));
    assert_eq!(FsOp::CreateGroup { path: s("/d/") }.destination(), s("/d/"));
    let create = FsOp::CreateLeaf { path: s("/x/a") };
    assert_eq!(r.guard(&create), Some(s("/x/a")));
    assert!(r.check(&create, false).is_ok());
    assert_eq!(
        r.check(&create, true).unwrap_err().inner,
        ErrorKind::AlreadyExists { path: s("/x/a") }
    );
    let forced = FsOp::Rename { from: s("/a"), to: s("/b"), force: true };
    assert_eq!(r.guard(&forced), None);
    assert!(r.check(&forced, true).is_ok());
    assert!(r.check(&FsOp::Rename { from: s("/a"), to: s("/b"), force: false }, true).is_err());
    assert!(r.check(&FsOp::Copy { from: s("/a"), to: s("/b") }, true).is_ok());
}

#[test]
fn children_list_directories_first_then_by_name() {
    let r = FilePathRepository {};
    let entries = vec![
        dir_entry("b.txt", false, true, Ok(s("/x/b.txt"))),
        dir_entry("zdir", true, true, Ok(s("/x/zdir"))),
        dir_entry("a.txt", false, true, Ok(s("/x/a.txt"))),
        dir_entry("broken", false, false, Err(Error::io(s("unused")))),
        dir_entry("adir", true, true, Ok(s("/x/adir"))),
    ];
    assert_eq!(FilePathRepository::order(&entries), vec![4, 1, 2, 0, 3]);
    let listed = r.children(&entries).unwrap();
    let names: Vec<&str> = listed.iter().map(|p| p.name.as_str()).collect();
    assert_eq!(names, vec!["adir/", "zdir/", "a.txt", "b.txt"]);
    assert_eq!(listed[0].path, s("/x/adir"));
    assert!(!listed[0].is_parent_node);

    let failing = vec![
        dir_entry("b", false, true, Err(Error::io(s("second")))),
        dir_entry("a", false, true, Err(Error::io(s("first")))),
    ];
    assert_eq!(r.children(&failing).unwrap_err().inner, ErrorKind::IO { message: s("first") });
    let mut odd = dir_entry("x", false, true, Ok(s("/x/x")));
    odd.name_is_text = false;
    assert_eq!(r.children(&vec![odd]).unwrap_err().inner, ErrorKind::Internal { message: s("NoneError") });
    assert!(FilePathRepository::text_less("a", "ab"));
    assert!(!FilePathRepository::text_less("b", "ab"));
    assert!(!FilePathRepository::text_less("a", "a"));
}

#[test]
fn list_puts_the_parent_first() {
    let r = FilePathRepository {};
    assert_eq!(r.list_parent("/x/y"), s("/x"));
    assert_eq!(r.list_parent("/"), s("/"));
    let child = FullPath { name: s("a"), path: s("/x/a"), is_parent_node: false };
    let listed = r.list(Ok(s("/")), Ok(vec![child.clone()])).unwrap();
    assert_eq!(listed, vec![FullPath { name: s(".."), path: s("/"), is_parent_node: true }, child.clone()]);
    assert!(r.list(Err(Error::none()), Ok(vec![])).is_err());
    assert_eq!(
        r.list(Ok(s("/")), Err(Error::io(s("denied")))).unwrap_err().inner,
        ErrorKind::IO { message: s("denied") }
    );
    assert_eq!(child.to_display_string(), s("a: /x/a"));
}

#[test]
fn removal_takes_files_first() {
    let r = FilePathRepository {};
    let paths = vec![s("/d1"), s("/f1"), s("/d2"), s("/f2")];
    assert_eq!(
        r.removal_order(&paths, &vec![true, false, true, false]),
        vec![s("/f1"), s("/f2"), s("/d1"), s("/d2")]
    );
}

#[test]
fn climbing_to_an_existing_path() {
    let r = FilePathRepository {};
    assert_eq!(r.climb("/x/y", true).unwrap(), None);
    assert_eq!(r.climb("/x/y", false).unwrap(), Some(s("/x")));
    assert_eq!(r.climb("/", false).unwrap_err().inner, ErrorKind::Internal { message: s("NoneError") });
}

#[test]
fn each_buffer_keeps_its_history() {
    let mut plugin = PluginState::new();
    let mut state = plugin.state_for(3);
    assert!(state.history.is_empty());
    state.add_history("/a", 1, false);
    state.add_history("/b", 2, true);
    plugin.store(3, &state);
    assert_eq!(plugin.state_for(3).history, vec![s("/a"), s("/b")]);
    assert!(plugin.state_for(4).history.is_empty());
    let other = State::new();
    plugin.store(4, &other);
    assert_eq!(plugin.state_for(3).history, vec![s("/a"), s("/b")]);
    assert_eq!(State::tcd_command("/tmp"), s("tcd /tmp"));
}

#[test]
fn go_in_a_buffer() {
    let opts = go_request("go -path=/tmp").unwrap();
    assert_eq!(opts.path, Some(s("/tmp")));
    assert!(go_request("quit").is_none());
    let cmd = GoCommand { current: kiview::state::Current::new(), opts };
    match cmd.target() {
        GoTarget::Resolve(p) => assert_eq!(p, s("/tmp")),
        GoTarget::NearestExisting(_) => panic!("expected a path to resolve"),
    }
    assert!(cmd.moved("/tmp"));
    assert!(!cmd.moved(""));
    let here = GoCommand { current: kiview::state::Current::new(), opts: go_request("").unwrap() };
    match here.target() {
        GoTarget::NearestExisting(p) => assert_eq!(p, s("")),
        GoTarget::Resolve(_) => panic!("expected the nearest existing path"),
    }
}
