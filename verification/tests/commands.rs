use kiview::command::action::{
    Action, ChooseItem, ForkBufferItem, Paths, Prop, RegisteredItem, RenameItem,
};
use kiview::command::child::{ChildCommand, ChildCommandOptions};
use kiview::command::command::{BackCommand, QuitCommand};
use kiview::command::copy::{CopyCommand, CutCommand};
use kiview::command::current::{Current, RegisteredTarget, RenameTarget, Target};
use kiview::command::error::{Error, ErrorKind};
use kiview::command::go::{GoCommand, GoCommandOptions};
use kiview::command::new::{NewCommand, NewCommandOptions};
use kiview::command::parent::ParentCommand;
use kiview::command::paste::{PasteCommand, PasteStep};
use kiview::command::remove::{RemoveCommand, RemoveCommandOptions};
use kiview::command::rename::{MultipleRenameCommand, RenameCommand, RenameCommandOptions, RenameStep};
use kiview::command::toggle::{SelectCommand, ToggleSelectionCommand, ToggleTreeCommand, UnselectCommand};
use kiview::option::{CommandOption, Split, SplitModName, SplitName};
use kiview::repository::error::{Error as RepositoryError, ErrorKind as RepositoryErrorKind};
use kiview::repository::file::FsOp;
use kiview::repository::path::FullPath;

fn s(x: &str) -> String {
    x.to_string()
}

fn entry(name: &str, path: &str) -> FullPath {
    FullPath { name: s(name), path: s(path), is_parent_node: false }
}

fn parent_entry(path: &str) -> FullPath {
    FullPath { name: s(".."), path: s(path), is_parent_node: true }
}

fn target(id: u64, path: &str, depth: u64) -> Target {
    Target {
        id,
        path: s(path),
        is_parent_node: false,
        parent_id: None,
        last_sibling_id: None,
        next_sibling_id: None,
        depth,
        opened: false,
    }
}

fn current(path: &str) -> Current {
    Current {
        path: s(path),
        name: s(""),
        line_number: 7,
        used: false,
        has_cut: false,
        renamer_opened: false,
        opened: false,
        target: None,
        targets: vec![],
        selected_targets: vec![],
        registered_targets: vec![],
        rename_targets: vec![],
    }
}

fn prop(path: &str, depth: u64, is_parent_node: bool, parent_id: Option<u64>) -> Prop {
    Prop { path: s(path), depth, is_parent_node, parent_id }
}

fn repo_io(message: &str) -> RepositoryError {
    RepositoryError::io(s(message))
}

#[test]
fn lines_are_indented_names() {
    let paths = Paths::from(vec![parent_entry("/"), entry("a/", "/x/a"), entry("b", "/x/b")]);
    assert_eq!(paths.lines(2), vec![s("  .."), s("  a/"), s("  b")]);
    assert_eq!(
        paths.props(2, Some(3)),
        vec![
            prop("/", 2, true, Some(3)),
            prop("/x/a", 2, false, Some(3)),
            prop("/x/b", 2, false, Some(3)),
        ]
    );
}

#[test]
fn listing_actions() {
    let paths = Paths::from(vec![entry("a", "/x/a")]);
    assert_eq!(
        paths.to_open_tree_action(5, 4),
        Action::OpenTree {
            lines: vec![s("      a")],
            props: vec![prop("/x/a", 6, false, Some(5))],
            id: 5,
            count: 1,
        }
    );
    assert_eq!(
        paths.to_write_all_action(),
        Action::WriteAll { lines: vec![s("a")], props: vec![prop("/x/a", 0, false, None)] }
    );
    assert_eq!(
        paths.to_write_action(1, Some(2), Some(3)),
        Action::Write {
            lines: vec![s(" a")],
            props: vec![prop("/x/a", 1, false, Some(2))],
            parent_id: Some(2),
            last_sibling_id: Some(3),
            count: 1,
        }
    );
    assert_eq!(
        paths.to_fork_buffer_item("/x"),
        ForkBufferItem {
            path: s("/x"),
            lines: vec![s("a")],
            props: vec![prop("/x/a", 0, false, None)],
        }
    );
}

#[test]
fn search_is_one_based() {
    let paths = Paths::from(vec![entry("a", "/a"), entry("b", "/b"), entry("b", "/c")]);
    assert_eq!(paths.search(|p| p.name == "b"), Some(2));
    assert_eq!(paths.search(|p| p.name == "z"), None);
}

#[test]
fn leaves_open_only_with_a_split() {
    let tab = Split { name: SplitName::Tab, mod_name: SplitModName::No };
    let no = Split { name: SplitName::No, mod_name: SplitModName::No };
    assert_eq!(tab.leaf_node_action(vec![]), vec![]);
    assert_eq!(no.leaf_node_action(vec![s("/a")]), vec![]);
    assert_eq!(
        tab.leaf_node_action(vec![s("/a")]),
        vec![Action::OpenLeaves { paths: vec![s("/a")], split: tab }]
    );
}

#[test]
fn targets_prefer_the_selection() {
    let mut c = current("/x");
    let mut parent = target(1, "/", 0);
    parent.is_parent_node = true;
    c.targets = vec![parent, target(2, "/x/a", 0)];
    assert_eq!(c.targets().len(), 2);
    assert_eq!(c.target_ids(), vec![2]);
    c.selected_targets = vec![target(3, "/x/b", 0)];
    assert_eq!(c.targets()[0].id, 3);
    assert_eq!(c.targets()[0].to_string(), s("/x/b"));
}

#[test]
fn dedup_keeps_the_parent_only() {
    let mut c = current("/x");
    c.targets = vec![target(1, "/x/a", 0), target(2, "/x/a/b", 2), target(3, "/x/c", 0), target(4, "/x/d/e", 2)];
    let kept: Vec<u64> = c.dedup_targets(&vec![true, true, true, true]).iter().map(|t| t.id).collect();
    assert_eq!(kept, vec![1, 3, 4]);
    let kept: Vec<u64> = c.dedup_targets(&vec![false, true, true, true]).iter().map(|t| t.id).collect();
    assert_eq!(kept, vec![2, 3, 4]);
    let mut same_depth = current("/x");
    same_depth.targets = vec![target(1, "/x/a", 0), target(2, "/x/a/b", 0)];
    let kept: Vec<u64> = same_depth.dedup_targets(&vec![true, true]).iter().map(|t| t.id).collect();
    assert_eq!(kept, vec![1, 2]);
}

#[test]
fn dedup_drops_a_child_listed_before_its_parent() {
    let mut c = current("/x");
    c.targets = vec![target(1, "/x/a/b", 1), target(2, "/x/c", 0), target(3, "/x/a", 0), target(4, "/x/a/b/d", 2)];
    let kept: Vec<u64> = c.dedup_targets(&vec![true, true, true, true]).iter().map(|t| t.id).collect();
    assert_eq!(kept, vec![2, 3]);
    let kept: Vec<u64> = c.dedup_targets(&vec![true, true, false, true]).iter().map(|t| t.id).collect();
    assert_eq!(kept, vec![1, 2]);
}

#[test]
fn error_texts() {
    assert_eq!(Error::from(ErrorKind::IO { message: s("m") }).message(), s("IO error: m"));
    assert_eq!(Error::from(ErrorKind::Internal { message: s("m") }).message(), s("Internal error: m"));
    assert_eq!(Error::from(ErrorKind::Invalid { message: s("m") }).message(), s("Invalid command: m"));
    assert_eq!(Error::from(ErrorKind::AlreadyExists { path: s("/p") }).message(), s("Already exists: /p"));
    assert_eq!(ErrorKind::invalid("x").inner, ErrorKind::Invalid { message: s("x") });
    assert_eq!(Error::none().message(), s("Internal error: NoneError"));
    assert_eq!(
        Error::from_repository(RepositoryError::already_exists("/p")).inner,
        ErrorKind::AlreadyExists { path: s("/p") }
    );
    assert_eq!(
        Error::from_repository(repo_io("denied")).inner,
        ErrorKind::Internal { message: s("IO error: denied") }
    );
    assert_eq!(repo_io("denied").message(), s("IO error: denied"));
    assert_eq!(RepositoryError::none().message(), s("Internal error: NoneError"));
    assert_eq!(
        Action::show_error("/p", Error::from(ErrorKind::Unknown { command_name: s("z") })),
        Action::ShowError { path: s("/p"), message: s("Unknown command: z") }
    );
}

#[test]
fn parent_moves_up_and_finds_the_cursor_line() {
    let c = current("/x/y");
    let cmd = ParentCommand { current: &c };
    assert_eq!(cmd.target(), Some(s("/x")));
    let listing = vec![parent_entry("/"), entry("y/", "/x/y"), entry("z", "/x/z")];
    assert_eq!(
        cmd.actions(Ok(listing)).unwrap(),
        vec![
            Action::WriteAll {
                lines: vec![s(".."), s("y/"), s("z")],
                props: vec![prop("/", 0, true, None), prop("/x/y", 0, false, None), prop("/x/z", 0, false, None)],
            },
            Action::SetPath { path: s("/x") },
            Action::AddHistory { path: s("/x/y"), line_number: 7, back: false },
            Action::SetCursor { line_number: 2 },
        ]
    );
    let root = current("/");
    assert_eq!(ParentCommand { current: &root }.actions(Err(repo_io("ignored"))).unwrap(), vec![]);
    let err = cmd.actions(Err(repo_io("gone"))).unwrap_err();
    assert_eq!(err.inner, ErrorKind::Internal { message: s("IO error: gone") });
}

fn go_options(opts: Vec<CommandOption>) -> GoCommandOptions {
    GoCommandOptions::from(opts)
}

#[test]
fn go_moves_to_a_directory() {
    let mut c = current("/x");
    c.name = s("b");
    let cmd = GoCommand { current: &c, opts: go_options(vec![CommandOption::Path { value: s("/y") }, CommandOption::Back]) };
    assert_eq!(cmd.target(), s("/y"));
    let listing = vec![entry("a", "/y/a"), entry("b", "/y/b")];
    let split = Split { name: SplitName::Vertical, mod_name: SplitModName::LeftAbove };
    assert_eq!(
        cmd.actions(Ok(s("/y")), Ok(listing.clone())).unwrap(),
        vec![
            Action::WriteAll {
                lines: vec![s("a"), s("b")],
                props: vec![prop("/y/a", 0, false, None), prop("/y/b", 0, false, None)],
            },
            Action::TryToRestoreCursor { path: s("/y") },
            Action::AddHistory { path: s("/x"), line_number: 7, back: true },
            Action::OpenView { path: s("/y"), split },
            Action::SetCursor { line_number: 2 },
        ]
    );
    let mut opened = current("/y");
    opened.opened = true;
    let cmd = GoCommand { current: &opened, opts: go_options(vec![]) };
    assert_eq!(cmd.target(), s("/y"));
    assert_eq!(
        cmd.actions(Ok(s("/y")), Ok(listing.clone())).unwrap(),
        vec![Action::WriteAll {
            lines: vec![s("a"), s("b")],
            props: vec![prop("/y/a", 0, false, None), prop("/y/b", 0, false, None)],
        }]
    );
    let cmd = GoCommand { current: &opened, opts: go_options(vec![CommandOption::Create]) };
    assert_eq!(
        cmd.actions(Ok(s("/y")), Ok(vec![entry("a", "/y/a")])).unwrap(),
        vec![Action::ForkBuffer {
            items: vec![ForkBufferItem {
                path: s("/y"),
                lines: vec![s("a")],
                props: vec![prop("/y/a", 0, false, None)],
            }],
            split,
        }]
    );
    assert_eq!(
        cmd.actions(Err(RepositoryError::already_exists("/q")), Ok(vec![])).unwrap_err().inner,
        ErrorKind::AlreadyExists { path: s("/q") }
    );
}

#[test]
fn child_opens_runs_of_leaves_and_directories() {
    let mut c = current("/x");
    c.targets = vec![target(1, "/x/f", 0), target(2, "/x/g", 0), target(3, "/x/d", 0), target(4, "/x/e", 0)];
    let open = ChildCommandOptions::from(vec![]);
    let cmd = ChildCommand { current: &c, opts: open };
    let listings = vec![
        Ok(Paths::from(vec![])),
        Ok(Paths::from(vec![])),
        Ok(Paths::from(vec![entry("k", "/x/d/k")])),
        Err(repo_io("denied")),
    ];
    let split = Split { name: SplitName::Open, mod_name: SplitModName::No };
    assert_eq!(
        cmd.actions(&vec![false, false, true, true], &listings).unwrap(),
        vec![
            Action::OpenLeaves { paths: vec![s("/x/f"), s("/x/g")], split },
            Action::WriteAll { lines: vec![s("k")], props: vec![prop("/x/d/k", 0, false, None)] },
            Action::TryToRestoreCursor { path: s("/x/d") },
            Action::ShowError { path: s("/x/e"), message: s("Internal error: IO error: denied") },
            Action::AddHistory { path: s("/x"), line_number: 7, back: false },
            Action::UnselectAll,
        ]
    );
    let tab = Split { name: SplitName::Tab, mod_name: SplitModName::No };
    let opts = ChildCommandOptions::from(vec![CommandOption::Split { value: tab }, CommandOption::Quit]);
    let cmd = ChildCommand { current: &c, opts };
    assert_eq!(
        cmd.actions(&vec![true, true, false, true], &listings).unwrap(),
        vec![
            Action::ForkBuffer { items: vec![ForkBufferItem { path: s("/x/f"), lines: vec![], props: vec![] }], split: tab },
            Action::ForkBuffer { items: vec![ForkBufferItem { path: s("/x/g"), lines: vec![], props: vec![] }], split: tab },
            Action::OpenLeaves { paths: vec![s("/x/d")], split: tab },
            Action::Quit,
            Action::ShowError { path: s("/x/e"), message: s("Internal error: IO error: denied") },
            Action::UnselectAll,
        ]
    );
}

#[test]
fn new_asks_for_names_then_creates() {
    let c = current("/x");
    let cmd = NewCommand { current: &c, opts: NewCommandOptions::from(vec![]) };
    assert_eq!(cmd.actions(&vec![], Err(repo_io("unused"))).unwrap(), vec![Action::ConfirmNew]);

    let mut c = current("/x");
    let mut t = target(9, "/x/d/f", 2);
    t.parent_id = Some(4);
    c.target = Some(t);
    let tab = Split { name: SplitName::Tab, mod_name: SplitModName::No };
    let opts = NewCommandOptions::from(vec![
        CommandOption::Paths { value: s("a") },
        CommandOption::Paths { value: s("b/") },
        CommandOption::Paths { value: s("c") },
        CommandOption::Split { value: tab },
    ]);
    let cmd = NewCommand { current: &c, opts };
    assert_eq!(cmd.target(), s("/x/d"));
    let requests = cmd.requests();
    assert_eq!(requests.len(), 3);
    assert_eq!(requests[0].as_ref().unwrap(), &FsOp::CreateLeaf { path: s("/x/d/a") });
    assert_eq!(requests[1].as_ref().unwrap(), &FsOp::CreateGroup { path: s("/x/d/b/") });
    let created = vec![Ok(false), Ok(true), Err(RepositoryError::already_exists("/x/d/c"))];
    assert_eq!(
        cmd.actions(&created, Ok(Paths::from(vec![entry("a", "/x/d/a")]))).unwrap(),
        vec![
            Action::Write {
                lines: vec![s("  a")],
                props: vec![prop("/x/d/a", 2, false, Some(4))],
                parent_id: Some(4),
                last_sibling_id: None,
                count: 1,
            },
            Action::OpenLeaves { paths: vec![s("a")], split: tab },
            Action::ShowError { path: s("c"), message: s("Already exists: /x/d/c") },
        ]
    );
}

#[test]
fn remove_confirms_then_refreshes_parents() {
    let mut c = current("/x");
    let mut a = target(1, "/x/d/a", 2);
    a.parent_id = Some(3);
    let b = target(2, "/x/d/a/b", 4);
    let e = target(5, "/x/e", 0);
    c.targets = vec![a, b, e];
    let cmd = RemoveCommand { current: &c, opts: RemoveCommandOptions::from(vec![]) };
    assert_eq!(cmd.paths(), vec![s("/x/d/a"), s("/x/e")]);
    assert_eq!(
        cmd.actions(Ok(()), &vec![]).unwrap(),
        vec![Action::ConfirmRemove { paths: vec![s("/x/d/a"), s("/x/e")] }]
    );
    let cmd = RemoveCommand { current: &c, opts: RemoveCommandOptions::from(vec![CommandOption::NoConfirm]) };
    let refreshes = cmd.refreshes();
    assert_eq!(refreshes.len(), 1);
    assert_eq!(refreshes[0].path, s("/x"));
    assert_eq!(refreshes[0].depth, 0);
    assert_eq!(
        cmd.actions(Ok(()), &vec![Ok(Paths::from(vec![entry("d/", "/x/d")]))]).unwrap(),
        vec![Action::Write {
            lines: vec![s("d/")],
            props: vec![prop("/x/d", 0, false, None)],
            parent_id: None,
            last_sibling_id: None,
            count: 1,
        }]
    );
    assert_eq!(
        cmd.actions(Ok(()), &vec![Err(repo_io("busy"))]).unwrap(),
        vec![Action::ShowError { path: s("/x"), message: s("IO error: busy") }]
    );
    assert_eq!(
        cmd.actions(Err(repo_io("busy")), &vec![]).unwrap_err().inner,
        ErrorKind::Internal { message: s("IO error: busy") }
    );
}

#[test]
fn rename_confirms_or_moves() {
    let mut c = current("/x");
    c.target = Some(target(1, "/x/a", 0));
    let cmd = RenameCommand { current: &c, opts: RenameCommandOptions::from(vec![]) };
    assert_eq!(
        cmd.actions(Ok(()), Ok(Paths::from(vec![]))).unwrap(),
        vec![Action::ConfirmRename { path: s("/x/a"), relative_path: s("a") }]
    );
    let opts = RenameCommandOptions::from(vec![CommandOption::NoConfirm, CommandOption::Path { value: s("b") }]);
    let cmd = RenameCommand { current: &c, opts };
    match cmd.plan().unwrap() {
        RenameStep::Move { op, group } => {
            assert_eq!(op, FsOp::Rename { from: s("/x/a"), to: s("/x/b"), force: false });
            assert_eq!(group, s("/x"));
        }
        RenameStep::Answer(_) => panic!("expected a move"),
    }
    assert_eq!(
        cmd.actions(Ok(()), Ok(Paths::from(vec![entry("b", "/x/b")]))).unwrap(),
        vec![Action::Write {
            lines: vec![s("b")],
            props: vec![prop("/x/b", 0, false, None)],
            parent_id: None,
            last_sibling_id: None,
            count: 1,
        }]
    );
    assert_eq!(
        cmd.actions(Err(RepositoryError::already_exists("/x/b")), Ok(Paths::from(vec![]))).unwrap_err().inner,
        ErrorKind::AlreadyExists { path: s("/x/b") }
    );
    let nothing = current("/x");
    let cmd = RenameCommand { current: &nothing, opts: RenameCommandOptions::from(vec![CommandOption::NoConfirm]) };
    assert_eq!(
        cmd.actions(Ok(()), Ok(Paths::from(vec![]))).unwrap_err().inner,
        ErrorKind::Invalid { message: s("no confirm rename required -path and -current-target") }
    );
    let cmd = RenameCommand { current: &nothing, opts: RenameCommandOptions::from(vec![]) };
    assert_eq!(cmd.actions(Ok(()), Ok(Paths::from(vec![]))).unwrap(), vec![]);
    let mut outside = current("/x");
    outside.target = Some(target(1, "/y/a", 0));
    let cmd = RenameCommand { current: &outside, opts: RenameCommandOptions::from(vec![]) };
    assert_eq!(
        cmd.actions(Ok(()), Ok(Paths::from(vec![]))).unwrap_err().inner,
        ErrorKind::Internal { message: s("IO error: prefix not found") }
    );
}

#[test]
fn multiple_rename_opens_then_completes() {
    let mut c = current("/x");
    c.targets = vec![target(1, "/x/a", 0), target(2, "/x/b", 0)];
    let cmd = MultipleRenameCommand { current: &c };
    assert_eq!(
        cmd.actions(&vec![], Ok(Paths::from(vec![]))).unwrap(),
        vec![Action::OpenRenamer {
            path: s("/x"),
            items: vec![
                RenameItem { id: 1, path: s("/x/a"), relative_path: s("a"), is_copy: false },
                RenameItem { id: 2, path: s("/x/b"), relative_path: s("b"), is_copy: false },
            ],
        }]
    );
    c.renamer_opened = true;
    let cmd = MultipleRenameCommand { current: &c };
    assert_eq!(cmd.actions(&vec![], Ok(Paths::from(vec![]))).unwrap(), vec![]);
    c.rename_targets = vec![
        RenameTarget { id: 1, from: s("/x/a"), to: s("c"), is_copy: false },
        RenameTarget { id: 2, from: s("/x/b"), to: s("d"), is_copy: true },
    ];
    let cmd = MultipleRenameCommand { current: &c };
    let requests = cmd.requests();
    assert_eq!(requests[0].as_ref().unwrap(), &FsOp::Rename { from: s("/x/a"), to: s("/x/c"), force: false });
    assert_eq!(requests[1].as_ref().unwrap(), &FsOp::Copy { from: s("/x/b"), to: s("/x/d") });
    let results = vec![Ok(s("/x/c")), Err(RepositoryError::already_exists("/x/d"))];
    assert_eq!(
        cmd.actions(&results, Ok(Paths::from(vec![entry("c", "/x/c")]))).unwrap(),
        vec![
            Action::CompleteRenamer {
                items: vec![RenameItem { id: 1, path: s("/x/c"), relative_path: s("c"), is_copy: false }],
                has_error: true,
            },
            Action::WriteAll { lines: vec![s("c")], props: vec![prop("/x/c", 0, false, None)] },
            Action::ShowError { path: s("d"), message: s("Already exists: /x/d") },
        ]
    );
}

#[test]
fn paste_steps_stop_after_a_failure() {
    let mut c = current("/x");
    c.registered_targets = vec![RegisteredTarget { path: s("/y/a"), name: None, from: None, force: false }];
    let cmd = PasteCommand { current: &c };
    let planned = cmd.plan(cmd.sources()[0]);
    assert_eq!(cmd.step(false, &planned, false), PasteStep::Perform);
    assert_eq!(cmd.step(false, &planned, true), PasteStep::Skip);
    assert_eq!(cmd.step(true, &planned, false), PasteStep::Skip);
    let failed = Err(Error::none());
    assert_eq!(cmd.step(false, &failed, false), PasteStep::Abort);
    let mut elsewhere = current("/q");
    elsewhere.target = Some(target(1, "/x/t", 0));
    elsewhere.registered_targets = c.registered_targets.clone();
    let cmd = PasteCommand { current: &elsewhere };
    let planned = cmd.plan(cmd.sources()[0]);
    assert_eq!(cmd.step(false, &planned, true), PasteStep::Abort);
    assert_eq!(cmd.step(false, &planned, false), PasteStep::Perform);
}

#[test]
fn paste_chooses_or_moves() {
    let mut c = current("/x");
    c.has_cut = true;
    c.registered_targets = vec![
        RegisteredTarget { path: s("/y/a"), name: None, from: None, force: false },
        RegisteredTarget { path: s("/y/b"), name: Some(s("renamed")), from: None, force: false },
        RegisteredTarget { path: s("/other"), name: None, from: Some(s("/y/a")), force: false },
    ];
    let cmd = PasteCommand { current: &c };
    assert_eq!(cmd.sources().len(), 2);
    let first = cmd.plan(cmd.sources()[0]).unwrap();
    assert_eq!((first.from.as_str(), first.to.as_str()), ("/y/a", "/x/a"));
    let second = cmd.plan(cmd.sources()[1]).unwrap();
    assert_eq!(second.to, s("/x/renamed"));
    assert_eq!(cmd.operation(&second), FsOp::Rename { from: s("/y/b"), to: s("/x/renamed"), force: false });
    assert!(PasteCommand::needs_choice(&first, true));
    assert_eq!(cmd.decide(&first, true).unwrap(), false);
    assert_eq!(cmd.decide(&second, false).unwrap(), true);
    assert!(!PasteCommand::needs_choice(&second, false));
    let actions = cmd
        .actions(&vec![true, false], &vec![Ok(()), Err(repo_io("denied"))], Ok(Paths::from(vec![])))
        .unwrap();
    assert_eq!(
        actions,
        vec![
            Action::Write { lines: vec![], props: vec![], parent_id: None, last_sibling_id: None, count: 0 },
            Action::ClearRegister,
            Action::ShowError { path: s("/x/renamed"), message: s("Internal error: IO error: denied") },
            Action::Choose {
                path: s("/x"),
                items: vec![ChooseItem { from: s("/y/a"), path: s("/x/a"), relative_path: s("a") }],
                has_cut: true,
            },
        ]
    );
    let mut elsewhere = current("/q");
    elsewhere.target = Some(target(1, "/x/t", 0));
    elsewhere.registered_targets = vec![RegisteredTarget { path: s("/y/a"), name: None, from: None, force: false }];
    let cmd = PasteCommand { current: &elsewhere };
    let mv = cmd.plan(cmd.sources()[0]).unwrap();
    assert_eq!(mv.to, s("/x/a"));
    assert_eq!(
        cmd.decide(&mv, true).unwrap_err().inner,
        ErrorKind::Internal { message: s("IO error: prefix not found") }
    );
    assert_eq!(
        cmd.actions(&vec![true], &vec![Ok(())], Ok(Paths::from(vec![]))).unwrap_err().inner,
        ErrorKind::Internal { message: s("IO error: prefix not found") }
    );
    let mut nameless = current("/x");
    nameless.registered_targets = vec![RegisteredTarget { path: s("/"), name: None, from: None, force: false }];
    let cmd = PasteCommand { current: &nameless };
    assert_eq!(
        cmd.actions(&vec![false], &vec![Ok(())], Ok(Paths::from(vec![]))).unwrap_err().inner,
        ErrorKind::Invalid { message: s("new name not found") }
    );
}

#[test]
fn copy_and_cut_register_resolved_nodes() {
    let mut c = current("/x");
    let mut parent = target(1, "/", 0);
    parent.is_parent_node = true;
    c.targets = vec![parent, target(2, "/x/a", 0)];
    assert_eq!(c.target_nodes().len(), 1);
    let canonical = vec![Ok(s("/real/a"))];
    assert_eq!(
        CopyCommand { current: &c }.actions(&canonical).unwrap(),
        vec![Action::Copy { items: vec![RegisteredItem { path: s("/real/a") }] }, Action::UnselectAll]
    );
    assert_eq!(
        CutCommand { current: &c }.actions(&canonical).unwrap(),
        vec![Action::Cut { items: vec![RegisteredItem { path: s("/real/a") }] }, Action::UnselectAll]
    );
    assert_eq!(
        CopyCommand { current: &c }.actions(&vec![Err(repo_io("no such file"))]).unwrap_err().inner,
        ErrorKind::Internal { message: s("IO error: no such file") }
    );
}

#[test]
fn toggle_tree_opens_and_closes() {
    let mut c = current("/x");
    let mut open = target(1, "/x/d", 0);
    open.opened = true;
    open.next_sibling_id = Some(8);
    c.targets = vec![open, target(2, "/x/e", 2), target(3, "/x/f", 0)];
    let cmd = ToggleTreeCommand { current: &c };
    let is_group = vec![true, true, false];
    assert_eq!(cmd.targets(&is_group).len(), 2);
    assert_eq!(
        cmd.actions(&is_group, &vec![Ok(Paths::from(vec![])), Ok(Paths::from(vec![entry("k", "/x/e/k")]))]).unwrap(),
        vec![
            Action::CloseTree { id: 1, next_sibling_id: Some(8) },
            Action::OpenTree { lines: vec![s("    k")], props: vec![prop("/x/e/k", 4, false, Some(2))], id: 2, count: 1 },
        ]
    );
}

#[test]
fn selection_commands() {
    let mut c = current("/x");
    c.targets = vec![target(4, "/x/a", 0)];
    assert_eq!(ToggleSelectionCommand { current: &c }.actions().unwrap(), vec![Action::ToggleSelection { ids: vec![4] }]);
    assert_eq!(SelectCommand { current: &c }.actions().unwrap(), vec![Action::Select { ids: vec![4] }]);
    assert_eq!(UnselectCommand { current: &c }.actions().unwrap(), vec![Action::Unselect { ids: vec![4] }]);
    assert_eq!(QuitCommand {}.actions().unwrap(), vec![Action::Quit]);
    assert_eq!(BackCommand {}.actions().unwrap(), vec![Action::BackHistory]);
}
