use kiview::command::command::{parse_command, ParsedCommand};
use kiview::name::{command_complete, parse_options, CommandName};
use kiview::option::{CommandOption, Split, SplitModName, SplitName};
use kiview::text::{split_on, split_whitespace, str_eq};

fn s(x: &str) -> String {
    x.to_string()
}

#[test]
fn split_whitespace_drops_empty_words() {
    assert_eq!(split_whitespace("  go\t-path=/a  -back \n"), vec![s("go"), s("-path=/a"), s("-back")]);
    assert_eq!(split_whitespace(""), Vec::<String>::new());
    assert_eq!(split_whitespace(" \u{3000} "), Vec::<String>::new());
}

#[test]
fn split_on_keeps_empty_pieces() {
    assert_eq!(split_on("a::b", ':'), vec![s("a"), s(""), s("b")]);
    assert_eq!(split_on("", ':'), vec![s("")]);
    assert!(str_eq("abc", "abc"));
    assert!(!str_eq("abc", "abd"));
}

#[test]
fn split_names_and_placements() {
    assert_eq!(SplitName::from("tab"), SplitName::Tab);
    assert_eq!(SplitName::from("vertical"), SplitName::Vertical);
    assert_eq!(SplitName::from("horizontal"), SplitName::Horizontal);
    assert_eq!(SplitName::from("open"), SplitName::Open);
    assert_eq!(SplitName::from("no"), SplitName::No);
    assert_eq!(SplitName::from("Tab"), SplitName::Unknown);
    assert_eq!(SplitModName::from("leftabove"), SplitModName::LeftAbove);
    assert_eq!(SplitModName::from("rightbelow"), SplitModName::RightBelow);
    assert_eq!(SplitModName::from(""), SplitModName::Unknown);
}

#[test]
fn split_from_text() {
    assert_eq!(
        Split::from("vertical:rightbelow"),
        Split { name: SplitName::Vertical, mod_name: SplitModName::RightBelow }
    );
    assert_eq!(Split::from("tab"), Split { name: SplitName::Tab, mod_name: SplitModName::No });
    assert_eq!(
        Split::from("tab:leftabove:x"),
        Split { name: SplitName::Unknown, mod_name: SplitModName::Unknown }
    );
}

#[test]
fn command_options_from_text() {
    assert_eq!(CommandOption::from("quit"), CommandOption::Quit);
    assert_eq!(CommandOption::from("no-confirm"), CommandOption::NoConfirm);
    assert_eq!(CommandOption::from("create"), CommandOption::Create);
    assert_eq!(CommandOption::from("back"), CommandOption::Back);
    assert_eq!(CommandOption::from("path=/tmp/a"), CommandOption::Path { value: s("/tmp/a") });
    assert_eq!(CommandOption::from("paths=x/"), CommandOption::Paths { value: s("x/") });
    assert_eq!(
        CommandOption::from("split=horizontal:leftabove"),
        CommandOption::Split {
            value: Split { name: SplitName::Horizontal, mod_name: SplitModName::LeftAbove }
        }
    );
    assert_eq!(CommandOption::from("path=a=b"), CommandOption::Unknown);
    assert_eq!(CommandOption::from("quit=1"), CommandOption::Unknown);
    assert_eq!(CommandOption::from("other"), CommandOption::Unknown);
}

#[test]
fn command_names_from_lines() {
    assert_eq!(CommandName::from("quit"), CommandName::Quit);
    assert_eq!(CommandName::from("  child -split=tab"), CommandName::Child);
    assert_eq!(CommandName::from(""), CommandName::Go);
    assert_eq!(CommandName::from("-path=/a"), CommandName::Go);
    assert_eq!(CommandName::from("quit parent"), CommandName::Unknown);
    assert_eq!(CommandName::from("unknown_name"), CommandName::Unknown);
    assert_eq!(CommandName::parse("go -back x"), (CommandName::Unknown, 2));
    assert_eq!(CommandName::parse("-a -b"), (CommandName::Go, 0));
}

#[test]
fn every_offered_name_is_read_back() {
    let expected = vec![
        CommandName::Quit,
        CommandName::Parent,
        CommandName::Child,
        CommandName::Go,
        CommandName::New,
        CommandName::Remove,
        CommandName::Copy,
        CommandName::Cut,
        CommandName::ClearClipboard,
        CommandName::Paste,
        CommandName::Rename,
        CommandName::MultipleRename,
        CommandName::ToggleTree,
        CommandName::ToggleSelection,
        CommandName::Select,
        CommandName::SelectAll,
        CommandName::Unselect,
        CommandName::UnselectAll,
        CommandName::ToggleAllSelection,
        CommandName::Back,
    ];
    let all = CommandName::all();
    assert_eq!(all.len(), 20);
    for (name, want) in all.iter().zip(expected) {
        assert_eq!(CommandName::from(name.as_str()), want);
    }
}

#[test]
fn completion_offers_names_only_while_one_is_typed() {
    assert_eq!(command_complete("", ""), CommandName::all());
    assert_eq!(command_complete("qu", "qu"), CommandName::all());
    assert_eq!(command_complete("", "quit "), Vec::<String>::new());
    assert_eq!(command_complete("-b", "go -b"), CommandName::all());
    assert_eq!(command_complete("x", "go x"), Vec::<String>::new());
    assert_eq!(command_complete("-b", "-a -b"), CommandName::all());
}

#[test]
fn options_of_a_line() {
    assert_eq!(
        parse_options("go -path=/a -back rest -x"),
        vec![CommandOption::Path { value: s("/a") }, CommandOption::Back, CommandOption::Unknown]
    );
    assert_eq!(parse_options("- go"), vec![CommandOption::Unknown]);
}

#[test]
fn parse_command_dispatches() {
    match parse_command("go -path=/tmp -create -split=tab") {
        ParsedCommand::Go(o) => {
            assert_eq!(o.path, Some(s("/tmp")));
            assert!(o.create);
            assert!(!o.back);
            assert_eq!(o.split, Split { name: SplitName::Tab, mod_name: SplitModName::No });
        }
        _ => panic!("expected go"),
    }
    match parse_command("go") {
        ParsedCommand::Go(o) => {
            assert_eq!(o.path, None);
            assert_eq!(o.split, Split { name: SplitName::Vertical, mod_name: SplitModName::LeftAbove });
        }
        _ => panic!("expected go"),
    }
    match parse_command("child -quit") {
        ParsedCommand::Child(o) => {
            assert!(o.quit);
            assert_eq!(o.split, Split { name: SplitName::Open, mod_name: SplitModName::No });
        }
        _ => panic!("expected child"),
    }
    match parse_command("new -paths=a -paths=b/ -split=tab") {
        ParsedCommand::New(o) => {
            assert_eq!(o.paths, vec![s("a"), s("b/")]);
            assert_eq!(o.open, Split { name: SplitName::Tab, mod_name: SplitModName::No });
        }
        _ => panic!("expected new"),
    }
    match parse_command("remove -no-confirm") {
        ParsedCommand::Remove(o) => assert!(o.no_confirm),
        _ => panic!("expected remove"),
    }
    match parse_command("rename -no-confirm -path=x -path=y") {
        ParsedCommand::Rename(o) => {
            assert!(o.no_confirm);
            assert_eq!(o.path, Some(s("y")));
        }
        _ => panic!("expected rename"),
    }
    match parse_command("clear_clipboard") {
        ParsedCommand::Simple(c) => {
            assert_eq!(c.actions().unwrap(), vec![kiview::command::action::Action::ClearRegister])
        }
        _ => panic!("expected a simple command"),
    }
    match parse_command("bogus arg") {
        ParsedCommand::Unknown(c) => {
            assert_eq!(c.command_name, s("bogus arg"));
            let e = c.actions().unwrap_err();
            assert_eq!(e.message(), s("Unknown command: bogus arg"));
        }
        _ => panic!("expected unknown"),
    }
}
