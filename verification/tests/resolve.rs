use pacfiles::backup::{Backup, Kind};
use pacfiles::config::{wants_colour, Action, Config};
use pacfiles::resolve::{parse_action, Command, FileOp};

fn config(diffprog: &str, nosudoedit: bool, sudouser: Option<&str>) -> Config {
    Config {
        dbpath: None,
        root: None,
        config: None,
        all: false,
        output: false,
        verbose: false,
        action: None,
        diffprog: diffprog.to_string(),
        nosudoedit,
        sudouser: sudouser.map(|s| s.to_string()),
        targets: Vec::new(),
    }
}

fn record(file: &str, pacfiles: &[&str]) -> Backup {
    Backup::new("pkg".into(), file.into(), pacfiles.iter().map(|p| p.to_string()).collect(), Kind::Pacnew)
        .unwrap()
}

fn remove(path: &str) -> FileOp {
    FileOp::Remove { path: path.to_string() }
}

fn strings(items: &[&str]) -> Vec<String> {
    items.iter().map(|s| s.to_string()).collect()
}

#[test]
fn action_by_first_letter() {
    assert_eq!(parse_action("v"), Action::View);
    assert_eq!(parse_action("s"), Action::Skip);
    assert_eq!(parse_action("r"), Action::Remove);
    assert_eq!(parse_action("o"), Action::Overwrite);
    assert_eq!(parse_action("q"), Action::Quit);
}

#[test]
fn action_in_either_case_and_with_more_behind() {
    assert_eq!(parse_action("View\n"), Action::View);
    assert_eq!(parse_action("SKIP"), Action::Skip);
    assert_eq!(parse_action("Remove all\n"), Action::Remove);
    assert_eq!(parse_action("Over"), Action::Overwrite);
    assert_eq!(parse_action("overrwrite"), Action::Overwrite);
    assert_eq!(parse_action("Q\n"), Action::Quit);
    assert_eq!(parse_action("quit"), Action::Quit);
}

#[test]
fn any_other_reply_skips() {
    assert_eq!(parse_action(""), Action::Skip);
    assert_eq!(parse_action("\n"), Action::Skip);
    assert_eq!(parse_action(" v"), Action::Skip);
    assert_eq!(parse_action("x"), Action::Skip);
    assert_eq!(parse_action("1"), Action::Skip);
    assert_eq!(parse_action("éq"), Action::Skip);
}

#[test]
fn actions_agree_with_lower_casing_first() {
    for c in (0..=0x10ffffu32).filter_map(char::from_u32) {
        let reply = format!("{c}x");
        let lower = reply.to_lowercase();
        let expected = if lower.starts_with('v') {
            Action::View
        } else if lower.starts_with('r') {
            Action::Remove
        } else if lower.starts_with('o') {
            Action::Overwrite
        } else if lower.starts_with('q') {
            Action::Quit
        } else {
            Action::Skip
        };
        assert_eq!(parse_action(&reply), expected, "for {c:?}");
    }
}

#[test]
fn removing_deletes_every_backup_file() {
    let r = record("/etc/f", &["/etc/f.pacnew", "/etc/f.pacnew.1", "/etc/f.pacnew.2"]);
    assert_eq!(
        r.plan(Action::Remove),
        vec![remove("/etc/f.pacnew"), remove("/etc/f.pacnew.1"), remove("/etc/f.pacnew.2")]
    );
}

#[test]
fn overwriting_moves_the_last_and_deletes_the_others() {
    let r = record("/etc/f", &["/etc/v1", "/etc/v2"]);
    assert_eq!(
        r.plan(Action::Overwrite),
        vec![FileOp::Rename { from: "/etc/v2".into(), to: "/etc/f".into() }, remove("/etc/v1")]
    );
    let r = record("/etc/f", &["/etc/f.pacnew", "/etc/f.pacnew.1", "/etc/f.pacnew.2"]);
    assert_eq!(
        r.plan(Action::Overwrite),
        vec![
            FileOp::Rename { from: "/etc/f.pacnew.2".into(), to: "/etc/f".into() },
            remove("/etc/f.pacnew"),
            remove("/etc/f.pacnew.1"),
        ]
    );
}

#[test]
fn overwriting_with_a_single_backup_file_only_moves() {
    let r = record("/etc/f", &["/etc/f.pacnew"]);
    assert_eq!(r.plan(Action::Overwrite), vec![FileOp::Rename { from: "/etc/f.pacnew".into(), to: "/etc/f".into() }]);
}

#[test]
fn other_actions_touch_no_file() {
    let r = record("/etc/f", &["/etc/f.pacnew", "/etc/f.pacnew.1"]);
    assert!(r.plan(Action::View).is_empty());
    assert!(r.plan(Action::Skip).is_empty());
    assert!(r.plan(Action::Quit).is_empty());
}

#[test]
fn failure_texts() {
    assert_eq!(remove("/etc/f.pacnew").failure("Permission denied"), "failed to remove '/etc/f.pacnew': Permission denied");
    assert_eq!(
        FileOp::Rename { from: "/etc/f.pacnew".into(), to: "/etc/f".into() }.failure("Read-only file system"),
        "failed to move '/etc/f.pacnew' to '/etc/f': Read-only file system"
    );
}

#[test]
fn diff_program_is_run_directly_without_a_user() {
    let r = record("/etc/f", &["/etc/f.pacnew", "/etc/f.pacnew.1"]);
    assert_eq!(
        r.view_command(&config("vim -d", false, None)),
        Some(Command { program: "vim".into(), args: strings(&["-d", "/etc/f", "/etc/f.pacnew", "/etc/f.pacnew.1"]) })
    );
    assert_eq!(
        r.view_command(&config("  meld  ", false, None)),
        Some(Command { program: "meld".into(), args: strings(&["/etc/f", "/etc/f.pacnew", "/etc/f.pacnew.1"]) })
    );
}

#[test]
fn diff_program_is_run_directly_if_asked_for() {
    let r = record("/etc/f", &["/etc/f.pacnew"]);
    assert_eq!(
        r.view_command(&config("diff\t-u  --color", true, Some("alice"))),
        Some(Command { program: "diff".into(), args: strings(&["-u", "--color", "/etc/f", "/etc/f.pacnew"]) })
    );
}

#[test]
fn sudo_edits_as_the_user() {
    let r = record("/etc/f", &["/etc/f.pacnew", "/etc/f.pacnew.1"]);
    assert_eq!(
        r.view_command(&config("vim -d", false, Some("alice"))),
        Some(Command {
            program: "sudo".into(),
            args: strings(&["SUDO_EDITOR=vim -d", "-u", "alice", "sudo", "-e", "/etc/f", "/etc/f.pacnew", "/etc/f.pacnew.1"]),
        })
    );
    assert_eq!(
        record("/etc/f", &["/etc/f.pacnew"]).view_command(&config("", false, Some("bob"))),
        Some(Command {
            program: "sudo".into(),
            args: strings(&["SUDO_EDITOR=", "-u", "bob", "sudo", "-e", "/etc/f", "/etc/f.pacnew"]),
        })
    );
}

#[test]
fn no_command_without_a_diff_program() {
    let r = record("/etc/f", &["/etc/f.pacnew"]);
    assert_eq!(r.view_command(&config("", false, None)), None);
    assert_eq!(r.view_command(&config(" \t ", true, Some("alice"))), None);
}

#[test]
fn colour_by_word_and_terminal() {
    assert!(wants_colour("always", true));
    assert!(wants_colour("always", false));
    assert!(wants_colour("auto", true));
    assert!(!wants_colour("auto", false));
    assert!(!wants_colour("never", true));
    assert!(!wants_colour("never", false));
    assert!(!wants_colour("", true));
    assert!(!wants_colour("Always", true));
    assert!(!wants_colour("autos", true));
}
