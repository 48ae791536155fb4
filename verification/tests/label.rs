use pacfiles::backup::{Backup, Kind};

fn label(file: &str, pacfiles: &[&str], kind: Kind) -> String {
    Backup::new(
        "pkg".to_string(),
        file.to_string(),
        pacfiles.iter().map(|p| p.to_string()).collect(),
        kind,
    )
    .unwrap()
    .format_pacfiles()
}

#[test]
fn record_needs_a_backup_file() {
    assert!(Backup::new("pkg".into(), "/etc/foo".into(), Vec::new(), Kind::Pacnew).is_none());
    assert!(Backup::new("pkg".into(), "/etc/foo".into(), vec!["x".into()], Kind::Pacnew).is_some());
}

#[test]
fn getters_give_what_was_put_in() {
    let b = Backup::new(
        "pkg".into(),
        "/etc/foo".into(),
        vec!["/etc/foo.pacsave".into(), "/etc/foo.pacsave.1".into()],
        Kind::Pacsave,
    )
    .unwrap();
    assert_eq!(b.package(), "pkg");
    assert_eq!(b.file(), "/etc/foo");
    assert_eq!(b.pacfiles(), &vec!["/etc/foo.pacsave".to_string(), "/etc/foo.pacsave.1".to_string()]);
    assert_eq!(b.kind(), Kind::Pacsave);
}

#[test]
fn single_backup_file_is_shown_by_its_path() {
    assert_eq!(label("/etc/foo.conf", &["/etc/foo.conf.pacnew"], Kind::Pacnew), "/etc/foo.conf.pacnew");
    assert_eq!(label("/etc/foo.conf", &["/etc/foo.conf.pacsave.3"], Kind::Pacsave), "/etc/foo.conf.pacsave.3");
    assert_eq!(label("/etc/foo.conf", &["/elsewhere"], Kind::Pacnew), "/elsewhere");
}

#[test]
fn two_backup_files_of_which_the_first_has_no_stem() {
    assert_eq!(
        label("/etc/foo.conf", &["/etc/foo.conf.pacnew", "/etc/foo.conf.pacnew.2"], Kind::Pacnew),
        "/etc/foo.conf{2}"
    );
}

#[test]
fn several_stems_are_separated() {
    assert_eq!(
        label(
            "/etc/foo.conf",
            &["/etc/foo.conf.pacnew", "/etc/foo.conf.pacnew.2", "/etc/foo.conf.pacnew.10"],
            Kind::Pacnew
        ),
        "/etc/foo.conf{2, 10}"
    );
    assert_eq!(
        label("/etc/f", &["/etc/f.pacsave.1", "/etc/f.pacsave.2", "/etc/f.pacsave.3"], Kind::Pacsave),
        "/etc/f{1, 2, 3}"
    );
}

#[test]
fn last_stem_has_nothing_behind_it() {
    assert_eq!(label("/etc/f", &["/etc/f.pacnew.1", "/etc/f.pacnew"], Kind::Pacnew), "/etc/f{1, }");
    assert_eq!(label("/etc/f", &["/etc/f.pacnew", "/etc/f.pacnew"], Kind::Pacnew), "/etc/f{}");
}

#[test]
fn only_the_suffix_of_the_kind_is_taken_off() {
    assert_eq!(
        label("/etc/f", &["/etc/f.pacsave.1", "/etc/f.pacsave.2"], Kind::Pacnew),
        "/etc/f{pacsave.1, pacsave.2}"
    );
    assert_eq!(
        label("/etc/f", &["/etc/f.pacnew.1", "/etc/f.pacnew.2"], Kind::Pacsave),
        "/etc/f{pacnew.1, pacnew.2}"
    );
}

#[test]
fn repeated_prefixes_are_all_taken_off() {
    assert_eq!(
        label("/a", &["/a/a.pacnew.pacnew.1", "/a.pacnew..2"], Kind::Pacnew),
        "/a{1, 2}"
    );
}

#[test]
fn stem_without_the_tracked_path_in_front() {
    assert_eq!(label("/etc/f", &["/opt/g.pacnew", "/etc/f.pacnewer"], Kind::Pacnew), "/etc/f{/opt/g.pacnew, er}");
}

#[test]
fn stem_of_dots_only_is_left_out() {
    assert_eq!(label("/etc/f", &["/etc/f.pacnew.", "/etc/f.pacnew.2"], Kind::Pacnew), "/etc/f{2}");
}

#[test]
fn empty_tracked_path_takes_nothing_off() {
    assert_eq!(label("", &[".pacnew.1", ".pacnew.2"], Kind::Pacnew), "{1, 2}");
}

#[test]
fn suffixes_of_the_kinds() {
    assert_eq!(Kind::Pacnew.suffix_chars().iter().collect::<String>(), ".pacnew");
    assert_eq!(Kind::Pacsave.suffix_chars().iter().collect::<String>(), ".pacsave");
}
