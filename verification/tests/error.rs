use pacfiles::error::Error;

fn strings(items: &[&str]) -> Vec<String> {
    items.iter().map(|s| s.to_string()).collect()
}

#[test]
fn database_that_cannot_be_opened() {
    assert_eq!(
        Error::AlpmInit("wrong or NULL argument passed".into(), "/".into(), "/var/lib/pacman/".into()).message(),
        "failed to initialize alpm with root=\"/\" dbpath=\"/var/lib/pacman/\": wrong or NULL argument passed"
    );
}

#[test]
fn reasons_are_passed_on() {
    assert_eq!(Error::Alpm("could not find database".into()).message(), "could not find database");
    assert_eq!(Error::Pacmanconf("unknown option".into()).message(), "unknown option");
    assert_eq!(Error::Io("Broken pipe (os error 32)".into()).message(), "Broken pipe (os error 32)");
    assert_eq!(Error::Io(String::new()).message(), "");
}

#[test]
fn command_that_ended_without_success() {
    assert_eq!(
        Error::CommandNonZero("vim".into(), strings(&["-d", "/etc/f", "/etc/f.pacnew"]), Some(1)).message(),
        "command failed: exited 1: 'vim -d /etc/f /etc/f.pacnew'"
    );
    assert_eq!(
        Error::CommandNonZero("diff".into(), strings(&["a"]), Some(-2)).message(),
        "command failed: exited -2: 'diff a'"
    );
    assert_eq!(
        Error::CommandNonZero("x".into(), Vec::new(), Some(0)).message(),
        "command failed: exited 0: 'x '"
    );
}

#[test]
fn exit_codes_at_the_limits() {
    assert_eq!(
        Error::CommandNonZero("x".into(), strings(&["y"]), Some(i32::MIN)).message(),
        "command failed: exited -2147483648: 'x y'"
    );
    assert_eq!(
        Error::CommandNonZero("x".into(), strings(&["y"]), Some(i32::MAX)).message(),
        "command failed: exited 2147483647: 'x y'"
    );
}

#[test]
fn command_that_a_signal_ended() {
    assert_eq!(
        Error::CommandNonZero("sudo".into(), strings(&["-e", "/etc/f"]), None).message(),
        "command failed: exited terminated by signal: 'sudo -e /etc/f'"
    );
}

#[test]
fn command_that_could_not_be_run() {
    assert_eq!(
        Error::CommandFailed("meld".into(), strings(&["/etc/f", "/etc/f.pacnew"]), "No such file or directory (os error 2)".into())
            .message(),
        "command failed: 'meld /etc/f /etc/f.pacnew': No such file or directory (os error 2)"
    );
}
