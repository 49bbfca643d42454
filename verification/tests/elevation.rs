use x_super::command::{Invocation, Operation};
use x_super::err::{Error, LookupError};
use x_super::linux::LinuxDistro;
use x_super::pkg::{elevate_if_needed, PackageManagerImpl};
use x_super::sudo::ElevationHandler;

const HANDLERS: [ElevationHandler; 5] = [
    ElevationHandler::Doas,
    ElevationHandler::Sudo,
    ElevationHandler::Gsudo,
    ElevationHandler::Pkexec,
    ElevationHandler::Please,
];

fn strings(v: &[&str]) -> Vec<String> {
    v.iter().map(|s| s.to_string()).collect()
}

fn found(path: &str) -> Result<String, LookupError> {
    Ok(path.to_string())
}

fn missing() -> Result<String, LookupError> {
    Err(LookupError::CannotFindBinaryPath)
}

#[test]
fn doas_is_preferred_to_sudo() {
    let out = ElevationHandler::from_lookups(found("/bin/doas"), found("/bin/sudo"), missing(), missing(), missing());
    assert_eq!(out.unwrap(), ElevationHandler::Doas);
    let out = ElevationHandler::from_lookups(
        found("/bin/doas"),
        found("/bin/sudo"),
        found("/bin/gsudo"),
        found("/bin/pkexec"),
        found("/bin/please"),
    );
    assert_eq!(out.unwrap(), ElevationHandler::Doas);
}

#[test]
fn the_first_handler_found_is_taken() {
    let out = ElevationHandler::from_lookups(missing(), found("s"), missing(), found("p"), missing());
    assert_eq!(out.unwrap(), ElevationHandler::Sudo);
    let out = ElevationHandler::from_lookups(missing(), missing(), found("g"), found("p"), found("q"));
    assert_eq!(out.unwrap(), ElevationHandler::Gsudo);
    let out = ElevationHandler::from_lookups(missing(), missing(), missing(), found("p"), found("q"));
    assert_eq!(out.unwrap(), ElevationHandler::Pkexec);
    let out = ElevationHandler::from_lookups(missing(), missing(), missing(), missing(), found("q"));
    assert_eq!(out.unwrap(), ElevationHandler::Please);
}

#[test]
fn no_handler_found_is_a_failed_elevation() {
    let out = ElevationHandler::from_lookups(
        missing(),
        missing(),
        missing(),
        missing(),
        Err(LookupError::CannotGetCurrentDirAndPathListEmpty),
    );
    assert!(matches!(out, Err(Error::ElevationFailed)));
}

#[test]
fn handler_of_this_host() {
    let out = ElevationHandler::try_from_env();
    assert!(matches!(out, Ok(_) | Err(Error::ElevationFailed)));
    let out = ElevationHandler::detect_or_override(None);
    assert!(matches!(out, Ok(_) | Err(Error::ElevationFailed)));
}

#[test]
fn override_is_matched_without_regard_to_case() {
    assert_eq!(ElevationHandler::try_from("SUDO".to_string()).unwrap(), ElevationHandler::Sudo);
    assert_eq!(ElevationHandler::try_from("DoAs".to_string()).unwrap(), ElevationHandler::Doas);
    assert_eq!(ElevationHandler::try_from("gsudo".to_string()).unwrap(), ElevationHandler::Gsudo);
    assert_eq!(ElevationHandler::try_from("PkExec".to_string()).unwrap(), ElevationHandler::Pkexec);
    assert_eq!(ElevationHandler::try_from("PLEASE".to_string()).unwrap(), ElevationHandler::Please);
    assert_eq!(
        ElevationHandler::detect_or_override(Some("SUDO".to_string())).unwrap(),
        ElevationHandler::Sudo
    );
}

#[test]
fn override_with_an_unknown_name_is_rejected() {
    for name in ["su", "", "sudo ", "doas\n", "sudoo"] {
        match ElevationHandler::try_from(name.to_string()) {
            Err(Error::UnrecognizedElevationHandlerName(n)) => assert_eq!(n, name),
            other => panic!("{:?}", other),
        }
    }
    assert!(matches!(
        ElevationHandler::detect_or_override(Some("Runas".to_string())),
        Err(Error::UnrecognizedElevationHandlerName(_))
    ));
}

#[test]
fn lowercase_names_are_matched_exactly() {
    assert_eq!(ElevationHandler::from_lowercase("doas"), Some(ElevationHandler::Doas));
    assert_eq!(ElevationHandler::from_lowercase("please"), Some(ElevationHandler::Please));
    assert_eq!(ElevationHandler::from_lowercase("SUDO"), None);
    assert_eq!(ElevationHandler::from_lowercase(""), None);
}

#[test]
fn handler_names_round_trip() {
    let names = ["doas", "sudo", "gsudo", "pkexec", "please"];
    for (h, n) in HANDLERS.iter().zip(names) {
        assert_eq!(h.name(), n);
        assert_eq!(h.to_string(), n);
        assert_eq!(ElevationHandler::try_from(h.to_string()).unwrap(), *h);
    }
}

#[test]
fn elevation_follows_the_platform() {
    for h in HANDLERS {
        assert!(h.should_elevate(false));
        assert!(!h.should_elevate(true));
    }
}

#[test]
fn elevated_command_keeps_program_and_arguments() {
    let given = Invocation::new("apt", &["install", "vim"]);
    let cmd = ElevationHandler::elevated("sudo".to_string(), given);
    assert_eq!(cmd.program, "sudo");
    assert_eq!(cmd.args, strings(&["apt", "install", "vim"]));
}

#[test]
fn elevated_command_does_not_quote() {
    let given = Invocation::new("/usr/bin/apt", &["install", "a b", "$(reboot)", "x;y", "'q'"]);
    let cmd = ElevationHandler::elevated("/usr/bin/doas".to_string(), given);
    assert_eq!(cmd.program, "/usr/bin/doas");
    assert_eq!(cmd.args, strings(&["/usr/bin/apt", "install", "a b", "$(reboot)", "x;y", "'q'"]));
}

#[test]
fn elevation_from_a_lookup() {
    let given = Invocation::new("/usr/bin/apt", &["install", "vim"]);
    let cmd = ElevationHandler::elevate_from_lookup(found("/usr/bin/sudo"), given).unwrap();
    assert_eq!(cmd.program, "/usr/bin/sudo");
    assert_eq!(cmd.args, strings(&["/usr/bin/apt", "install", "vim"]));
    let out = ElevationHandler::elevate_from_lookup(missing(), Invocation::new("apt", &[]));
    assert!(matches!(out, Err(Error::ExecutablePathNotFound(LookupError::CannotFindBinaryPath))));
}

#[test]
fn the_handler_is_needed_outside_the_sandbox() {
    for h in HANDLERS {
        assert_eq!(ElevationHandler::needed(Some(h), false), Some(h));
        assert_eq!(ElevationHandler::needed(Some(h), true), None);
    }
    assert_eq!(ElevationHandler::needed(None, false), None);
    assert_eq!(ElevationHandler::needed(None, true), None);
}

#[test]
fn install_under_sudo_on_debian() {
    let cmd = LinuxDistro::Debian
        .command_from_lookups(
            Operation::Install,
            &strings(&["vim", "zsh"]),
            found("/usr/bin/apt"),
            Some(found("/usr/bin/sudo")),
        )
        .unwrap();
    assert_eq!(cmd.program, "/usr/bin/sudo");
    assert_eq!(cmd.args, strings(&["/usr/bin/apt", "install", "vim", "zsh"]));
}

#[test]
fn remove_under_doas_on_arch() {
    let cmd = LinuxDistro::Arch
        .command_from_lookups(
            Operation::Remove,
            &strings(&["vim"]),
            found("/usr/bin/pacman"),
            Some(found("/usr/bin/doas")),
        )
        .unwrap();
    assert_eq!(cmd.program, "/usr/bin/doas");
    assert_eq!(cmd.args, strings(&["/usr/bin/pacman", "-R", "-n", "-s", "vim"]));
}

#[test]
fn command_from_lookups_without_a_handler() {
    let cmd = LinuxDistro::Void
        .command_from_lookups(Operation::Install, &strings(&["vim"]), found("/usr/bin/xbps-install"), None)
        .unwrap();
    assert_eq!(cmd.program, "/usr/bin/xbps-install");
    assert_eq!(cmd.args, strings(&["-S", "vim"]));
}

#[test]
fn command_from_lookups_reports_what_was_not_found() {
    let out = LinuxDistro::Debian.command_from_lookups(
        Operation::Install,
        &strings(&["vim"]),
        Err(LookupError::CannotCanonicalize),
        Some(missing()),
    );
    assert!(matches!(out, Err(Error::ExecutablePathNotFound(LookupError::CannotCanonicalize))));
    let out = LinuxDistro::Debian.command_from_lookups(
        Operation::Install,
        &strings(&["vim"]),
        found("/usr/bin/apt"),
        Some(Err(LookupError::PathNotText)),
    );
    assert!(matches!(out, Err(Error::ExecutablePathNotFound(LookupError::PathNotText))));
}

#[test]
fn elevated_command_without_arguments() {
    let cmd = ElevationHandler::elevated("please".to_string(), Invocation::new("true", &[]));
    assert_eq!(cmd.args, strings(&["true"]));
}

#[test]
fn elevate_cmd_puts_the_handler_first() {
    let given = Invocation::new("apt", &["install", "vim"]);
    match ElevationHandler::Sudo.elevate_cmd(given) {
        Ok(cmd) => {
            assert!(cmd.program.ends_with("sudo"));
            assert_eq!(cmd.args, strings(&["apt", "install", "vim"]));
        }
        Err(e) => assert!(matches!(e, Error::ExecutablePathNotFound(_))),
    }
}

#[test]
fn no_elevation_without_a_handler_or_in_the_sandbox() {
    let cmd = elevate_if_needed(Invocation::new("apt", &["remove", "vim"]), None, false).unwrap();
    assert_eq!((cmd.program.as_str(), cmd.args), ("apt", strings(&["remove", "vim"])));
    let cmd = elevate_if_needed(Invocation::new("apt", &["remove"]), Some(ElevationHandler::Sudo), true).unwrap();
    assert_eq!((cmd.program.as_str(), cmd.args), ("apt", strings(&["remove"])));
    let cmd = elevate_if_needed(Invocation::new("apt", &[]), None, true).unwrap();
    assert_eq!((cmd.program.as_str(), cmd.args), ("apt", strings(&[])));
}

#[test]
fn interactive_commands_end_with_the_packages() {
    let packages = strings(&["vim", "zsh"]);
    match LinuxDistro::Debian.interactive_install(&packages, None, false) {
        Ok(cmd) => assert_eq!(cmd.args, strings(&["install", "vim", "zsh"])),
        Err(e) => assert!(matches!(e, Error::ExecutablePathNotFound(_))),
    }
    match LinuxDistro::Arch.interactive_remove(&packages, Some(ElevationHandler::Doas), true) {
        Ok(cmd) => assert_eq!(cmd.args, strings(&["-R", "-n", "-s", "vim", "zsh"])),
        Err(e) => assert!(matches!(e, Error::ExecutablePathNotFound(_))),
    }
    match LinuxDistro::Void.interactive_install(&packages, Some(ElevationHandler::Sudo), false) {
        Ok(cmd) => assert_eq!(cmd.args[1..], strings(&["-S", "vim", "zsh"])[..]),
        Err(e) => assert!(matches!(e, Error::ExecutablePathNotFound(_))),
    }
    match LinuxDistro::Arch.package_query_cmd() {
        Ok(line) => assert!(line.ends_with(" -S -i")),
        Err(e) => assert!(matches!(e, Error::ExecutablePathNotFound(_))),
    }
    match LinuxDistro::Void.resolved_command(Operation::ListAvailable) {
        Ok(cmd) => assert_eq!(cmd.args, strings(&["-R", "--search="])),
        Err(e) => assert!(matches!(e, Error::ExecutablePathNotFound(_))),
    }
}
