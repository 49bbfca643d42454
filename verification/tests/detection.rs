use x_super::err::{Error, IniError};
use x_super::linux::LinuxDistro;
use x_super::os_release::OS_RELEASE_PATH;
use x_super::pkg::new_package_manager;

#[test]
fn unknown_identifier_is_unsupported() {
    let out = LinuxDistro::try_from_env(false, Some("NAME=Unknown\nID=unknownos\n"));
    assert!(matches!(out, Err(Error::UnsupportedOS)));
    assert!(matches!(LinuxDistro::from_id(Some("unknownos")), Err(Error::UnsupportedOS)));
}

#[test]
fn missing_file_is_unsupported() {
    assert!(matches!(LinuxDistro::try_from_env(false, None), Err(Error::UnsupportedOS)));
    assert!(matches!(new_package_manager(false, None), Err(Error::UnsupportedOS)));
}

#[test]
fn missing_identifier_is_unsupported() {
    assert!(matches!(LinuxDistro::from_os_release_text("NAME=Debian\n"), Err(Error::UnsupportedOS)));
    assert!(matches!(LinuxDistro::from_os_release_text(""), Err(Error::UnsupportedOS)));
    assert!(matches!(LinuxDistro::from_id(None), Err(Error::UnsupportedOS)));
}

#[test]
fn identifier_in_a_section_does_not_count() {
    let out = LinuxDistro::from_os_release_text("[release]\nID=debian\n");
    assert!(matches!(out, Err(Error::UnsupportedOS)));
}

#[test]
fn sandbox_is_debian_whatever_the_file_says() {
    assert_eq!(LinuxDistro::try_from_env(true, None).unwrap(), LinuxDistro::Debian);
    assert_eq!(LinuxDistro::try_from_env(true, Some("ID=arch\n")).unwrap(), LinuxDistro::Debian);
    assert_eq!(LinuxDistro::try_from_env(true, Some("[broken")).unwrap(), LinuxDistro::Debian);
    assert_eq!(new_package_manager(true, None).unwrap(), LinuxDistro::Debian);
}

#[test]
fn identifiers_map_to_backends() {
    for id in ["debian", "pureos", "Deepin", "linuxmint"] {
        assert_eq!(LinuxDistro::from_id(Some(id)).unwrap(), LinuxDistro::Debian);
    }
    for id in ["arch", "manjaro-arm", "garuda", "artix"] {
        assert_eq!(LinuxDistro::from_id(Some(id)).unwrap(), LinuxDistro::Arch);
    }
    assert_eq!(LinuxDistro::from_id(Some("void")).unwrap(), LinuxDistro::Void);
}

#[test]
fn identifiers_are_matched_letter_for_letter() {
    for id in ["Debian", "deepin", "ARCH", "void ", "", "opensuse", "manjaro"] {
        assert!(matches!(LinuxDistro::from_id(Some(id)), Err(Error::UnsupportedOS)));
    }
}

#[test]
fn identifier_is_read_from_the_file() {
    let text = "PRETTY_NAME=\"Debian GNU/Linux 12 (bookworm)\"\nNAME=\"Debian GNU/Linux\"\nID=debian\nHOME_URL=\"https://www.debian.org/\"\n";
    assert_eq!(LinuxDistro::try_from_env(false, Some(text)).unwrap(), LinuxDistro::Debian);
    assert_eq!(LinuxDistro::from_os_release_text("ID=arch").unwrap(), LinuxDistro::Arch);
    assert_eq!(LinuxDistro::from_os_release_text("ID = void\n").unwrap(), LinuxDistro::Void);
    assert_eq!(new_package_manager(false, Some("ID=artix\n")).unwrap(), LinuxDistro::Arch);
}

#[test]
fn quoted_identifier_is_read_without_its_quotes() {
    assert_eq!(LinuxDistro::from_os_release_text("ID=\"void\"\n").unwrap(), LinuxDistro::Void);
}

#[test]
fn first_identifier_counts() {
    assert_eq!(LinuxDistro::from_os_release_text("ID=void\nID=arch\n").unwrap(), LinuxDistro::Void);
}

#[test]
fn byte_order_mark_is_passed_over() {
    assert_eq!(LinuxDistro::from_os_release_text("\u{feff}ID=void\n").unwrap(), LinuxDistro::Void);
    assert!(matches!(LinuxDistro::from_os_release_text("\u{feff}"), Err(Error::UnsupportedOS)));
}

#[test]
fn malformed_file_is_a_load_failure() {
    let out = LinuxDistro::from_os_release_text("=debian\n");
    assert!(matches!(out, Err(Error::IniLoadFailure(IniError::Parse(_)))));
    let out = LinuxDistro::try_from_env(false, Some("[section\nID=debian\n"));
    assert!(matches!(out, Err(Error::IniLoadFailure(IniError::Parse(_)))));
}

#[test]
fn parsed_document_names_the_backend() {
    let doc = ini::Ini::load_from_str("ID=manjaro-arm\n[s]\nID=debian\n").unwrap();
    assert_eq!(LinuxDistro::from_os_release(&doc).unwrap(), LinuxDistro::Arch);
    let doc = ini::Ini::load_from_str("[s]\nID=debian\n").unwrap();
    assert!(matches!(LinuxDistro::from_os_release(&doc), Err(Error::UnsupportedOS)));
    let mut doc = ini::Ini::new();
    doc.with_general_section().set("ID", "pureos");
    assert_eq!(LinuxDistro::from_os_release(&doc).unwrap(), LinuxDistro::Debian);
    doc.delete(None::<String>);
    assert!(matches!(LinuxDistro::from_os_release(&doc), Err(Error::UnsupportedOS)));
}

#[test]
fn identification_file_path() {
    assert_eq!(OS_RELEASE_PATH, "/etc/os-release");
}
