//! The errors every other module reports.

use vstd::prelude::*;

verus! {

/// `std::io::Error`, carried through unread.
#[verifier::external_type_specification]
#[verifier::external_body]
pub struct ExIoError(std::io::Error);

/// `std::string::FromUtf8Error`, carried through unread.
#[verifier::external_type_specification]
#[verifier::external_body]
pub struct ExFromUtf8Error(std::string::FromUtf8Error);

/// `ini::ParseError`, carried through unread.
#[verifier::external_type_specification]
#[verifier::external_body]
pub struct ExIniParseError(ini::ParseError);

/// Why a program name did not resolve to an executable.
#[derive(Clone, Copy, Debug, PartialEq, Eq, Structural)]
pub enum LookupError {
    /// No executable of that name was found.
    CannotFindBinaryPath,
    /// There was nowhere to search and the name was not an absolute path.
    CannotGetCurrentDirAndPathListEmpty,
    /// The path that was found could not be made canonical.
    CannotCanonicalize,
    /// The path that was found is not Unicode text, so it cannot stand among
    /// the arguments of a command.
    PathNotText,
}

/// Why the OS identification file could not be loaded.
#[derive(Debug)]
pub enum IniError {
    /// The file could not be read.
    Io(std::io::Error),
    /// The text is not a well-formed INI document.
    Parse(ini::ParseError),
}

/// Why an operation could not be carried out.
#[derive(Debug)]
pub enum Error {
    /// The output of a command could not be read.
    CommandOutputGet(std::io::Error),
    /// The output of a command is not UTF-8.
    CommandOutputParse(std::string::FromUtf8Error),
    /// A program is not on the search path.
    ExecutablePathNotFound(LookupError),
    /// No supported package manager belongs to this host.
    UnsupportedOS,
    /// The OS identification file could not be loaded.
    IniLoadFailure(IniError),
    /// No privilege-escalation program is available.
    ElevationFailed,
    /// The name asked for is not that of a known privilege-escalation program.
    UnrecognizedElevationHandlerName(String),
}

pub type Result<T> = std::result::Result<T, Error>;

} // verus!
