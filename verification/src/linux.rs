//! The package managers of Linux distributions.

use vstd::prelude::*;
use crate::command::{Invocation, Operation};
use crate::err::{Error, IniError, LookupError};
use crate::command::{command_line, texts, InvocationView};
use crate::lines::slice_of;
use crate::lookup::find_program;
use crate::pkg::{listing, runs_with, PackageManagerImpl};
use crate::sudo::{elevated_view, ElevationHandler};
use crate::normalize::Extraction;
use crate::os_release::{entry, general_entries, general_get, parse_ini, parsed_general, without_bom};
use crate::text::{chars_of, same_text, string_of};

verus! {

/// A supported package-manager backend, named after the distribution family
/// that ships it.
#[derive(Clone, Copy, Debug, PartialEq, Eq, Structural)]
pub enum LinuxDistro {
    /// pacman.
    Arch,
    /// apt and dpkg.
    Debian,
    /// xbps.
    Void,
}

impl LinuxDistro {
    /// The name of the program that carries out `op`.
    pub open spec fn program_name(self, op: Operation) -> Seq<char> {
        match (self, op) {
            (LinuxDistro::Arch, _) => "pacman"@,
            (LinuxDistro::Debian, Operation::ListInstalled) => "dpkg"@,
            (LinuxDistro::Debian, Operation::ListAvailable) => "apt-cache"@,
            (LinuxDistro::Debian, Operation::Install) => "apt"@,
            (LinuxDistro::Debian, Operation::Remove) => "apt"@,
            (LinuxDistro::Debian, Operation::Query) => "apt-cache"@,
            (LinuxDistro::Void, Operation::ListInstalled) => "xbps-query"@,
            (LinuxDistro::Void, Operation::ListAvailable) => "xbps-query"@,
            (LinuxDistro::Void, Operation::Install) => "xbps-install"@,
            (LinuxDistro::Void, Operation::Remove) => "xbps-remove"@,
            (LinuxDistro::Void, Operation::Query) => "xbps-query"@,
        }
    }

    /// The arguments that `op` always starts with.
    pub open spec fn argument_prefix(self, op: Operation) -> Seq<Seq<char>> {
        match (self, op) {
            (LinuxDistro::Arch, Operation::ListInstalled) => seq!["-Q"@, "-q"@],
            (LinuxDistro::Arch, Operation::ListAvailable) => seq!["-S"@, "-l"@, "-q"@],
            (LinuxDistro::Arch, Operation::Install) => seq!["-S"@],
            (LinuxDistro::Arch, Operation::Remove) => seq!["-R"@, "-n"@, "-s"@],
            (LinuxDistro::Arch, Operation::Query) => seq!["-S"@, "-i"@],
            (LinuxDistro::Debian, Operation::ListInstalled) => seq!["--get-selections"@],
            (LinuxDistro::Debian, Operation::ListAvailable) => seq!["pkgnames"@, "--generate"@],
            (LinuxDistro::Debian, Operation::Install) => seq!["install"@],
            (LinuxDistro::Debian, Operation::Remove) => seq!["remove"@],
            (LinuxDistro::Debian, Operation::Query) => seq!["show"@],
            (LinuxDistro::Void, Operation::ListInstalled) => seq!["--search="@],
            (LinuxDistro::Void, Operation::ListAvailable) => seq!["-R"@, "--search="@],
            (LinuxDistro::Void, Operation::Install) => seq!["-S"@],
            (LinuxDistro::Void, Operation::Remove) => seq!["-R"@],
            (LinuxDistro::Void, Operation::Query) => seq!["-R"@, "-S"@],
        }
    }

    /// The program that carries out `op`, by name, and the arguments that
    /// `op` always starts with.
    pub fn operation_command(&self, op: Operation) -> (out: Invocation)
        ensures
            out@.program == self.program_name(op),
            out@.args == self.argument_prefix(op),
            out@.program.len() > 0,
            out@.args.len() > 0,
    {
        proof {
            lemma_operation_command_nonempty(*self, op);
        }
        let out = match (self, op) {
            (LinuxDistro::Arch, Operation::ListInstalled) => Invocation::new(
                "pacman",
                &["-Q", "-q"],
            ),
            (LinuxDistro::Arch, Operation::ListAvailable) => Invocation::new(
                "pacman",
                &["-S", "-l", "-q"],
            ),
            (LinuxDistro::Arch, Operation::Install) => Invocation::new("pacman", &["-S"]),
            (LinuxDistro::Arch, Operation::Remove) => Invocation::new(
                "pacman",
                &["-R", "-n", "-s"],
            ),
            (LinuxDistro::Arch, Operation::Query) => Invocation::new("pacman", &["-S", "-i"]),
            (LinuxDistro::Debian, Operation::ListInstalled) => Invocation::new(
                "dpkg",
                &["--get-selections"],
            ),
            (LinuxDistro::Debian, Operation::ListAvailable) => Invocation::new(
                "apt-cache",
                &["pkgnames", "--generate"],
            ),
            (LinuxDistro::Debian, Operation::Install) => Invocation::new("apt", &["install"]),
            (LinuxDistro::Debian, Operation::Remove) => Invocation::new("apt", &["remove"]),
            (LinuxDistro::Debian, Operation::Query) => Invocation::new("apt-cache", &["show"]),
            (LinuxDistro::Void, Operation::ListInstalled) => Invocation::new(
                "xbps-query",
                &["--search="],
            ),
            (LinuxDistro::Void, Operation::ListAvailable) => Invocation::new(
                "xbps-query",
                &["-R", "--search="],
            ),
            (LinuxDistro::Void, Operation::Install) => Invocation::new("xbps-install", &["-S"]),
            (LinuxDistro::Void, Operation::Remove) => Invocation::new("xbps-remove", &["-R"]),
            (LinuxDistro::Void, Operation::Query) => Invocation::new("xbps-query", &["-R", "-S"]),
        };
        assert(out@.args =~= self.argument_prefix(op));
        out
    }
}

/// Every backend names a program for every operation, and at least one
/// argument that the operation starts with.
pub proof fn lemma_operation_command_nonempty(backend: LinuxDistro, op: Operation)
    ensures
        backend.program_name(op).len() > 0,
        backend.argument_prefix(op).len() > 0,
{
    reveal_strlit("pacman");
    reveal_strlit("dpkg");
    reveal_strlit("apt-cache");
    reveal_strlit("apt");
    reveal_strlit("xbps-query");
    reveal_strlit("xbps-install");
    reveal_strlit("xbps-remove");
}

impl LinuxDistro {
    /// How a package name is taken from a line that `op` prints.
    pub open spec fn spec_extraction(self, op: Operation) -> Extraction {
        match (self, op) {
            (LinuxDistro::Debian, Operation::ListInstalled) => Extraction::FirstWord,
            (LinuxDistro::Void, Operation::ListInstalled) => Extraction::SecondWordStem,
            (LinuxDistro::Void, Operation::ListAvailable) => Extraction::SecondWordStem,
            _ => Extraction::Line,
        }
    }

    /// How a package name is taken from a line that `op` prints: dpkg lists
    /// a package and its state, xbps a state and a package with its version;
    /// the other tools print bare names.
    pub fn extraction(&self, op: Operation) -> (out: Extraction)
        ensures
            out == self.spec_extraction(op),
    {
        match (self, op) {
            (LinuxDistro::Debian, Operation::ListInstalled) => Extraction::FirstWord,
            (LinuxDistro::Void, Operation::ListInstalled) => Extraction::SecondWordStem,
            (LinuxDistro::Void, Operation::ListAvailable) => Extraction::SecondWordStem,
            _ => Extraction::Line,
        }
    }
}

/// The backend of the distribution that identifies itself as `id`.
pub open spec fn distro_of_id(id: Option<Seq<char>>) -> Option<LinuxDistro> {
    match id {
        Some(name) => if name == "debian"@ || name == "pureos"@ || name == "Deepin"@ || name
            == "linuxmint"@ {
            Some(LinuxDistro::Debian)
        } else if name == "arch"@ || name == "manjaro-arm"@ || name == "garuda"@ || name
            == "artix"@ {
            Some(LinuxDistro::Arch)
        } else if name == "void"@ {
            Some(LinuxDistro::Void)
        } else {
            None
        },
        None => None,
    }
}

/// The outcome of a detection that found the backend `found`, or none.
pub open spec fn detection(found: Option<LinuxDistro>) -> Result<LinuxDistro, Error> {
    match found {
        Some(d) => Ok(d),
        None => Err(Error::UnsupportedOS),
    }
}

impl LinuxDistro {
    /// The backend of the distribution that identifies itself as `id`. The
    /// identifiers are told apart letter for letter; an unknown one, or none,
    /// is an unsupported system.
    pub fn from_id(id: Option<&str>) -> (out: Result<LinuxDistro, Error>)
        ensures
            out == detection(
                distro_of_id(
                    match id {
                        Some(name) => Some(name@),
                        None => None,
                    },
                ),
            ),
    {
        match id {
            Some(name) => {
                if same_text(name, "debian") || same_text(name, "pureos") || same_text(
                    name,
                    "Deepin",
                ) || same_text(name, "linuxmint") {
                    Ok(LinuxDistro::Debian)
                } else if same_text(name, "arch") || same_text(name, "manjaro-arm") || same_text(
                    name,
                    "garuda",
                ) || same_text(name, "artix") {
                    Ok(LinuxDistro::Arch)
                } else if same_text(name, "void") {
                    Ok(LinuxDistro::Void)
                } else {
                    Err(Error::UnsupportedOS)
                }
            },
            None => Err(Error::UnsupportedOS),
        }
    }

    /// The backend that the parsed OS identification file names in the field
    /// `ID` of its general section.
    pub fn from_os_release(os_release: &ini::Ini) -> (out: Result<LinuxDistro, Error>)
        ensures
            out == detection(distro_of_id(entry(general_entries(*os_release), "ID"@))),
    {
        match general_get(os_release, "ID") {
            Some(id) => LinuxDistro::from_id(Some(id.as_str())),
            None => LinuxDistro::from_id(None),
        }
    }

    /// The backend that the OS identification file with the content `text`
    /// names. A byte-order mark at the start of `text` is passed over.
    pub fn from_os_release_text(text: &str) -> (out: Result<LinuxDistro, Error>)
        ensures
            match parsed_general(without_bom(text@)) {
                Some(entries) => out == detection(distro_of_id(entry(entries, "ID"@))),
                None => out matches Err(Error::IniLoadFailure(IniError::Parse(_))),
            },
    {
        let chars = chars_of(text);
        let parsed = if chars.len() > 0 && chars[0] == '\u{feff}' {
            let rest = string_of(&slice_of(&chars, 1, chars.len()));
            assert(rest@ =~= without_bom(text@));
            parse_ini(rest.as_str())
        } else {
            parse_ini(text)
        };
        match parsed {
            Ok(doc) => LinuxDistro::from_os_release(&doc),
            Err(e) => Err(Error::IniLoadFailure(IniError::Parse(e))),
        }
    }

    /// The backend of this host. In the sandboxed environment, which has no
    /// OS identification file and whose tools behave as Debian's, that is
    /// Debian, whatever `os_release` holds. Elsewhere `os_release` is the
    /// content of the OS identification file, or `None` where the host has
    /// none, which makes it an unsupported system.
    pub fn try_from_env(sandboxed: bool, os_release: Option<&str>) -> (out: Result<
        LinuxDistro,
        Error,
    >)
        ensures
            sandboxed ==> out == Ok::<LinuxDistro, Error>(LinuxDistro::Debian),
            !sandboxed ==> match os_release {
                None => out == Err::<LinuxDistro, Error>(Error::UnsupportedOS),
                Some(text) => match parsed_general(without_bom(text@)) {
                    Some(entries) => out == detection(distro_of_id(entry(entries, "ID"@))),
                    None => out matches Err(Error::IniLoadFailure(IniError::Parse(_))),
                },
            },
    {
        if sandboxed {
            Ok(LinuxDistro::Debian)
        } else {
            match os_release {
                Some(text) => LinuxDistro::from_os_release_text(text),
                None => Err(Error::UnsupportedOS),
            }
        }
    }
}

impl LinuxDistro {
    /// The command that carries out `op` on `packages`, given what the lookup
    /// of its program gave: the program at the path that was found, the
    /// arguments that `op` always starts with, and then `packages`.
    pub fn command_from_lookup(
        &self,
        op: Operation,
        found: Result<String, LookupError>,
        packages: &[String],
    ) -> (out: Result<Invocation, Error>)
        ensures
            match found {
                Ok(path) => out matches Ok(cmd) && cmd@ == (InvocationView {
                    program: path@,
                    args: self.argument_prefix(op) + texts(packages@),
                }),
                Err(e) => out == Err::<Invocation, Error>(Error::ExecutablePathNotFound(e)),
            },
    {
        match found {
            Ok(path) => Ok(self.operation_command(op).at_path(path).with_trailing(packages)),
            Err(e) => Err(Error::ExecutablePathNotFound(e)),
        }
    }

    /// The command that carries out `op` on `packages` as it is to be run,
    /// given what the lookups gave: `found` for the program of `op`, and
    /// `handler_found` for the program of the handler where the command is to
    /// run under one, `None` where it is not. Without a handler that is the
    /// command of `command_from_lookup`. Under a handler, the program is the
    /// handler at the path that was found, and its arguments are the path of
    /// the program of `op`, the arguments that `op` always starts with, and
    /// `packages`. A program that was not found is reported, that of `op`
    /// first.
    pub fn command_from_lookups(
        &self,
        op: Operation,
        packages: &[String],
        found: Result<String, LookupError>,
        handler_found: Option<Result<String, LookupError>>,
    ) -> (out: Result<Invocation, Error>)
        ensures
            match found {
                Ok(path) => {
                    let plain = InvocationView {
                        program: path@,
                        args: self.argument_prefix(op) + texts(packages@),
                    };
                    match handler_found {
                        None => out matches Ok(cmd) && cmd@ == plain,
                        Some(Ok(handler_path)) => out matches Ok(cmd) && cmd@ == elevated_view(
                            handler_path@,
                            plain,
                        ),
                        Some(Err(e)) => out == Err::<Invocation, Error>(
                            Error::ExecutablePathNotFound(e),
                        ),
                    }
                },
                Err(e) => out == Err::<Invocation, Error>(Error::ExecutablePathNotFound(e)),
            },
    {
        match self.command_from_lookup(op, found, packages) {
            Ok(cmd) => match handler_found {
                Some(lookup) => ElevationHandler::elevate_from_lookup(lookup, cmd),
                None => Ok(cmd),
            },
            Err(e) => Err(e),
        }
    }

    /// The command that carries out `op` on `packages` on the terminal, with
    /// its program resolved on the search path, and with that of the handler
    /// resolved too where the command is to run under one.
    fn interactive_command(
        &self,
        op: Operation,
        packages: &[String],
        elevation: Option<ElevationHandler>,
        sandboxed: bool,
    ) -> (out: Result<Invocation, Error>)
        ensures
            out matches Ok(cmd) ==> runs_with(
                cmd@,
                self.argument_prefix(op) + texts(packages@),
                elevation is Some && !sandboxed,
            ),
            out matches Err(e) ==> e is ExecutablePathNotFound,
    {
        let name = self.operation_command(op).program;
        let found = find_program(name.as_str());
        let handler_found = match ElevationHandler::needed(elevation, sandboxed) {
            Some(handler) => if found.is_ok() {
                Some(find_program(handler.name()))
            } else {
                None
            },
            None => None,
        };
        let out = self.command_from_lookups(op, packages, found, handler_found);
        proof {
            if out is Ok && elevation is Some && !sandboxed {
                assert(out->Ok_0@.args.skip(1) =~= self.argument_prefix(op) + texts(packages@));
            }
        }
        out
    }

    /// The command that carries out `op` on `packages`, with its program
    /// resolved on the search path.
    pub fn command_for(&self, op: Operation, packages: &[String]) -> (out: Result<
        Invocation,
        Error,
    >)
        ensures
            out matches Ok(cmd) ==> cmd@.args == self.argument_prefix(op) + texts(packages@),
            out matches Err(e) ==> e is ExecutablePathNotFound,
    {
        let name = self.operation_command(op).program;
        self.command_from_lookup(op, find_program(name.as_str()), packages)
    }
}

impl PackageManagerImpl for LinuxDistro {
    open spec fn rule_for(&self, op: Operation) -> Extraction {
        self.spec_extraction(op)
    }

    open spec fn prefix_for(&self, op: Operation) -> Seq<Seq<char>> {
        self.argument_prefix(op)
    }

    fn resolved_command(&self, op: Operation) -> (out: Result<Invocation, Error>) {
        let none: Vec<String> = Vec::new();
        let out = self.command_for(op, none.as_slice());
        proof {
            assert(self.argument_prefix(op) + texts(none@) =~= self.argument_prefix(op));
        }
        out
    }

    fn installed_package_list(&self, output: Result<Vec<u8>, std::io::Error>) -> (out: Result<
        Vec<String>,
        Error,
    >) {
        listing(output, self.extraction(Operation::ListInstalled))
    }

    fn available_package_list(&self, output: Result<Vec<u8>, std::io::Error>) -> (out: Result<
        Vec<String>,
        Error,
    >) {
        listing(output, self.extraction(Operation::ListAvailable))
    }

    fn interactive_install(
        &self,
        packages: &[String],
        elevation: Option<ElevationHandler>,
        sandboxed: bool,
    ) -> (out: Result<Invocation, Error>) {
        self.interactive_command(Operation::Install, packages, elevation, sandboxed)
    }

    fn interactive_remove(
        &self,
        packages: &[String],
        elevation: Option<ElevationHandler>,
        sandboxed: bool,
    ) -> (out: Result<Invocation, Error>) {
        self.interactive_command(Operation::Remove, packages, elevation, sandboxed)
    }

    fn package_query_cmd(&self) -> (out: Result<String, Error>) {
        match self.resolved_command(Operation::Query) {
            Ok(cmd) => {
                let line = cmd.command_line();
                assert(line@ == command_line(
                    InvocationView {
                        program: cmd@.program,
                        args: self.argument_prefix(Operation::Query),
                    },
                ));
                Ok(line)
            },
            Err(e) => Err(e),
        }
    }
}

} // verus!
