//! What a caller asks of a package manager.
//!
//! The library never starts a process. An operation that needs one comes in
//! two halves: the command to run, and what its outcome means.

use vstd::prelude::*;
use vstd::slice::slice_to_vec;
use vstd::string::StringExecFns;
use vstd::utf8::{decode_utf8, valid_utf8};
use crate::command::{command_line, texts, Invocation, InvocationView, Operation};
use crate::distro::{candidate, candidate_binary, distro_binary_map, first_present, Distro};
use crate::err::{Error, IniError};
use crate::linux::{detection, distro_of_id, LinuxDistro};
use crate::os_release::{entry, parsed_general, without_bom};
use crate::normalize::{normalize_bytes, normalized, Extraction};
use crate::sorted::strictly_sorted;
use crate::sudo::ElevationHandler;

verus! {

/// What running a command gave, or why it could not be run, as the caller
/// is to see it: a failure to run is reported as such, whatever else holds.
pub fn command_outcome<T>(ran: Result<T, std::io::Error>) -> (out: Result<T, Error>)
    ensures
        match ran {
            Ok(v) => out == Ok::<T, Error>(v),
            Err(e) => out == Err::<T, Error>(Error::CommandOutputGet(e)),
        },
{
    match ran {
        Ok(v) => Ok(v),
        Err(e) => Err(Error::CommandOutputGet(e)),
    }
}

/// `out` is the list of package names that a listing command's outcome
/// `output` stands for under `rule`: the names in what the command printed,
/// sorted, each once, or the report that it could not be run or did not print UTF-8. How the
/// command ended is not part of its outcome.
pub open spec fn is_listing(
    output: Result<Vec<u8>, std::io::Error>,
    rule: Extraction,
    out: Result<Vec<String>, Error>,
) -> bool {
    match output {
        Ok(bytes) => {
            &&& out is Ok <==> valid_utf8(bytes@)
            &&& out matches Ok(names) ==> texts(names@) == normalized(decode_utf8(bytes@), rule)
            &&& out matches Ok(names) ==> strictly_sorted(texts(names@))
            &&& out matches Err(e) ==> e is CommandOutputParse
        },
        Err(e) => out == Err::<Vec<String>, Error>(Error::CommandOutputGet(e)),
    }
}

/// The list of package names that a listing command's outcome stands for.
pub fn listing(output: Result<Vec<u8>, std::io::Error>, rule: Extraction) -> (out: Result<
    Vec<String>,
    Error,
>)
    ensures
        is_listing(output, rule, out),
{
    match output {
        Ok(bytes) => normalize_bytes(bytes, rule),
        Err(e) => Err(Error::CommandOutputGet(e)),
    }
}

/// `cmd` runs a program with the arguments `plain`, under a handler where
/// `elevate` holds: then the handler is the program of `cmd`, and the program
/// that was to run is its first argument.
pub open spec fn runs_with(cmd: InvocationView, plain: Seq<Seq<char>>, elevate: bool) -> bool {
    if elevate {
        cmd.args.len() == plain.len() + 1 && cmd.args.skip(1) == plain
    } else {
        cmd.args == plain
    }
}

/// `line` is a program and then `args`, with single spaces between them.
pub open spec fn is_command_line(line: Seq<char>, args: Seq<Seq<char>>) -> bool {
    exists|program: Seq<char>| line == command_line(InvocationView { program, args })
}

/// A package manager, as the front end sees it.
pub trait PackageManagerImpl {
    /// How a package name is taken from a line that `op` prints.
    spec fn rule_for(&self, op: Operation) -> Extraction;

    /// The arguments that `op` always starts with.
    spec fn prefix_for(&self, op: Operation) -> Seq<Seq<char>>;

    /// The command that carries out `op`, with its program resolved on the
    /// search path and the arguments that `op` always starts with.
    fn resolved_command(&self, op: Operation) -> (out: Result<Invocation, Error>)
        ensures
            out matches Ok(cmd) ==> cmd@.args == self.prefix_for(op),
            out matches Err(e) ==> e is ExecutablePathNotFound,
    ;

    /// The installed packages, from the outcome of the command that lists
    /// them.
    fn installed_package_list(&self, output: Result<Vec<u8>, std::io::Error>) -> (out: Result<
        Vec<String>,
        Error,
    >)
        ensures
            is_listing(output, self.rule_for(Operation::ListInstalled), out),
    ;

    /// The packages that can be installed, from the outcome of the command
    /// that lists them.
    fn available_package_list(&self, output: Result<Vec<u8>, std::io::Error>) -> (out: Result<
        Vec<String>,
        Error,
    >)
        ensures
            is_listing(output, self.rule_for(Operation::ListAvailable), out),
    ;

    /// The command that installs `packages`, to be run on the terminal. It
    /// runs under `elevation` where a handler is given and the host asks for
    /// elevated rights.
    fn interactive_install(
        &self,
        packages: &[String],
        elevation: Option<ElevationHandler>,
        sandboxed: bool,
    ) -> (out: Result<Invocation, Error>)
        ensures
            out matches Ok(cmd) ==> runs_with(
                cmd@,
                self.prefix_for(Operation::Install) + texts(packages@),
                elevation is Some && !sandboxed,
            ),
            out matches Err(e) ==> e is ExecutablePathNotFound,
    ;

    /// The command that removes `packages`, to be run on the terminal. It
    /// runs under `elevation` where a handler is given and the host asks for
    /// elevated rights.
    fn interactive_remove(
        &self,
        packages: &[String],
        elevation: Option<ElevationHandler>,
        sandboxed: bool,
    ) -> (out: Result<Invocation, Error>)
        ensures
            out matches Ok(cmd) ==> runs_with(
                cmd@,
                self.prefix_for(Operation::Remove) + texts(packages@),
                elevation is Some && !sandboxed,
            ),
            out matches Err(e) ==> e is ExecutablePathNotFound,
    ;

    /// The command that describes a package, as one line of text to which
    /// the package's name is to be added.
    fn package_query_cmd(&self) -> (out: Result<String, Error>)
        ensures
            out matches Ok(line) ==> is_command_line(line@, self.prefix_for(Operation::Query)),
            out matches Err(e) ==> e is ExecutablePathNotFound,
    ;
}

/// The package manager of this host: see `LinuxDistro::try_from_env`.
pub fn new_package_manager(sandboxed: bool, os_release: Option<&str>) -> (out: Result<
    LinuxDistro,
    Error,
>)
    ensures
        sandboxed ==> out == Ok::<LinuxDistro, Error>(LinuxDistro::Debian),
        !sandboxed ==> match os_release {
            None => out == Err::<LinuxDistro, Error>(Error::UnsupportedOS),
            Some(text) => match parsed_general(without_bom(text@)) {
                Some(entries) => out == detection(distro_of_id(entry(entries, "ID"@))),
                None => out matches Err(Error::IniLoadFailure(IniError::Parse(_))),
            },
        },
{
    LinuxDistro::try_from_env(sandboxed, os_release)
}

/// The command `cmd` as it is to be run: under the handler `elevation` where
/// one is given and the host asks for elevated rights, else as it is. Under
/// a handler, the handler is the program, and its arguments are the program
/// of `cmd` and then the arguments of `cmd`.
pub fn elevate_if_needed(
    cmd: Invocation,
    elevation: Option<ElevationHandler>,
    sandboxed: bool,
) -> (out: Result<Invocation, Error>)
    ensures
        elevation is None || sandboxed ==> out == Ok::<Invocation, Error>(cmd),
        elevation is Some && !sandboxed ==> (out matches Ok(run) ==> run@.args == seq![
            cmd@.program,
        ] + cmd@.args),
        out matches Ok(run) ==> runs_with(run@, cmd@.args, elevation is Some && !sandboxed),
        out matches Err(e) ==> e is ExecutablePathNotFound,
{
    match ElevationHandler::needed(elevation, sandboxed) {
        Some(handler) => {
            let ghost plain = cmd@.args;
            let out = handler.elevate_cmd(cmd);
            proof {
                if out is Ok {
                    assert(out->Ok_0@.args.skip(1) =~= plain);
                }
            }
            out
        },
        None => Ok(cmd),
    }
}

/// The text that the selector runs to describe the entry under its cursor:
/// `query` and the placeholder `{}`, which the selector replaces with that
/// entry.
pub open spec fn preview_template(query: Seq<char>) -> Seq<char> {
    query + seq![' ', '{', '}']
}

/// The text that the selector runs to describe the entry under its cursor.
pub fn preview_command(query: &str) -> (out: String)
    ensures
        out@ == preview_template(query@),
{
    let mut out = String::from_str(query);
    out.push(' ');
    out.push('{');
    out.push('}');
    assert(out@ =~= preview_template(query@));
    out
}

/// The package manager that was found on a host by the program it
/// installs, with the path of that program.
pub struct PackageManager {
    distro: Distro,
    binary: String,
}

/// A `PackageManager` as plain values.
pub struct PackageManagerView {
    pub distro: Distro,
    pub binary: Seq<char>,
}

impl View for PackageManager {
    type V = PackageManagerView;

    closed spec fn view(&self) -> PackageManagerView {
        PackageManagerView { distro: self.distro, binary: self.binary@ }
    }
}

impl PackageManagerView {
    /// The program that carries out `op`.
    pub open spec fn program(self, op: Operation) -> Seq<char> {
        match (self.distro, op) {
            (Distro::Debian, Operation::ListInstalled) => "dpkg"@,
            (Distro::Debian, Operation::ListAvailable) => "apt-cache"@,
            (Distro::Debian, Operation::Query) => "apt-cache"@,
            _ => self.binary,
        }
    }

    /// The arguments that `op` always starts with.
    pub open spec fn prefix(self, op: Operation) -> Seq<Seq<char>> {
        match (self.distro, op) {
            (Distro::Debian, Operation::ListInstalled) => seq!["--get-selections"@],
            (Distro::Debian, Operation::ListAvailable) => seq!["pkgnames"@, "--generate"@],
            (Distro::Debian, Operation::Install) => seq!["install"@],
            (Distro::Debian, Operation::Remove) => seq!["remove"@],
            (Distro::Debian, Operation::Query) => seq!["show"@],
            (_, Operation::ListInstalled) => seq!["-Q"@, "-q"@],
            (_, Operation::ListAvailable) => seq!["-S"@, "-l"@, "-q"@],
            (_, Operation::Install) => seq!["-S"@],
            (_, Operation::Remove) => seq!["-R"@, "-n"@, "-s"@],
            (_, Operation::Query) => seq!["-Si"@],
        }
    }

    /// How a package name is taken from a line that `op` prints.
    pub open spec fn rule(self, op: Operation) -> Extraction {
        match (self.distro, op) {
            (Distro::Debian, Operation::ListInstalled) => Extraction::FirstWord,
            _ => Extraction::Line,
        }
    }

    /// `out` is the command that carries out `op` on `packages`, or the
    /// report that the commands of this package manager are not known.
    pub open spec fn is_command(
        self,
        op: Operation,
        packages: Seq<Seq<char>>,
        out: Result<Invocation, Error>,
    ) -> bool {
        if self.distro.has_commands() {
            &&& out is Ok
            &&& out->Ok_0@.program == self.program(op)
            &&& out->Ok_0@.args == self.prefix(op) + packages
        } else {
            out == Err::<Invocation, Error>(Error::UnsupportedOS)
        }
    }

    /// `out` is the list of package names that the outcome `output` of the
    /// command for `op` stands for, or the report that the commands of this
    /// package manager are not known.
    pub open spec fn is_list(
        self,
        op: Operation,
        output: Result<Vec<u8>, std::io::Error>,
        out: Result<Vec<String>, Error>,
    ) -> bool {
        if self.distro.has_commands() {
            is_listing(output, self.rule(op), out)
        } else {
            out == Err::<Vec<String>, Error>(Error::UnsupportedOS)
        }
    }
}

impl PackageManager {
    /// The package manager of this host: the first candidate of
    /// `distro_binary_map` whose program is present, where `present[i]` says
    /// whether the program of candidate `i` exists. A host with none of them
    /// is not supported.
    pub fn init(sandboxed: bool, present: &[bool]) -> (out: Result<PackageManager, Error>)
        ensures
            match first_present(present@) {
                Some(i) => out is Ok && out->Ok_0@ == (PackageManagerView {
                    distro: candidate(i),
                    binary: candidate_binary(i, sandboxed),
                }),
                None => out == Err::<PackageManager, Error>(Error::UnsupportedOS),
            },
    {
        match Distro::try_from_env(present) {
            Some(distro) => {
                let map = distro_binary_map(sandboxed);
                let i: usize = match distro {
                    Distro::Void => 0,
                    Distro::Arch => 1,
                    Distro::Debian => 2,
                    Distro::OpenSuse => 3,
                };
                Ok(PackageManager { distro, binary: map[i].1.clone() })
            },
            None => Err(Error::UnsupportedOS),
        }
    }

    /// The lines of the output `output` of a command, sorted, each once.
    pub fn output_adapter_with_dedup(output: &[u8]) -> (out: Result<Vec<String>, Error>)
        ensures
            out is Ok <==> valid_utf8(output@),
            out matches Ok(lines) ==> texts(lines@) == normalized(
                decode_utf8(output@),
                Extraction::Line,
            ),
            out matches Ok(lines) ==> strictly_sorted(texts(lines@)),
            out matches Err(e) ==> e is CommandOutputParse,
    {
        normalize_bytes(slice_to_vec(output), Extraction::Line)
    }

    /// The package manager.
    pub fn distro(&self) -> (out: Distro)
        ensures
            out == self@.distro,
    {
        self.distro
    }

    /// The path of the package manager's program.
    pub fn binary(&self) -> (out: &str)
        ensures
            out@ == self@.binary,
    {
        self.binary.as_str()
    }

    /// The command that carries out `op` on `packages`.
    pub fn command(&self, op: Operation, packages: &[String]) -> (out: Result<Invocation, Error>)
        ensures
            self@.is_command(op, texts(packages@), out),
    {
        let own = self.binary.as_str();
        let base = match (self.distro, op) {
            (Distro::Arch, Operation::ListInstalled) => Invocation::new(own, &["-Q", "-q"]),
            (Distro::Arch, Operation::ListAvailable) => Invocation::new(own, &["-S", "-l", "-q"]),
            (Distro::Arch, Operation::Install) => Invocation::new(own, &["-S"]),
            (Distro::Arch, Operation::Remove) => Invocation::new(own, &["-R", "-n", "-s"]),
            (Distro::Arch, Operation::Query) => Invocation::new(own, &["-Si"]),
            (Distro::Debian, Operation::ListInstalled) => Invocation::new(
                "dpkg",
                &["--get-selections"],
            ),
            (Distro::Debian, Operation::ListAvailable) => Invocation::new(
                "apt-cache",
                &["pkgnames", "--generate"],
            ),
            (Distro::Debian, Operation::Install) => Invocation::new(own, &["install"]),
            (Distro::Debian, Operation::Remove) => Invocation::new(own, &["remove"]),
            (Distro::Debian, Operation::Query) => Invocation::new("apt-cache", &["show"]),
            _ => {
                return Err(Error::UnsupportedOS);
            },
        };
        assert(base@.args =~= self@.prefix(op));
        Ok(base.with_trailing(packages))
    }

    /// The installed packages, from the outcome of the command that lists
    /// them.
    pub fn installed_packages(&self, output: Result<Vec<u8>, std::io::Error>) -> (out: Result<
        Vec<String>,
        Error,
    >)
        ensures
            self@.is_list(Operation::ListInstalled, output, out),
    {
        match self.distro {
            Distro::Arch => listing(output, Extraction::Line),
            Distro::Debian => listing(output, Extraction::FirstWord),
            _ => Err(Error::UnsupportedOS),
        }
    }

    /// The packages that can be installed, from the outcome of the command
    /// that lists them.
    pub fn available_packages(&self, output: Result<Vec<u8>, std::io::Error>) -> (out: Result<
        Vec<String>,
        Error,
    >)
        ensures
            self@.is_list(Operation::ListAvailable, output, out),
    {
        match self.distro {
            Distro::Arch => listing(output, Extraction::Line),
            Distro::Debian => listing(output, Extraction::Line),
            _ => Err(Error::UnsupportedOS),
        }
    }

    /// The command that installs `packages`.
    pub fn install(&self, packages: &[String]) -> (out: Result<Invocation, Error>)
        ensures
            self@.is_command(Operation::Install, texts(packages@), out),
    {
        self.command(Operation::Install, packages)
    }

    /// The command that removes `packages`.
    pub fn remove(&self, packages: &[String]) -> (out: Result<Invocation, Error>)
        ensures
            self@.is_command(Operation::Remove, texts(packages@), out),
    {
        self.command(Operation::Remove, packages)
    }

    /// The command that describes a package, as one line of text to which
    /// the package's name is to be added.
    pub fn query_cmd(&self) -> (out: Result<String, Error>)
        ensures
            if self@.distro.has_commands() {
                out is Ok && out->Ok_0@ == command_line(
                    InvocationView {
                        program: self@.program(Operation::Query),
                        args: self@.prefix(Operation::Query),
                    },
                )
            } else {
                out == Err::<String, Error>(Error::UnsupportedOS)
            },
    {
        let none: Vec<String> = Vec::new();
        match self.command(Operation::Query, none.as_slice()) {
            Ok(cmd) => {
                proof {
                    assert(self@.prefix(Operation::Query) + texts(none@) =~= self@.prefix(
                        Operation::Query,
                    ));
                }
                Ok(cmd.command_line())
            },
            Err(e) => Err(e),
        }
    }
}

} // verus!
