//! Package managers told apart by the program that a host has installed.

use vstd::prelude::*;
use vstd::string::StringExecFns;
use crate::command::{Invocation, Operation};
use crate::err::Error;

verus! {

/// The directory whose presence marks the sandboxed environment.
pub const SANDBOX_MARKER: &'static str = "/data/data/com.termux/";

/// A package manager, named after the distribution family that ships it.
#[derive(Clone, Copy, Debug, PartialEq, Eq, Structural)]
pub enum Distro {
    Arch,
    Debian,
    Void,
    OpenSuse,
}

/// The root under which the host keeps its programs: `/`, or the sandbox's
/// own root.
pub open spec fn spec_fs_root(sandboxed: bool) -> Seq<char> {
    if sandboxed {
        "/data/data/com.termux/files/"@
    } else {
        "/"@
    }
}

/// The root under which the host keeps its programs.
pub fn fs_root(sandboxed: bool) -> (out: &'static str)
    ensures
        out@ == spec_fs_root(sandboxed),
{
    if sandboxed {
        "/data/data/com.termux/files/"
    } else {
        "/"
    }
}

/// The candidates of the detection, in the order in which they are tried.
pub open spec fn candidate(i: int) -> Distro {
    if i == 0 {
        Distro::Void
    } else if i == 1 {
        Distro::Arch
    } else if i == 2 {
        Distro::Debian
    } else {
        Distro::OpenSuse
    }
}

/// The program whose presence shows that the host has the candidate `i`.
pub open spec fn candidate_binary(i: int, sandboxed: bool) -> Seq<char> {
    if i == 0 {
        "/usr/bin/xbps-install"@
    } else if i == 1 {
        "/usr/bin/pacman"@
    } else if i == 2 {
        spec_fs_root(sandboxed) + "/usr/bin/apt"@
    } else {
        "/usr/bin/zypper"@
    }
}

/// The first of the four candidates that is present, where `present[i]` says
/// whether candidate `i` is. A candidate that `present` does not reach counts
/// as absent.
pub open spec fn first_present(present: Seq<bool>) -> Option<int> {
    if present.len() > 0 && present[0] {
        Some(0)
    } else if present.len() > 1 && present[1] {
        Some(1)
    } else if present.len() > 2 && present[2] {
        Some(2)
    } else if present.len() > 3 && present[3] {
        Some(3)
    } else {
        None
    }
}

/// The path `root` followed by `rest`.
fn under(root: &str, rest: &str) -> (out: String)
    ensures
        out@ == root@ + rest@,
{
    let mut out = String::from_str(root);
    out.append(rest);
    out
}

/// The candidates of the detection with the program that shows each, in the
/// order in which they are tried.
pub fn distro_binary_map(sandboxed: bool) -> (out: Vec<(Distro, String)>)
    ensures
        out.len() == 4,
        forall|i: int|
            0 <= i < 4 ==> (#[trigger] out[i]).0 == candidate(i) && out[i].1@ == candidate_binary(
                i,
                sandboxed,
            ),
{
    let mut out: Vec<(Distro, String)> = Vec::new();
    out.push((Distro::Void, String::from_str("/usr/bin/xbps-install")));
    out.push((Distro::Arch, String::from_str("/usr/bin/pacman")));
    out.push((Distro::Debian, under(fs_root(sandboxed), "/usr/bin/apt")));
    out.push((Distro::OpenSuse, String::from_str("/usr/bin/zypper")));
    out
}

impl Distro {
    /// The package manager of this host: the first candidate whose program
    /// is present, where `present[i]` says whether the program of candidate
    /// `i` of `distro_binary_map` exists.
    pub fn try_from_env(present: &[bool]) -> (out: Option<Distro>)
        ensures
            match first_present(present@) {
                Some(i) => out == Some(candidate(i)),
                None => out is None,
            },
    {
        if present.len() > 0 && present[0] {
            Some(Distro::Void)
        } else if present.len() > 1 && present[1] {
            Some(Distro::Arch)
        } else if present.len() > 2 && present[2] {
            Some(Distro::Debian)
        } else if present.len() > 3 && present[3] {
            Some(Distro::OpenSuse)
        } else {
            None
        }
    }

    /// Whether the commands of this package manager are known.
    pub open spec fn has_commands(self) -> bool {
        self is Arch || self is Debian
    }

    /// The program that carries out `op`, by its full path.
    pub open spec fn program_path(self, op: Operation, sandboxed: bool) -> Seq<char> {
        match (self, op) {
            (Distro::Debian, Operation::ListInstalled) => spec_fs_root(sandboxed)
                + "/usr/bin/dpkg"@,
            (Distro::Debian, Operation::ListAvailable) => spec_fs_root(sandboxed)
                + "/usr/bin/apt-cache"@,
            (Distro::Debian, Operation::Install) => spec_fs_root(sandboxed) + "/usr/bin/apt"@,
            (Distro::Debian, Operation::Remove) => spec_fs_root(sandboxed) + "/usr/bin/apt"@,
            (Distro::Debian, Operation::Query) => spec_fs_root(sandboxed)
                + "/usr/bin/apt-cache"@,
            _ => "/usr/bin/pacman"@,
        }
    }

    /// The arguments that `op` always starts with.
    pub open spec fn argument_prefix(self, op: Operation) -> Seq<Seq<char>> {
        match (self, op) {
            (Distro::Debian, Operation::ListInstalled) => seq!["--get-selections"@],
            (Distro::Debian, Operation::ListAvailable) => seq!["pkgnames"@, "--generate"@],
            (Distro::Debian, Operation::Install) => seq!["install"@],
            (Distro::Debian, Operation::Remove) => seq!["remove"@],
            (Distro::Debian, Operation::Query) => seq!["show"@],
            (_, Operation::ListInstalled) => seq!["-Q"@, "-q"@],
            (_, Operation::ListAvailable) => seq!["-S"@, "-l"@, "-q"@],
            (_, Operation::Install) => seq!["-S"@],
            (_, Operation::Remove) => seq!["-R"@, "-n"@, "-s"@],
            (_, Operation::Query) => seq!["-S"@, "-i"@],
        }
    }

    /// `out` is the command that carries out `op`: for a package manager
    /// whose commands are known, its program by full path and the arguments
    /// that `op` always starts with; for any other, the report that the
    /// system is not supported.
    pub open spec fn is_command(
        self,
        op: Operation,
        sandboxed: bool,
        out: Result<Invocation, Error>,
    ) -> bool {
        if self.has_commands() {
            &&& out is Ok
            &&& out->Ok_0@.program == self.program_path(op, sandboxed)
            &&& out->Ok_0@.args == self.argument_prefix(op)
        } else {
            out == Err::<Invocation, Error>(Error::UnsupportedOS)
        }
    }

    /// The command that carries out `op`.
    pub fn operation_command(&self, op: Operation, sandboxed: bool) -> (out: Result<
        Invocation,
        Error,
    >)
        ensures
            self.is_command(op, sandboxed, out),
    {
        let root = fs_root(sandboxed);
        let out = match (self, op) {
            (Distro::Arch, Operation::ListInstalled) => Invocation::new(
                "/usr/bin/pacman",
                &["-Q", "-q"],
            ),
            (Distro::Arch, Operation::ListAvailable) => Invocation::new(
                "/usr/bin/pacman",
                &["-S", "-l", "-q"],
            ),
            (Distro::Arch, Operation::Install) => Invocation::new("/usr/bin/pacman", &["-S"]),
            (Distro::Arch, Operation::Remove) => Invocation::new(
                "/usr/bin/pacman",
                &["-R", "-n", "-s"],
            ),
            (Distro::Arch, Operation::Query) => Invocation::new("/usr/bin/pacman", &["-S", "-i"]),
            (Distro::Debian, Operation::ListInstalled) => Invocation::new(
                under(root, "/usr/bin/dpkg").as_str(),
                &["--get-selections"],
            ),
            (Distro::Debian, Operation::ListAvailable) => Invocation::new(
                under(root, "/usr/bin/apt-cache").as_str(),
                &["pkgnames", "--generate"],
            ),
            (Distro::Debian, Operation::Install) => Invocation::new(
                under(root, "/usr/bin/apt").as_str(),
                &["install"],
            ),
            (Distro::Debian, Operation::Remove) => Invocation::new(
                under(root, "/usr/bin/apt").as_str(),
                &["remove"],
            ),
            (Distro::Debian, Operation::Query) => Invocation::new(
                under(root, "/usr/bin/apt-cache").as_str(),
                &["show"],
            ),
            _ => {
                return Err(Error::UnsupportedOS);
            },
        };
        assert(out@.args =~= self.argument_prefix(op));
        Ok(out)
    }

    /// The command that lists the installed packages.
    pub fn list_installed_cmd(&self, sandboxed: bool) -> (out: Result<Invocation, Error>)
        ensures
            self.is_command(Operation::ListInstalled, sandboxed, out),
    {
        self.operation_command(Operation::ListInstalled, sandboxed)
    }

    /// The command that lists the packages that can be installed.
    pub fn list_available_cmd(&self, sandboxed: bool) -> (out: Result<Invocation, Error>)
        ensures
            self.is_command(Operation::ListAvailable, sandboxed, out),
    {
        self.operation_command(Operation::ListAvailable, sandboxed)
    }

    /// The command that installs the packages named after it.
    pub fn install_cmd(&self, sandboxed: bool) -> (out: Result<Invocation, Error>)
        ensures
            self.is_command(Operation::Install, sandboxed, out),
    {
        self.operation_command(Operation::Install, sandboxed)
    }

    /// The command that removes the packages named after it.
    pub fn remove_cmd(&self, sandboxed: bool) -> (out: Result<Invocation, Error>)
        ensures
            self.is_command(Operation::Remove, sandboxed, out),
    {
        self.operation_command(Operation::Remove, sandboxed)
    }

    /// The command that describes the package named after it.
    pub fn query_cmd(&self, sandboxed: bool) -> (out: Result<Invocation, Error>)
        ensures
            self.is_command(Operation::Query, sandboxed, out),
    {
        self.operation_command(Operation::Query, sandboxed)
    }
}

} // verus!
