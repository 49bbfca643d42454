//! Privilege escalation: which program grants it, whether it is needed, and
//! how a command is rewritten to run under it.

use vstd::prelude::*;
use vstd::string::StringExecFns;
use crate::command::{Invocation, InvocationView};
use crate::err::{Error, LookupError};
use crate::lookup::find_program;
use crate::text::{lowercase, same_text, to_lowercase};

verus! {

/// A program that runs a command with elevated rights.
#[derive(Clone, Copy, Debug, PartialEq, Eq, Structural)]
pub enum ElevationHandler {
    Doas,
    Sudo,
    Gsudo,
    Pkexec,
    Please,
}

/// The handler that is preferred among those that were found: `doas` before
/// `sudo` before `gsudo` before `pkexec` before `please`.
pub open spec fn preferred(
    doas: bool,
    sudo: bool,
    gsudo: bool,
    pkexec: bool,
    please: bool,
) -> Option<ElevationHandler> {
    if doas {
        Some(ElevationHandler::Doas)
    } else if sudo {
        Some(ElevationHandler::Sudo)
    } else if gsudo {
        Some(ElevationHandler::Gsudo)
    } else if pkexec {
        Some(ElevationHandler::Pkexec)
    } else if please {
        Some(ElevationHandler::Please)
    } else {
        None
    }
}

/// A handler is preferred only if its program was found and that of no
/// handler before it in the order of preference was: where `doas` and `sudo`
/// are both found, `doas` is taken.
pub proof fn lemma_preferred_is_first(
    doas: bool,
    sudo: bool,
    gsudo: bool,
    pkexec: bool,
    please: bool,
)
    ensures
        doas ==> preferred(doas, sudo, gsudo, pkexec, please) == Some(ElevationHandler::Doas),
        preferred(doas, sudo, gsudo, pkexec, please) is None <==> !(doas || sudo || gsudo || pkexec
            || please),
        preferred(doas, sudo, gsudo, pkexec, please) matches Some(h) ==> {
            let found = seq![doas, sudo, gsudo, pkexec, please];
            found[h.rank() as int] && forall|i: int| 0 <= i < h.rank() ==> !found[i]
        },
{
}

/// The command that runs `given` under the handler at `handler_path`: the
/// handler is the program, and its arguments are the program of `given` and
/// then the arguments of `given`, unchanged.
pub open spec fn elevated_view(handler_path: Seq<char>, given: InvocationView) -> InvocationView {
    InvocationView { program: handler_path, args: seq![given.program] + given.args }
}

/// The handler whose name is `lower`, a name in lower case.
pub open spec fn handler_named(lower: Seq<char>) -> Option<ElevationHandler> {
    if lower == "doas"@ {
        Some(ElevationHandler::Doas)
    } else if lower == "sudo"@ {
        Some(ElevationHandler::Sudo)
    } else if lower == "gsudo"@ {
        Some(ElevationHandler::Gsudo)
    } else if lower == "pkexec"@ {
        Some(ElevationHandler::Pkexec)
    } else if lower == "please"@ {
        Some(ElevationHandler::Please)
    } else {
        None
    }
}

impl ElevationHandler {
    /// The name of the handler's program.
    pub open spec fn spec_name(self) -> Seq<char> {
        match self {
            ElevationHandler::Doas => "doas"@,
            ElevationHandler::Sudo => "sudo"@,
            ElevationHandler::Gsudo => "gsudo"@,
            ElevationHandler::Pkexec => "pkexec"@,
            ElevationHandler::Please => "please"@,
        }
    }

    /// The place of the handler in the order of preference, 0 for the most
    /// preferred.
    pub open spec fn rank(self) -> nat {
        match self {
            ElevationHandler::Doas => 0,
            ElevationHandler::Sudo => 1,
            ElevationHandler::Gsudo => 2,
            ElevationHandler::Pkexec => 3,
            ElevationHandler::Please => 4,
        }
    }

    /// The name of the handler's program.
    pub fn name(&self) -> (out: &'static str)
        ensures
            out@ == self.spec_name(),
    {
        match self {
            ElevationHandler::Doas => "doas",
            ElevationHandler::Sudo => "sudo",
            ElevationHandler::Gsudo => "gsudo",
            ElevationHandler::Pkexec => "pkexec",
            ElevationHandler::Please => "please",
        }
    }

    /// The name of the handler's program, as the handler is shown to a user.
    pub fn to_string(&self) -> (out: String)
        ensures
            out@ == self.spec_name(),
    {
        String::from_str(self.name())
    }

    /// The handler to use, given what the lookup of each handler's program
    /// gave: the most preferred of those that resolved. Where none did,
    /// elevation has failed.
    pub fn from_lookups(
        doas: Result<String, LookupError>,
        sudo: Result<String, LookupError>,
        gsudo: Result<String, LookupError>,
        pkexec: Result<String, LookupError>,
        please: Result<String, LookupError>,
    ) -> (out: Result<ElevationHandler, Error>)
        ensures
            match preferred(doas is Ok, sudo is Ok, gsudo is Ok, pkexec is Ok, please is Ok) {
                Some(h) => out == Ok::<ElevationHandler, Error>(h),
                None => out == Err::<ElevationHandler, Error>(Error::ElevationFailed),
            },
    {
        if doas.is_ok() {
            Ok(ElevationHandler::Doas)
        } else if sudo.is_ok() {
            Ok(ElevationHandler::Sudo)
        } else if gsudo.is_ok() {
            Ok(ElevationHandler::Gsudo)
        } else if pkexec.is_ok() {
            Ok(ElevationHandler::Pkexec)
        } else if please.is_ok() {
            Ok(ElevationHandler::Please)
        } else {
            Err(Error::ElevationFailed)
        }
    }

    /// The handler that this host offers: each handler's program is looked
    /// up on the search path, and the most preferred that resolves is taken.
    pub fn try_from_env() -> (out: Result<ElevationHandler, Error>)
        ensures
            out matches Err(e) ==> e is ElevationFailed,
    {
        let doas = find_program(ElevationHandler::Doas.name());
        let sudo = find_program(ElevationHandler::Sudo.name());
        let gsudo = find_program(ElevationHandler::Gsudo.name());
        let pkexec = find_program(ElevationHandler::Pkexec.name());
        let please = find_program(ElevationHandler::Please.name());
        ElevationHandler::from_lookups(doas, sudo, gsudo, pkexec, please)
    }

    /// Whether a command that changes the system must run with elevated
    /// rights: always, except in the sandboxed environment, whose package
    /// manager runs without them. The answer is the same for every handler.
    pub fn should_elevate(&self, sandboxed: bool) -> (out: bool)
        ensures
            out == !sandboxed,
    {
        !sandboxed
    }

    /// The command that runs `given` under the handler at `handler_path`:
    /// its program is the handler, its arguments are the program of `given`
    /// and then the arguments of `given`, unchanged.
    pub fn elevated(handler_path: String, given: Invocation) -> (out: Invocation)
        ensures
            out@ == elevated_view(handler_path@, given@),
    {
        let mut args: Vec<String> = Vec::new();
        args.push(given.program);
        let head = Invocation { program: handler_path, args };
        assert(head@.args =~= seq![given@.program]);
        head.with_trailing(given.args.as_slice())
    }

    /// The command that runs `given` under a handler, given what the lookup
    /// of the handler's program gave: `given` under the handler at the path
    /// that was found, or the report that the handler was not found.
    pub fn elevate_from_lookup(found: Result<String, LookupError>, given: Invocation) -> (out:
        Result<Invocation, Error>)
        ensures
            match found {
                Ok(path) => out matches Ok(cmd) && cmd@ == elevated_view(path@, given@),
                Err(e) => out == Err::<Invocation, Error>(Error::ExecutablePathNotFound(e)),
            },
    {
        match found {
            Ok(path) => Ok(ElevationHandler::elevated(path, given)),
            Err(e) => Err(Error::ExecutablePathNotFound(e)),
        }
    }

    /// Rewrites `given` to run under this handler, whose program is looked
    /// up on the search path.
    pub fn elevate_cmd(&self, given: Invocation) -> (out: Result<Invocation, Error>)
        ensures
            out matches Ok(cmd) ==> cmd@.args == seq![given@.program] + given@.args,
            out matches Err(e) ==> e is ExecutablePathNotFound,
    {
        ElevationHandler::elevate_from_lookup(find_program(self.name()), given)
    }

    /// The handler under which a command that changes the system is to run:
    /// the one given, unless the host asks for no elevated rights.
    pub fn needed(elevation: Option<ElevationHandler>, sandboxed: bool) -> (out: Option<
        ElevationHandler,
    >)
        ensures
            out == if sandboxed {
                None
            } else {
                elevation
            },
    {
        match elevation {
            Some(handler) => if handler.should_elevate(sandboxed) {
                Some(handler)
            } else {
                None
            },
            None => None,
        }
    }

    /// The handler whose name is `lower`, a name in lower case.
    pub fn from_lowercase(lower: &str) -> (out: Option<ElevationHandler>)
        ensures
            out == handler_named(lower@),
    {
        if same_text(lower, "doas") {
            Some(ElevationHandler::Doas)
        } else if same_text(lower, "sudo") {
            Some(ElevationHandler::Sudo)
        } else if same_text(lower, "gsudo") {
            Some(ElevationHandler::Gsudo)
        } else if same_text(lower, "pkexec") {
            Some(ElevationHandler::Pkexec)
        } else if same_text(lower, "please") {
            Some(ElevationHandler::Please)
        } else {
            None
        }
    }

    /// The handler that `s` names, whatever the case of its letters.
    pub fn try_from(s: String) -> (out: Result<ElevationHandler, Error>)
        ensures
            match handler_named(lowercase(s@)) {
                Some(h) => out == Ok::<ElevationHandler, Error>(h),
                None => out == Err::<ElevationHandler, Error>(
                    Error::UnrecognizedElevationHandlerName(s),
                ),
            },
    {
        let lower = to_lowercase(s.as_str());
        match ElevationHandler::from_lowercase(lower.as_str()) {
            Some(h) => Ok(h),
            None => Err(Error::UnrecognizedElevationHandlerName(s)),
        }
    }

    /// The handler to use: the one that `explicit` names, if a name is given,
    /// else the one that this host offers.
    pub fn detect_or_override(explicit: Option<String>) -> (out: Result<ElevationHandler, Error>)
        ensures
            explicit matches Some(s) ==> match handler_named(lowercase(s@)) {
                Some(h) => out == Ok::<ElevationHandler, Error>(h),
                None => out == Err::<ElevationHandler, Error>(
                    Error::UnrecognizedElevationHandlerName(s),
                ),
            },
            explicit is None ==> (out matches Err(e) ==> e is ElevationFailed),
    {
        match explicit {
            Some(s) => ElevationHandler::try_from(s),
            None => ElevationHandler::try_from_env(),
        }
    }
}

} // verus!
