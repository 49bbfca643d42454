//! What is to be run: a program and its arguments.

use vstd::prelude::*;
use vstd::string::StringExecFns;

verus! {

/// The character sequences that the strings hold.
pub open spec fn texts(v: Seq<String>) -> Seq<Seq<char>> {
    v.map_values(|s: String| s@)
}

/// What a package manager is asked to do.
#[derive(Clone, Copy, Debug, PartialEq, Eq, Structural)]
pub enum Operation {
    /// List the packages that are installed.
    ListInstalled,
    /// List the packages that can be installed.
    ListAvailable,
    /// Install packages.
    Install,
    /// Remove packages.
    Remove,
    /// Describe a package.
    Query,
}

/// What the two switches of the command line ask for: an operation where
/// exactly one of them is set, nothing where none is or both are.
pub open spec fn requested(install: bool, remove: bool) -> Option<Operation> {
    if install && !remove {
        Some(Operation::Install)
    } else if remove && !install {
        Some(Operation::Remove)
    } else {
        None
    }
}

impl Operation {
    /// What the two switches of the command line ask for.
    pub fn from_switches(install: bool, remove: bool) -> (out: Option<Operation>)
        ensures
            out == requested(install, remove),
    {
        if install && !remove {
            Some(Operation::Install)
        } else if remove && !install {
            Some(Operation::Remove)
        } else {
            None
        }
    }

    /// The operation that lists the packages to choose from before this
    /// operation: those that can be installed before an installation, those
    /// that are installed before a removal.
    pub fn listing(&self) -> (out: Option<Operation>)
        ensures
            out == match *self {
                Operation::Install => Some(Operation::ListAvailable),
                Operation::Remove => Some(Operation::ListInstalled),
                _ => None,
            },
    {
        match self {
            Operation::Install => Some(Operation::ListAvailable),
            Operation::Remove => Some(Operation::ListInstalled),
            _ => None,
        }
    }
}

/// A program and the arguments it is started with, as an argument vector:
/// nothing in it is ever read by a shell.
#[derive(Debug)]
pub struct Invocation {
    /// The program: its name, or the path it resolves to.
    pub program: String,
    /// The arguments, in order.
    pub args: Vec<String>,
}

/// An invocation as plain sequences of characters.
pub struct InvocationView {
    pub program: Seq<char>,
    pub args: Seq<Seq<char>>,
}

impl View for Invocation {
    type V = InvocationView;

    open spec fn view(&self) -> InvocationView {
        InvocationView { program: self.program@, args: texts(self.args@) }
    }
}

impl Invocation {
    /// The invocation of `program` with the arguments `args`.
    pub fn new(program: &str, args: &[&str]) -> (out: Invocation)
        ensures
            out@.program == program@,
            out@.args == args@.map_values(|a: &str| a@),
    {
        let mut list: Vec<String> = Vec::new();
        let mut i: usize = 0;
        while i < args.len()
            invariant
                i <= args.len(),
                texts(list@) == args@.take(i as int).map_values(|a: &str| a@),
            decreases args.len() - i,
        {
            let ghost before = texts(list@);
            list.push(String::from_str(args[i]));
            proof {
                assert(texts(list@) =~= before.push(args@[i as int]@));
                assert(args@.take(i + 1).map_values(|a: &str| a@) =~= args@.take(
                    i as int,
                ).map_values(|a: &str| a@).push(args@[i as int]@));
            }
            i += 1;
        }
        proof {
            assert(args@.take(args.len() as int) =~= args@);
        }
        Invocation { program: String::from_str(program), args: list }
    }

    /// The same arguments for the program at `path`.
    pub fn at_path(self, path: String) -> (out: Invocation)
        ensures
            out@.program == path@,
            out@.args == self@.args,
    {
        Invocation { program: path, args: self.args }
    }

    /// The invocation with `extra` after its arguments.
    pub fn with_trailing(self, extra: &[String]) -> (out: Invocation)
        ensures
            out@.program == self@.program,
            out@.args == self@.args + texts(extra@),
    {
        let mut args = self.args;
        let ghost start = texts(args@);
        let mut i: usize = 0;
        while i < extra.len()
            invariant
                i <= extra.len(),
                texts(args@) == start + texts(extra@.take(i as int)),
            decreases extra.len() - i,
        {
            let ghost before = texts(args@);
            args.push(extra[i].clone());
            proof {
                assert(texts(args@) =~= before.push(extra@[i as int]@));
                assert(texts(extra@.take(i + 1)) =~= texts(extra@.take(i as int)).push(
                    extra@[i as int]@,
                ));
                assert(start + texts(extra@.take(i as int)).push(extra@[i as int]@) =~= (start
                    + texts(extra@.take(i as int))).push(extra@[i as int]@));
            }
            i += 1;
        }
        proof {
            assert(extra@.take(extra.len() as int) =~= extra@);
        }
        Invocation { program: self.program, args }
    }
}

/// The parts one after the other, with `sep` between each two.
pub open spec fn joined(parts: Seq<Seq<char>>, sep: Seq<char>) -> Seq<char>
    decreases parts.len(),
{
    if parts.len() == 0 {
        Seq::empty()
    } else if parts.len() == 1 {
        parts[0]
    } else {
        joined(parts.drop_last(), sep) + sep + parts.last()
    }
}

/// Joining starts with the first part: the first part, then `sep`, then the
/// other parts joined.
pub proof fn lemma_joined_front(parts: Seq<Seq<char>>, sep: Seq<char>)
    requires
        parts.len() >= 2,
    ensures
        joined(parts, sep) == parts[0] + sep + joined(parts.skip(1), sep),
    decreases parts.len(),
{
    let init = parts.drop_last();
    let tail = parts.skip(1);
    if parts.len() == 2 {
        assert(joined(init, sep) == parts[0]);
        assert(joined(tail, sep) == parts[1]);
    } else {
        lemma_joined_front(init, sep);
        assert(init.skip(1) =~= tail.drop_last());
        assert(tail.last() == parts.last());
        assert(init[0] == parts[0]);
        assert((parts[0] + sep + joined(init.skip(1), sep)) + sep + parts.last() =~= parts[0]
            + sep + (joined(tail.drop_last(), sep) + sep + tail.last()));
    }
}

/// The program and its arguments on one line, with single spaces between
/// them. Nothing is quoted or escaped.
pub open spec fn command_line(v: InvocationView) -> Seq<char> {
    v.program + seq![' '] + joined(v.args, seq![' '])
}

impl Invocation {
    /// The program and its arguments as one line of text, for callers that
    /// need a string rather than an argument vector.
    pub fn command_line(&self) -> (out: String)
        ensures
            out@ == command_line(self@),
    {
        let mut out = self.program.clone();
        out.push(' ');
        let ghost head = out@;
        let ghost args = texts(self.args@);
        let mut i: usize = 0;
        while i < self.args.len()
            invariant
                i <= self.args.len(),
                args == texts(self.args@),
                head == self.program@ + seq![' '],
                out@ == head + joined(args.take(i as int), seq![' ']),
            decreases self.args.len() - i,
        {
            let ghost done = args.take(i as int);
            let ghost next = args.take(i + 1);
            proof {
                assert(next.drop_last() =~= done);
                assert(next.last() == self.args@[i as int]@);
            }
            if i > 0 {
                out.push(' ');
                out.append(self.args[i].as_str());
                assert(out@ =~= head + (joined(done, seq![' ']) + seq![' '] + next.last()));
            } else {
                out.append(self.args[i].as_str());
                assert(joined(done, seq![' ']) =~= Seq::<char>::empty());
                assert(out@ =~= head + next.last());
            }
            i += 1;
        }
        proof {
            assert(args.take(self.args.len() as int) =~= args);
        }
        out
    }
}

} // verus!
