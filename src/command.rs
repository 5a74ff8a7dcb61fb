//! The command run in each project directory: how it is launched, what of
//! its output is forwarded, and when its exit status is an error.

use vstd::prelude::*;

verus! {

/// The tool launched when the command is not external.
pub open spec fn default_binary() -> Seq<char> {
    seq!['c', 'a', 'r', 'g', 'o']
}

/// What the user asked to run. Built once, then only read.
pub struct CommandSpec {
    /// The first token names the binary to launch; otherwise the default
    /// tool is launched with all the tokens as its arguments.
    pub external: bool,
    /// The command-line tokens.
    pub args: Vec<String>,
    /// Forward the captured standard output and error of each run.
    pub output: bool,
    /// A run that does not exit with code 0 is an error, and any error ends
    /// the whole walk.
    pub exit_on_error: bool,
}

/// Why a command counts as failed.
#[derive(Debug, PartialEq, Eq)]
pub enum RunError {
    /// The token list is empty: there is nothing to launch.
    EmptyCommand,
    /// The process exited with this nonzero code.
    ExitCode(i32),
    /// The process ended without an exit code (killed by a signal).
    Abnormal,
}

/// A process to launch: the binary and its arguments.
pub enum Invocation {
    /// The default tool, with these arguments.
    Default { args: Vec<String> },
    /// The named binary, with these arguments.
    External { binary: String, args: Vec<String> },
}

impl Invocation {
    /// The name of the binary to launch.
    pub fn program(&self) -> (r: &str)
        ensures
            r@ == match self {
                Invocation::Default { .. } => default_binary(),
                Invocation::External { binary, .. } => binary@,
            },
    {
        match self {
            Invocation::Default { .. } => {
                proof {
                    reveal_strlit("cargo");
                }
                "cargo"
            },
            Invocation::External { binary, .. } => binary.as_str(),
        }
    }

    /// The arguments handed to the binary.
    pub fn arguments(&self) -> (r: &Vec<String>)
        ensures
            *r == match self {
                Invocation::Default { args } => *args,
                Invocation::External { args, .. } => *args,
            },
    {
        match self {
            Invocation::Default { args } => args,
            Invocation::External { args, .. } => args,
        }
    }
}

/// Copies `v[from..]`.
fn copy_from(v: &Vec<String>, from: usize) -> (r: Vec<String>)
    requires
        from <= v.len(),
    ensures
        r@ == v@.subrange(from as int, v.len() as int),
{
    let mut r: Vec<String> = Vec::new();
    let mut i: usize = from;
    while i < v.len()
        invariant
            from <= i <= v.len(),
            r@ == v@.subrange(from as int, i as int),
        decreases v.len() - i,
    {
        r.push(v[i].clone());
        assert(r@ =~= v@.subrange(from as int, i + 1));
        i = i + 1;
    }
    r
}

impl CommandSpec {
    /// The process to launch: with `external`, the first token is the binary
    /// and the rest its arguments; otherwise the default tool gets every
    /// token. An empty token list is refused.
    pub fn invocation(&self) -> (r: Result<Invocation, RunError>)
        ensures
            self.args@.len() == 0 <==> r == Err::<Invocation, RunError>(RunError::EmptyCommand),
            self.args@.len() > 0 ==> match r {
                Ok(Invocation::External { binary, args }) => self.external && binary
                    == self.args@[0] && args@ == self.args@.drop_first(),
                Ok(Invocation::Default { args }) => !self.external && args@ == self.args@,
                Err(_) => false,
            },
    {
        if self.args.len() == 0 {
            return Err(RunError::EmptyCommand);
        }
        if self.external {
            let binary = self.args[0].clone();
            let args = copy_from(&self.args, 1);
            assert(args@ =~= self.args@.drop_first());
            Ok(Invocation::External { binary, args })
        } else {
            let args = copy_from(&self.args, 0);
            assert(args@ =~= self.args@);
            Ok(Invocation::Default { args })
        }
    }

    /// Judges a finished run by its exit code (`None`: no code, as when
    /// killed by a signal). Only with `exit_on_error` is anything but code 0
    /// an error.
    pub fn judge(&self, code: Option<i32>) -> (r: Result<(), RunError>)
        ensures
            r == if self.exit_on_error && code != Some(0i32) {
                Err::<(), RunError>(
                    match code {
                        Some(c) => RunError::ExitCode(c),
                        None => RunError::Abnormal,
                    },
                )
            } else {
                Ok(())
            },
    {
        if !self.exit_on_error {
            return Ok(());
        }
        match code {
            Some(0) => Ok(()),
            Some(c) => Err(RunError::ExitCode(c)),
            None => Err(RunError::Abnormal),
        }
    }

    /// What reaches the caller's standard output and standard error of a
    /// run that printed `stdout` and `stderr`: all of it when output is
    /// forwarded, and not a byte otherwise.
    pub fn forwarded(&self, stdout: Vec<u8>, stderr: Vec<u8>) -> (r: (Vec<u8>, Vec<u8>))
        ensures
            self.output ==> r.0@ == stdout@ && r.1@ == stderr@,
            !self.output ==> r.0@.len() == 0 && r.1@.len() == 0,
    {
        if self.output {
            (stdout, stderr)
        } else {
            (Vec::new(), Vec::new())
        }
    }
}

} // verus!
