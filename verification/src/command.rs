//! The command runner's data model: a command to run, the text captured
//! from a finished process, and the error taxonomy.  Spawning is I/O and
//! happens outside the library; the classification of a spawn outcome
//! into `CommandOutputText` or `CommandError` is pure and lives here.
use vstd::prelude::*;

use crate::actions::clone_string;
use crate::actions::clone_string_vec;
use crate::workflows::clone_opt_string;

verus! {

/// A program invocation: program path, ordered arguments, optional
/// working directory.
#[derive(Debug)]
pub struct CommandSpec {
    pub program: String,
    pub args: Vec<String>,
    pub cwd: Option<String>,
}

impl CommandSpec {
    pub fn new(program: String) -> (r: CommandSpec)
        ensures
            r.program@ == program@,
            r.args@.len() == 0,
            r.cwd is None,
    {
        CommandSpec { program, args: Vec::new(), cwd: None }
    }

    pub fn arg(self, a: String) -> (r: CommandSpec)
        ensures
            r.program@ == self.program@,
            r.args@ == self.args@.push(a),
            r.cwd == self.cwd,
    {
        let mut s = self;
        s.args.push(a);
        s
    }

    pub fn cwd(self, d: String) -> (r: CommandSpec)
        ensures
            r.program@ == self.program@,
            r.args@ == self.args@,
            r.cwd matches Some(c) && c@ == d@,
    {
        let mut s = self;
        s.cwd = Some(d);
        s
    }
}

/// A command-line string needs quotes when it holds a space or a tab.
pub open spec fn spec_needs_quotes(s: Seq<char>) -> bool {
    crate::text::spec_contains(s, seq![' ']) || crate::text::spec_contains(s, seq!['\t'])
}

/// A word as it appears in the displayed command line.
pub open spec fn spec_quoted(s: Seq<char>) -> Seq<char> {
    if spec_needs_quotes(s) {
        seq!['"'] + s + seq!['"']
    } else {
        s
    }
}

/// The displayed argument tail from position `i` on: a space and the
/// quoted word, for each argument.
pub open spec fn spec_command_line(args: Seq<Seq<char>>, i: int) -> Seq<char>
    decreases args.len() - i,
    when 0 <= i <= args.len()
{
    if i == args.len() {
        Seq::<char>::empty()
    } else {
        seq![' '] + spec_quoted(args[i]) + spec_command_line(args, i + 1)
    }
}

fn quote_if_needed(s: &String) -> (r: Vec<char>)
    ensures
        r@ == spec_quoted(s@),
{
    let cs = crate::text::chars_of_string(s);
    let mut space: Vec<char> = Vec::new();
    space.push(' ');
    let mut tab: Vec<char> = Vec::new();
    tab.push('\t');
    proof {
        assert(space@ =~= seq![' ']);
        assert(tab@ =~= seq!['\t']);
    }
    if crate::text::contains_chars(&cs, &space) || crate::text::contains_chars(&cs, &tab) {
        let mut out: Vec<char> = Vec::new();
        out.push('"');
        let mut i: usize = 0;
        while i < cs.len()
            invariant
                0 <= i <= cs@.len(),
                cs@ == s@,
                out@ == seq!['"'] + s@.take(i as int),
            decreases cs@.len() - i,
        {
            out.push(cs[i]);
            i += 1;
            proof {
                assert(seq!['"'] + s@.take(i as int) =~= (seq!['"'] + s@.take(i as int - 1)).push(
                    s@[i as int - 1],
                ));
            }
        }
        out.push('"');
        proof {
            assert(s@.take(s@.len() as int) =~= s@);
            assert(out@ =~= spec_quoted(s@));
        }
        out
    } else {
        cs
    }
}

impl CommandSpec {
    /// The human-readable command line, words quoted when they hold
    /// whitespace.
    pub fn display_command_line(&self) -> (r: String)
        ensures
            r@ == spec_quoted(self.program@) + spec_command_line(self.args.deep_view(),
                0,
            ),
    {
        let mut out = quote_if_needed(&self.program);
        let ghost gargs = self.args.deep_view();
        proof {
            assert(gargs.len() == self.args@.len());
            assert(forall|j: int| 0 <= j < gargs.len() ==> gargs[j] == self.args@[j]@);
        }
        let mut i: usize = 0;
        while i < self.args.len()
            invariant
                0 <= i <= self.args@.len(),
                gargs == self.args.deep_view(),
                gargs.len() == self.args@.len(),
                forall|j: int| 0 <= j < gargs.len() ==> gargs[j] == self.args@[j]@,
                out@ + spec_command_line(gargs, i as int) == spec_quoted(
                    self.program@,
                ) + spec_command_line(gargs, 0),
            decreases self.args@.len() - i,
        {
            let ghost before = out@;
            out.push(' ');
            let q = quote_if_needed(&self.args[i]);
            let mut k: usize = 0;
            while k < q.len()
                invariant
                    0 <= k <= q@.len(),
                    out@ == before + seq![' '] + q@.take(k as int),
                decreases q@.len() - k,
            {
                out.push(q[k]);
                k += 1;
                proof {
                    assert(before + seq![' '] + q@.take(k as int) =~= (before + seq![' ']
                        + q@.take(k as int - 1)).push(q@[k as int - 1]));
                }
            }
            proof {
                assert(q@.take(q@.len() as int) =~= q@);
                assert(spec_command_line(gargs, i as int) == seq![' ']
                    + spec_quoted(gargs[i as int]) + spec_command_line(gargs,
                    i as int + 1,
                ));
                assert(out@ + spec_command_line(gargs, i as int + 1) =~= before
                    + spec_command_line(gargs, i as int));
            }
            i += 1;
        }
        proof {
            assert(spec_command_line(gargs, gargs.len() as int)
                =~= Seq::<char>::empty());
            assert(out@ =~= spec_quoted(self.program@) + spec_command_line(gargs,
                0,
            ));
        }
        crate::text::string_of_chars(&out)
    }
}

/// What the operating system reported for one spawn attempt, as plain
/// values: either the process could not start, or it finished with its
/// decoded output text and an exit code if it had one.
#[derive(Debug)]
pub enum SpawnOutcome {
    SpawnError { message: String },
    Finished { code: Option<i32>, stdout: String, stderr: String },
}

/// Captured output of a process that finished with an exit code.
#[derive(Debug)]
pub struct CommandOutputText {
    pub status: i32,
    pub stdout: String,
    pub stderr: String,
}

/// The error taxonomy of the command runner.
#[derive(Debug)]
pub enum CommandError {
    Spawn { program: String, args: Vec<String>, cwd: Option<String>, message: String },
    NoStatusCode {
        program: String,
        args: Vec<String>,
        cwd: Option<String>,
        stdout: String,
        stderr: String,
    },
    NonZeroExit {
        program: String,
        args: Vec<String>,
        cwd: Option<String>,
        status: i32,
        stdout: String,
        stderr: String,
    },
}

impl CommandError {
    /// The program the failed invocation named.
    pub fn program(&self) -> (r: &String)
        ensures
            r@ == (match *self {
                CommandError::Spawn { program, .. } => program@,
                CommandError::NoStatusCode { program, .. } => program@,
                CommandError::NonZeroExit { program, .. } => program@,
            }),
    {
        match self {
            CommandError::Spawn { program, .. } => program,
            CommandError::NoStatusCode { program, .. } => program,
            CommandError::NonZeroExit { program, .. } => program,
        }
    }
}

/// Classifies a spawn outcome: output text when the process ran to an
/// exit code, `Spawn` when it could not start, `NoStatusCode` when it
/// died without a code.  Never an error on a non-zero code.
pub fn run_command_output_text(cmd: &CommandSpec, outcome: SpawnOutcome) -> (r: Result<
    CommandOutputText,
    CommandError,
>)
    ensures
        match outcome {
            SpawnOutcome::SpawnError { message } => r matches Err(
                CommandError::Spawn { program, args, cwd, message: m },
            ) && program@ == cmd.program@ && args.deep_view() == cmd.args.deep_view() && (match cmd
                .cwd {
                Some(c) => cwd matches Some(w) && w@ == c@,
                None => cwd is None,
            }) && m@ == message@,
            SpawnOutcome::Finished { code: Some(c), stdout, stderr } => r matches Ok(out)
                && out.status == c && out.stdout@ == stdout@ && out.stderr@ == stderr@,
            SpawnOutcome::Finished { code: None, stdout, stderr } => r matches Err(
                CommandError::NoStatusCode { program, args, cwd, stdout: so, stderr: se },
            ) && program@ == cmd.program@ && args.deep_view() == cmd.args.deep_view() && (match cmd
                .cwd {
                Some(c) => cwd matches Some(w) && w@ == c@,
                None => cwd is None,
            }) && so@ == stdout@ && se@ == stderr@,
        },
{
    match outcome {
        SpawnOutcome::SpawnError { message } => Err(
            CommandError::Spawn {
                program: clone_string(&cmd.program),
                args: clone_string_vec(&cmd.args),
                cwd: clone_opt_string(&cmd.cwd),
                message,
            },
        ),
        SpawnOutcome::Finished { code, stdout, stderr } => {
            match code {
                Some(c) => Ok(CommandOutputText { status: c, stdout, stderr }),
                None => Err(
                    CommandError::NoStatusCode {
                        program: clone_string(&cmd.program),
                        args: clone_string_vec(&cmd.args),
                        cwd: clone_opt_string(&cmd.cwd),
                        stdout,
                        stderr,
                    },
                ),
            }
        },
    }
}

/// As `run_command_output_text`, but a non-zero exit code is an error
/// carrying the code and both streams.
pub fn run_command_expect_success(cmd: &CommandSpec, outcome: SpawnOutcome) -> (r: Result<
    CommandOutputText,
    CommandError,
>)
    ensures
        match outcome {
            SpawnOutcome::Finished { code: Some(c), stdout, stderr } => {
                if c == 0 {
                    r matches Ok(out) && out.status == 0 && out.stdout@ == stdout@ && out.stderr@
                        == stderr@
                } else {
                    r matches Err(CommandError::NonZeroExit { status, stdout: so, stderr: se, .. })
                        && status == c && so@ == stdout@ && se@ == stderr@
                }
            },
            SpawnOutcome::SpawnError { message } => (r matches Err(
                CommandError::Spawn { message: m, .. },
            ) && m@ == message@),
            SpawnOutcome::Finished { code: None, .. } => r matches Err(
                CommandError::NoStatusCode { .. },
            ),
        },
{
    let out = match run_command_output_text(cmd, outcome) {
        Ok(out) => out,
        Err(e) => {
            return Err(e);
        },
    };
    if out.status == 0 {
        Ok(out)
    } else {
        Err(
            CommandError::NonZeroExit {
                program: clone_string(&cmd.program),
                args: clone_string_vec(&cmd.args),
                cwd: clone_opt_string(&cmd.cwd),
                status: out.status,
                stdout: out.stdout,
                stderr: out.stderr,
            },
        )
    }
}

} // verus!
