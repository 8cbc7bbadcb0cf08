//! The scripting bridge: unique run-directory naming, the response
//! envelope, and the interpreter invocation it prepares.
//!
//! One bridge call owns one run directory.  Its name is composed from a
//! fixed prefix, the wall-clock nanoseconds, the process id and a
//! per-bridge counter; `lemma_run_dir_names_distinct` shows the name is
//! injective in those three numbers, which is what makes concurrent
//! calls safe without a lock.
use vstd::prelude::*;

use crate::command::CommandError;
use crate::command::CommandSpec;
use crate::command::SpawnOutcome;
use crate::command::run_command_expect_success;
use crate::text::lemma_concat_cancel_left;
use crate::text::lemma_dash_split;
use crate::text::lemma_dec_all_digits;
use crate::text::lemma_dec_injective;
use crate::text::spec_dec;
use crate::text::dec_chars_u128;
use crate::text::dec_chars_u64;
use crate::text::string_of_chars;
use crate::text::chars_of_str;
use crate::actions::clone_string;
use crate::workflows::clone_opt_string;

verus! {

/// The response envelope of one bridge call: business-logic success or
/// failure, as distinct from infrastructure failure.
#[derive(Debug)]
pub struct Envelope<T> {
    pub ok: bool,
    pub result: Option<T>,
    pub error: Option<String>,
}

/// Turns an envelope into the caller's result: the payload when `ok`
/// and a result is present; the embedded error verbatim when not `ok`
/// (`unknown error` if absent); `missing result` when `ok` promised a
/// result that is not there.
pub fn interpret_envelope<T>(env: Envelope<T>) -> (r: Result<T, String>)
    ensures
        match r {
            Ok(t) => env.ok && (env.result matches Some(v) && t == v),
            Err(m) => {
                &&& !(env.ok && env.result is Some)
                &&& (env.ok && env.result is None ==> m@ == "missing result"@)
                &&& (!env.ok ==> (match env.error {
                    Some(e) => m@ == e@,
                    None => m@ == "unknown error"@,
                }))
            },
        },
{
    if env.ok {
        match env.result {
            Some(t) => Ok(t),
            None => Err(String::from_str("missing result")),
        }
    } else {
        match env.error {
            Some(e) => Err(e),
            None => Err(String::from_str("unknown error")),
        }
    }
}

/// The name of one run directory: `prefix-nanos-pid-counter`.
pub open spec fn run_dir_name(prefix: Seq<char>, nanos: nat, pid: nat, counter: nat) -> Seq<char> {
    prefix + seq!['-'] + spec_dec(nanos) + seq!['-'] + spec_dec(pid) + seq!['-'] + spec_dec(counter)
}

/// Names with one prefix collide only when all three numbers coincide:
/// concurrent bridge calls that differ in time, process or sequence
/// number get distinct run directories.
pub proof fn lemma_run_dir_names_distinct(
    prefix: Seq<char>,
    n1: nat,
    p1: nat,
    c1: nat,
    n2: nat,
    p2: nat,
    c2: nat,
)
    requires
        run_dir_name(prefix, n1, p1, c1) == run_dir_name(prefix, n2, p2, c2),
    ensures
        n1 == n2,
        p1 == p2,
        c1 == c2,
{
    lemma_dec_all_digits(n1);
    lemma_dec_all_digits(n2);
    lemma_dec_all_digits(p1);
    lemma_dec_all_digits(p2);
    lemma_dec_all_digits(c1);
    lemma_dec_all_digits(c2);
    let t1 = spec_dec(n1) + seq!['-'] + (spec_dec(p1) + seq!['-'] + spec_dec(c1));
    let t2 = spec_dec(n2) + seq!['-'] + (spec_dec(p2) + seq!['-'] + spec_dec(c2));
    assert(run_dir_name(prefix, n1, p1, c1) =~= (prefix + seq!['-']) + t1);
    assert(run_dir_name(prefix, n2, p2, c2) =~= (prefix + seq!['-']) + t2);
    lemma_concat_cancel_left(prefix + seq!['-'], t1, t2);
    lemma_dash_split(
        spec_dec(n1),
        spec_dec(p1) + seq!['-'] + spec_dec(c1),
        spec_dec(n2),
        spec_dec(p2) + seq!['-'] + spec_dec(c2),
    );
    lemma_dec_injective(n1, n2);
    lemma_dash_split(spec_dec(p1), spec_dec(c1), spec_dec(p2), spec_dec(c2));
    lemma_dec_injective(p1, p2);
    lemma_dec_injective(c1, c2);
}

/// The run-directory sequence numbers of one process, handed out in
/// order by a single owner rather than by ambient global state.
pub struct ScriptingBridge {
    pub counter: u64,
}

impl ScriptingBridge {
    pub fn new() -> (b: ScriptingBridge)
        ensures
            b.counter == 0,
    {
        ScriptingBridge { counter: 0 }
    }

    /// The next run-directory name.  Each call consumes one sequence
    /// number, so two calls of one bridge never return the same name.
    pub fn next_run_dir_name(&mut self, prefix: &str, nanos: u128, pid: u32) -> (r: String)
        requires
            old(self).counter < u64::MAX,
        ensures
            final(self).counter == old(self).counter + 1,
            r@ == run_dir_name(prefix@, nanos as nat, pid as nat, old(self).counter as nat),
    {
        let c = self.counter;
        self.counter = c + 1;
        let mut out = chars_of_str(prefix);
        out.push('-');
        let nd = dec_chars_u128(nanos);
        let mut i: usize = 0;
        while i < nd.len()
            invariant
                0 <= i <= nd@.len(),
                out@ == prefix@ + seq!['-'] + nd@.take(i as int),
            decreases nd@.len() - i,
        {
            out.push(nd[i]);
            i += 1;
            proof {
                assert(prefix@ + seq!['-'] + nd@.take(i as int) =~= (prefix@ + seq!['-']
                    + nd@.take(i as int - 1)).push(nd@[i as int - 1]));
            }
        }
        proof {
            assert(nd@.take(nd@.len() as int) =~= nd@);
        }
        out.push('-');
        let pd = dec_chars_u64(pid as u64);
        let ghost base1 = prefix@ + seq!['-'] + spec_dec(nanos as nat) + seq!['-'];
        proof {
            assert(out@ =~= base1);
        }
        let mut i: usize = 0;
        while i < pd.len()
            invariant
                0 <= i <= pd@.len(),
                out@ == base1 + pd@.take(i as int),
            decreases pd@.len() - i,
        {
            out.push(pd[i]);
            i += 1;
            proof {
                assert(base1 + pd@.take(i as int) =~= (base1 + pd@.take(i as int - 1)).push(
                    pd@[i as int - 1],
                ));
            }
        }
        proof {
            assert(pd@.take(pd@.len() as int) =~= pd@);
        }
        out.push('-');
        let cd = dec_chars_u64(c);
        let ghost base2 = base1 + spec_dec(pid as nat) + seq!['-'];
        proof {
            assert(out@ =~= base2);
        }
        let mut i: usize = 0;
        while i < cd.len()
            invariant
                0 <= i <= cd@.len(),
                out@ == base2 + cd@.take(i as int),
            decreases cd@.len() - i,
        {
            out.push(cd[i]);
            i += 1;
            proof {
                assert(base2 + cd@.take(i as int) =~= (base2 + cd@.take(i as int - 1)).push(
                    cd@[i as int - 1],
                ));
            }
        }
        proof {
            assert(cd@.take(cd@.len() as int) =~= cd@);
            assert(out@ =~= run_dir_name(
                prefix@,
                nanos as nat,
                pid as nat,
                old(self).counter as nat,
            ));
        }
        string_of_chars(&out)
    }
}

/// One interpreter invocation: the script to run, extra arguments and
/// the working directory the call owns.
#[derive(Debug)]
pub struct QRenderDocPythonRequest {
    pub script_path: String,
    pub args: Vec<String>,
    pub working_dir: Option<String>,
}

/// The captured streams and exit code of a finished interpreter run.
#[derive(Debug)]
pub struct QRenderDocPythonResult {
    pub stdout: String,
    pub stderr: String,
    pub status: i32,
}

#[derive(Debug)]
pub enum QRenderDocPythonError {
    ScriptNotFound(String),
    Command(Box<CommandError>),
}

/// The command line that runs a script under the interpreter: the
/// interpreter binary, `--python`, the script path, then the request's
/// own arguments, in the request's working directory.
pub fn qrenderdoc_python_command(qrenderdoc_exe: &String, req: &QRenderDocPythonRequest) -> (r:
    CommandSpec)
    ensures
        r.program@ == qrenderdoc_exe@,
        r.args.deep_view() == seq!["--python"@, req.script_path@] + req.args.deep_view(),
        match req.working_dir {
            Some(w) => r.cwd matches Some(c) && c@ == w@,
            None => r.cwd is None,
        },
{
    let mut args: Vec<String> = Vec::new();
    args.push(String::from_str("--python"));
    args.push(clone_string(&req.script_path));
    let mut i: usize = 0;
    while i < req.args.len()
        invariant
            0 <= i <= req.args@.len(),
            args@.len() == i + 2,
            args@[0]@ == "--python"@,
            args@[1]@ == req.script_path@,
            forall|j: int| 0 <= j < i ==> args@[j + 2]@ == req.args@[j]@,
        decreases req.args@.len() - i,
    {
        args.push(clone_string(&req.args[i]));
        i += 1;
    }
    proof {
        assert(args.deep_view() =~= seq!["--python"@, req.script_path@] + req.args.deep_view());
    }
    CommandSpec {
        program: clone_string(qrenderdoc_exe),
        args,
        cwd: clone_opt_string(&req.working_dir),
    }
}

/// Interprets the runner's outcome for an interpreter run: a zero exit
/// is required; anything else is an infrastructure error carrying the
/// captured output.  Whether the script file existed is checked by the
/// caller before spawning and handed in.
pub fn qrenderdoc_python_result(
    cmd: &CommandSpec,
    script_path: &String,
    script_exists: bool,
    outcome: SpawnOutcome,
) -> (r: Result<QRenderDocPythonResult, QRenderDocPythonError>)
    ensures
        !script_exists ==> (r matches Err(QRenderDocPythonError::ScriptNotFound(p)) && p@
            == script_path@),
        script_exists ==> match outcome {
            SpawnOutcome::Finished { code: Some(c), stdout, stderr } => {
                if c == 0 {
                    r matches Ok(out) && out.status == 0 && out.stdout@ == stdout@ && out.stderr@
                        == stderr@
                } else {
                    r matches Err(QRenderDocPythonError::Command(e)) && (*e matches
                        CommandError::NonZeroExit { status, stdout: so, stderr: se, .. }
                        && status == c && so@ == stdout@ && se@ == stderr@)
                }
            },
            SpawnOutcome::SpawnError { message } => (r matches Err(
                QRenderDocPythonError::Command(e),
            ) && (*e matches CommandError::Spawn { message: m, .. } && m@ == message@)),
            SpawnOutcome::Finished { code: None, .. } => (r matches Err(
                QRenderDocPythonError::Command(e),
            ) && *e is NoStatusCode),
        },
{
    if !script_exists {
        return Err(QRenderDocPythonError::ScriptNotFound(clone_string(script_path)));
    }
    match run_command_expect_success(cmd, outcome) {
        Ok(out) => Ok(
            QRenderDocPythonResult { stdout: out.stdout, stderr: out.stderr, status: out.status },
        ),
        Err(e) => Err(QRenderDocPythonError::Command(Box::new(e))),
    }
}

} // verus!
