//! The installed tool's command-line front end: the installation's
//! paths, the command lines it runs, and the interpretation of their
//! outcomes.  Spawning happens outside the library; each operation here
//! is a pair of a command builder and an outcome reader.
use vstd::prelude::*;

use crate::actions::clone_string;
use crate::command::CommandError;
use crate::command::CommandOutputText;
use crate::command::CommandSpec;
use crate::command::SpawnOutcome;
use crate::command::run_command_output_text;
use crate::command::run_command_expect_success;

verus! {

/// A detected installation: its root and its two executables.
#[derive(Debug)]
pub struct RenderDocInstallation {
    pub root_dir: String,
    pub qrenderdoc_exe: String,
    pub renderdoccmd_exe: String,
}

/// A request to launch a target executable under capture injection.
#[derive(Debug)]
pub struct CaptureLaunchRequest {
    pub executable: String,
    pub args: Vec<String>,
    pub working_dir: Option<String>,
    pub capture_file_template: Option<String>,
}

/// The launch outcome: the connection identifier the tool printed as
/// its exit code, and both streams.
#[derive(Debug)]
pub struct CaptureLaunchResult {
    pub target_ident: u32,
    pub stdout: String,
    pub stderr: String,
}

#[derive(Debug)]
pub enum CaptureLaunchError {
    Command(Box<CommandError>),
    InvalidTargetIdent(i32),
}

#[derive(Debug)]
pub enum OpenCaptureUiError {
    Command(Box<CommandError>),
}

impl RenderDocInstallation {
    /// The command line of a capture launch: `capture`, then `-d` and
    /// the working directory when given, then `-c` and the capture file
    /// template when given, then the target and its arguments.
    pub fn launch_capture_command(&self, req: &CaptureLaunchRequest) -> (r: CommandSpec)
        ensures
            r.program@ == self.renderdoccmd_exe@,
            r.args.deep_view() == seq!["capture"@] + (match req.working_dir {
                Some(d) => seq!["-d"@, d@],
                None => Seq::<Seq<char>>::empty(),
            }) + (match req.capture_file_template {
                Some(t) => seq!["-c"@, t@],
                None => Seq::<Seq<char>>::empty(),
            }) + seq![req.executable@] + req.args.deep_view(),
            r.cwd is None,
    {
        let mut args: Vec<String> = Vec::new();
        args.push(String::from_str("capture"));
        proof {
            assert(args.deep_view() =~= seq!["capture"@]);
        }
        let ghost part1 = seq!["capture"@] + (match &req.working_dir {
            Some(d) => seq!["-d"@, d@],
            None => Seq::<Seq<char>>::empty(),
        });
        match &req.working_dir {
            Some(d) => {
                args.push(String::from_str("-d"));
                args.push(clone_string(d));
            },
            None => {},
        }
        proof {
            assert(args.deep_view() =~= part1);
        }
        let ghost part2 = part1 + (match &req.capture_file_template {
            Some(t) => seq!["-c"@, t@],
            None => Seq::<Seq<char>>::empty(),
        });
        match &req.capture_file_template {
            Some(t) => {
                args.push(String::from_str("-c"));
                args.push(clone_string(t));
            },
            None => {},
        }
        proof {
            assert(args.deep_view() =~= part2);
        }
        args.push(clone_string(&req.executable));
        let ghost part3 = part2 + seq![req.executable@];
        proof {
            assert(args.deep_view() =~= part3);
        }
        let mut i: usize = 0;
        while i < req.args.len()
            invariant
                0 <= i <= req.args@.len(),
                args.deep_view() == part3 + req.args.deep_view().take(i as int),
                req.args.deep_view().len() == req.args@.len(),
                forall|j: int|
                    0 <= j < req.args@.len() ==> req.args.deep_view()[j] == req.args@[j]@,
            decreases req.args@.len() - i,
        {
            let ghost prev = args.deep_view();
            args.push(clone_string(&req.args[i]));
            i += 1;
            proof {
                assert(args.deep_view() =~= prev.push(req.args@[i - 1]@));
                assert(part3 + req.args.deep_view().take(i as int) =~= (part3
                    + req.args.deep_view().take(i as int - 1)).push(req.args@[i - 1]@));
            }
        }
        proof {
            assert(req.args.deep_view().take(req.args@.len() as int) =~= req.args.deep_view());
        }
        CommandSpec { program: clone_string(&self.renderdoccmd_exe), args, cwd: None }
    }

    /// Reads a launch outcome: the exit code is the target's connection
    /// identifier and must be non-negative; a negative code is
    /// `InvalidTargetIdent`.
    pub fn launch_capture(&self, req: &CaptureLaunchRequest, outcome: SpawnOutcome) -> (r: Result<
        CaptureLaunchResult,
        CaptureLaunchError,
    >)
        ensures
            match outcome {
                SpawnOutcome::Finished { code: Some(c), stdout, stderr } => {
                    if c >= 0 {
                        r matches Ok(res) && res.target_ident == c && res.stdout@ == stdout@
                            && res.stderr@ == stderr@
                    } else {
                        r matches Err(CaptureLaunchError::InvalidTargetIdent(b)) && b == c
                    }
                },
                SpawnOutcome::SpawnError { .. } => r matches Err(
                    CaptureLaunchError::Command(_),
                ),
                SpawnOutcome::Finished { code: None, .. } => r matches Err(
                    CaptureLaunchError::Command(_),
                ),
            },
    {
        let cmd = self.launch_capture_command(req);
        let out: CommandOutputText = match run_command_output_text(&cmd, outcome) {
            Ok(o) => o,
            Err(e) => {
                return Err(CaptureLaunchError::Command(Box::new(e)));
            },
        };
        if out.status >= 0 {
            Ok(
                CaptureLaunchResult {
                    target_ident: out.status as u32,
                    stdout: out.stdout,
                    stderr: out.stderr,
                },
            )
        } else {
            Err(CaptureLaunchError::InvalidTargetIdent(out.status))
        }
    }

    /// The command line of a version probe.
    pub fn version_command(&self) -> (r: CommandSpec)
        ensures
            r.program@ == self.renderdoccmd_exe@,
            r.args.deep_view() == seq!["version"@],
            r.cwd is None,
    {
        let mut args: Vec<String> = Vec::new();
        args.push(String::from_str("version"));
        proof {
            assert(args.deep_view() =~= seq!["version"@]);
        }
        CommandSpec { program: clone_string(&self.renderdoccmd_exe), args, cwd: None }
    }

    /// Reads a version probe's outcome: the standard output verbatim
    /// whenever the process ran to any exit code, the failure's message
    /// otherwise.  A non-zero exit still yields the output.
    pub fn version(&self, outcome: SpawnOutcome) -> (r: Result<String, String>)
        ensures
            match outcome {
                SpawnOutcome::Finished { code: Some(_), stdout, .. } => r matches Ok(s) && s@
                    == stdout@,
                SpawnOutcome::SpawnError { message } => r matches Err(m) && m@ == message@,
                SpawnOutcome::Finished { code: None, .. } => r is Err,
            },
    {
        let cmd = self.version_command();
        match run_command_output_text(&cmd, outcome) {
            Ok(out) => Ok(out.stdout),
            Err(CommandError::Spawn { message, .. }) => Err(message),
            Err(_) => Err(String::from_str("process exited without a status code")),
        }
    }

    /// The command line of a thumbnail export: `thumb -o <output> <capture>`.
    pub fn save_thumbnail_command(&self, capture_path: &String, output_path: &String) -> (r:
        CommandSpec)
        ensures
            r.program@ == self.renderdoccmd_exe@,
            r.args.deep_view() == seq!["thumb"@, "-o"@, output_path@, capture_path@],
            r.cwd is None,
    {
        let mut args: Vec<String> = Vec::new();
        args.push(String::from_str("thumb"));
        args.push(String::from_str("-o"));
        args.push(clone_string(output_path));
        args.push(clone_string(capture_path));
        proof {
            assert(args.deep_view() =~= seq!["thumb"@, "-o"@, output_path@, capture_path@]);
        }
        CommandSpec { program: clone_string(&self.renderdoccmd_exe), args, cwd: None }
    }

    /// Reads a thumbnail export's outcome: success exactly on a zero
    /// exit code.
    pub fn save_thumbnail(
        &self,
        capture_path: &String,
        output_path: &String,
        outcome: SpawnOutcome,
    ) -> (r: Result<(), String>)
        ensures
            match outcome {
                SpawnOutcome::Finished { code: Some(c), .. } => (c == 0 <==> r is Ok),
                SpawnOutcome::SpawnError { message } => r matches Err(m) && m@ == message@,
                SpawnOutcome::Finished { code: None, .. } => r is Err,
            },
    {
        let cmd = self.save_thumbnail_command(capture_path, output_path);
        match run_command_expect_success(&cmd, outcome) {
            Ok(_) => Ok(()),
            Err(CommandError::Spawn { message, .. }) => Err(message),
            Err(CommandError::NonZeroExit { .. }) => Err(
                String::from_str("thumbnail export exited with a non-zero status"),
            ),
            Err(CommandError::NoStatusCode { .. }) => Err(
                String::from_str("process exited without a status code"),
            ),
        }
    }

    /// The command line that opens a capture in the interactive UI.
    pub fn open_capture_ui_command(&self, capture_path: &String) -> (r: CommandSpec)
        ensures
            r.program@ == self.qrenderdoc_exe@,
            r.args.deep_view() == seq![capture_path@],
            r.cwd is None,
    {
        let mut args: Vec<String> = Vec::new();
        args.push(clone_string(capture_path));
        proof {
            assert(args.deep_view() =~= seq![capture_path@]);
        }
        CommandSpec { program: clone_string(&self.qrenderdoc_exe), args, cwd: None }
    }
}

} // verus!
