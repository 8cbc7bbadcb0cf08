use renderdog_automation::command::CommandError;
use renderdog_automation::command::CommandSpec;
use renderdog_automation::command::SpawnOutcome;
use renderdog_automation::command::run_command_expect_success;
use renderdog_automation::command::run_command_output_text;
use renderdog_automation::paths::resolve_path_from_base;
use renderdog_automation::renderdoccmd::CaptureLaunchError;
use renderdog_automation::renderdoccmd::CaptureLaunchRequest;
use renderdog_automation::renderdoccmd::RenderDocInstallation;
use renderdog_automation::scripting::QRenderDocPythonError;
use renderdog_automation::scripting::QRenderDocPythonRequest;
use renderdog_automation::scripting::qrenderdoc_python_command;
use renderdog_automation::scripting::qrenderdoc_python_result;
use renderdog_automation::workflows::ExportBundleRequest;
use renderdog_automation::workflows::default_frames;
use renderdog_automation::workflows::default_host;
use renderdog_automation::workflows::default_max_results;
use renderdog_automation::workflows::default_timeout_s;
use renderdog_automation::workflows::default_true;
use renderdog_automation::workflows::export_bundle::export_bundle_requests;

fn install() -> RenderDocInstallation {
    RenderDocInstallation {
        root_dir: "/opt/renderdoc".to_string(),
        qrenderdoc_exe: "/opt/renderdoc/bin/qrenderdoc".to_string(),
        renderdoccmd_exe: "/opt/renderdoc/bin/renderdoccmd".to_string(),
    }
}

fn finished(code: i32, stdout: &str, stderr: &str) -> SpawnOutcome {
    SpawnOutcome::Finished {
        code: Some(code),
        stdout: stdout.to_string(),
        stderr: stderr.to_string(),
    }
}

#[test]
fn output_text_keeps_nonzero_exits() {
    let cmd = CommandSpec::new("tool".to_string()).arg("version".to_string());
    let out = run_command_output_text(&cmd, finished(3, "v1.36", "")).expect("exit code present");
    assert_eq!(out.status, 3);
    assert_eq!(out.stdout, "v1.36");
}

#[test]
fn output_text_classifies_spawn_failure() {
    let cmd = CommandSpec::new("missing".to_string());
    let err = run_command_output_text(
        &cmd,
        SpawnOutcome::SpawnError { message: "no such file".to_string() },
    )
    .unwrap_err();
    match err {
        CommandError::Spawn { program, message, .. } => {
            assert_eq!(program, "missing");
            assert_eq!(message, "no such file");
        },
        _ => panic!("expected a spawn error"),
    }
}

#[test]
fn output_text_classifies_missing_code() {
    let cmd = CommandSpec::new("tool".to_string());
    let err = run_command_output_text(
        &cmd,
        SpawnOutcome::Finished { code: None, stdout: "so".to_string(), stderr: "se".to_string() },
    )
    .unwrap_err();
    match err {
        CommandError::NoStatusCode { stdout, stderr, .. } => {
            assert_eq!(stdout, "so");
            assert_eq!(stderr, "se");
        },
        _ => panic!("expected a missing-status error"),
    }
}

#[test]
fn expect_success_rejects_nonzero() {
    let cmd = CommandSpec::new("tool".to_string());
    let err = run_command_expect_success(&cmd, finished(2, "out", "err")).unwrap_err();
    match err {
        CommandError::NonZeroExit { status, stdout, stderr, .. } => {
            assert_eq!(status, 2);
            assert_eq!(stdout, "out");
            assert_eq!(stderr, "err");
        },
        _ => panic!("expected a non-zero-exit error"),
    }
    assert!(run_command_expect_success(&cmd, finished(0, "", "")).is_ok());
}

#[test]
fn command_error_program_accessor() {
    let e = CommandError::NonZeroExit {
        program: "renderdoccmd".to_string(),
        args: Vec::new(),
        cwd: None,
        status: 1,
        stdout: String::new(),
        stderr: String::new(),
    };
    assert_eq!(e.program(), "renderdoccmd");
}

#[test]
fn display_command_line_quotes_whitespace() {
    let cmd = CommandSpec::new("/opt/render doc/bin/tool".to_string())
        .arg("capture".to_string())
        .arg("my exe".to_string());
    assert_eq!(
        cmd.display_command_line(),
        "\"/opt/render doc/bin/tool\" capture \"my exe\""
    );
}

#[test]
fn launch_capture_reads_target_ident_from_exit_code() {
    let req = CaptureLaunchRequest {
        executable: "/bin/app".to_string(),
        args: vec!["--demo".to_string()],
        working_dir: Some("/work".to_string()),
        capture_file_template: None,
    };
    let inst = install();
    let cmd = inst.launch_capture_command(&req);
    assert_eq!(cmd.program, "/opt/renderdoc/bin/renderdoccmd");
    assert_eq!(
        cmd.args,
        vec![
            "capture".to_string(),
            "-d".to_string(),
            "/work".to_string(),
            "/bin/app".to_string(),
            "--demo".to_string(),
        ]
    );
    let ok = inst.launch_capture(&req, finished(38920, "", "")).expect("launch");
    assert_eq!(ok.target_ident, 38920);
    let err = inst.launch_capture(&req, finished(-1, "", "")).unwrap_err();
    match err {
        CaptureLaunchError::InvalidTargetIdent(c) => assert_eq!(c, -1),
        _ => panic!("expected an invalid-ident error"),
    }
}

#[test]
fn version_returns_stdout_even_on_nonzero_exit() {
    let inst = install();
    let v = inst.version(finished(1, "v1.36.0\n", "")).expect("version");
    assert_eq!(v, "v1.36.0\n");
    let cmd = inst.version_command();
    assert_eq!(cmd.args, vec!["version".to_string()]);
}

#[test]
fn save_thumbnail_requires_zero_exit() {
    let inst = install();
    let cap = "c.rdc".to_string();
    let out = "thumb.png".to_string();
    assert!(inst.save_thumbnail(&cap, &out, finished(0, "", "")).is_ok());
    assert!(inst.save_thumbnail(&cap, &out, finished(1, "", "")).is_err());
    let cmd = inst.save_thumbnail_command(&cap, &out);
    assert_eq!(
        cmd.args,
        vec!["thumb".to_string(), "-o".to_string(), "thumb.png".to_string(), "c.rdc".to_string()]
    );
}

#[test]
fn qrenderdoc_python_command_line() {
    let inst = install();
    let req = QRenderDocPythonRequest {
        script_path: "/scripts/find_events_json.py".to_string(),
        args: vec!["extra".to_string()],
        working_dir: Some("/runs/find_events-1-2-3".to_string()),
    };
    let cmd = qrenderdoc_python_command(&inst.qrenderdoc_exe, &req);
    assert_eq!(cmd.program, "/opt/renderdoc/bin/qrenderdoc");
    assert_eq!(
        cmd.args,
        vec![
            "--python".to_string(),
            "/scripts/find_events_json.py".to_string(),
            "extra".to_string(),
        ]
    );
    assert_eq!(cmd.cwd.as_deref(), Some("/runs/find_events-1-2-3"));
}

#[test]
fn resolve_path_prefers_absolute() {
    let base = "/work".to_string();
    assert_eq!(resolve_path_from_base(&base, &"/abs/c.rdc".to_string()), "/abs/c.rdc");
    assert_eq!(resolve_path_from_base(&base, &"rel/c.rdc".to_string()), "/work/rel/c.rdc");
    assert_eq!(resolve_path_from_base(&base, &"c:\\caps\\x.rdc".to_string()), "c:\\caps\\x.rdc");
}

#[test]
fn request_defaults() {
    assert_eq!(default_host(), "localhost");
    assert_eq!(default_frames(), 1);
    assert_eq!(default_timeout_s(), 60);
    assert!(default_true());
    assert_eq!(default_max_results(), Some(200));
}

#[test]
fn bundle_request_split_shares_filter() {
    let req = ExportBundleRequest {
        capture_path: "c.rdc".to_string(),
        output_dir: "out".to_string(),
        basename: "frame".to_string(),
        only_drawcalls: true,
        marker_prefix: Some("Pass1".to_string()),
        event_id_min: Some(1),
        event_id_max: Some(9),
        name_contains: None,
        marker_contains: None,
        case_sensitive: false,
        include_cbuffers: true,
        include_outputs: false,
    };
    let (a, b) = export_bundle_requests(&req);
    assert_eq!(a.capture_path, "c.rdc");
    assert_eq!(a.basename, "frame");
    assert!(a.only_drawcalls);
    assert_eq!(a.marker_prefix.as_deref(), Some("Pass1"));
    assert_eq!(b.output_dir, "out");
    assert_eq!(b.event_id_min, Some(1));
    assert!(b.include_cbuffers);
    assert!(!b.include_outputs);
}

#[test]
fn qrenderdoc_python_outcomes() {
    let inst = install();
    let req = QRenderDocPythonRequest {
        script_path: "/scripts/missing.py".to_string(),
        args: Vec::new(),
        working_dir: None,
    };
    let cmd = qrenderdoc_python_command(&inst.qrenderdoc_exe, &req);
    // A missing script is reported before anything runs.
    let err = qrenderdoc_python_result(&cmd, &req.script_path, false, finished(0, "", ""))
        .unwrap_err();
    match err {
        QRenderDocPythonError::ScriptNotFound(p) => assert_eq!(p, "/scripts/missing.py"),
        _ => panic!("expected a script-not-found error"),
    }
    // A zero exit yields the captured streams.
    let ok = qrenderdoc_python_result(&cmd, &req.script_path, true, finished(0, "out", "err"))
        .expect("zero exit");
    assert_eq!(ok.status, 0);
    assert_eq!(ok.stdout, "out");
    assert_eq!(ok.stderr, "err");
    // A non-zero exit is an infrastructure failure carrying the output.
    let err = qrenderdoc_python_result(&cmd, &req.script_path, true, finished(9, "o", "e"))
        .unwrap_err();
    match err {
        QRenderDocPythonError::Command(e) => match *e {
            CommandError::NonZeroExit { status, stdout, stderr, .. } => {
                assert_eq!(status, 9);
                assert_eq!(stdout, "o");
                assert_eq!(stderr, "e");
            },
            _ => panic!("expected a non-zero-exit error"),
        },
        _ => panic!("expected a command error"),
    }
}
