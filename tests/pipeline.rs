use simharness::pipeline::{
    check_run, combined_output, Action, EnvFile, Infra, Phase, PipelineResult, PipelineRun,
    RunCheck, Shape, Stage, StageOutcome, StageReport, Toolchain,
};
use simharness::validate::{Expectation, Mismatch};

fn strings(v: &[&str]) -> Vec<String> {
    v.iter().map(|s| s.to_string()).collect()
}

fn compile_then_run() -> Toolchain {
    Toolchain {
        shape: Shape::CompileThenRun,
        required_env: strings(&["TOOL_HOME"]),
        program: "vcs".to_string(),
        flags: strings(&["-full64", "-sverilog", "-o", "simv"]),
        top_flag: "-top".to_string(),
        flags_after_top: Vec::new(),
        env_files: Vec::new(),
        leading_files: Vec::new(),
        trailing_files: Vec::new(),
        artifact: "simv".to_string(),
    }
}

fn single() -> Toolchain {
    Toolchain {
        shape: Shape::Single,
        required_env: strings(&["XCELIUM_HOME"]),
        program: "xrun".to_string(),
        flags: strings(&["-sv_ms", "-access", "+rwc"]),
        top_flag: "-top".to_string(),
        flags_after_top: strings(&["-input", "/cfg/probe.tcl"]),
        env_files: vec![EnvFile { var: 0, relative: "etc/disciplines.vams".to_string() }],
        leading_files: strings(&["/src/constants.sv"]),
        trailing_files: strings(&["/cfg/amscf.scs"]),
        artifact: String::new(),
    }
}

fn exited(code: i32, out: &str) -> StageOutcome {
    StageOutcome::Exited { code: Some(code), stdout: out.as_bytes().to_vec(), stderr: Vec::new() }
}

/// Runs a pipeline against stub stages that exit with the given codes,
/// returning the result and the stages launched.
fn run_with_stub(tc: Toolchain, codes: &[i32]) -> (PipelineResult, Vec<Stage>) {
    let mut run = PipelineRun::new(tc, "tb".to_string(), strings(&["a.sv"]), "/w".to_string());
    let mut launched = Vec::new();
    let mut action = run.start(&vec![Some("/opt/tool".to_string())]);
    loop {
        match action {
            Action::Launch(inv) => {
                let code = codes[launched.len()];
                launched.push(inv.stage);
                action = run.stage_finished(exited(code, "out\n"));
            }
            Action::Finish(result) => {
                assert_eq!(run.current_phase(), Phase::Done);
                assert_eq!(
                    run.stage_finished(exited(0, "")),
                    Action::Finish(PipelineResult::InfrastructureFailure(Infra::OutOfOrder))
                );
                return (result, launched);
            }
        }
    }
}

#[test]
fn failed_first_stage_stops_every_shape() {
    for tc in [compile_then_run(), single()] {
        let stage = if tc.shape == Shape::Single { Stage::Simulate } else { Stage::Compile };
        let (result, launched) = run_with_stub(tc, &[1, 0]);
        assert_eq!(launched, vec![stage]);
        assert_eq!(result, PipelineResult::ToolFailure { stage, code: Some(1) });
    }
}

#[test]
fn missing_tool_home_launches_nothing() {
    let mut run =
        PipelineRun::new(compile_then_run(), "tb".to_string(), Vec::new(), "/w".to_string());
    assert_eq!(run.required_env(), &strings(&["TOOL_HOME"]));
    let action = run.start(&vec![None]);
    assert_eq!(
        action,
        Action::Finish(PipelineResult::InfrastructureFailure(Infra::MissingEnv(
            "TOOL_HOME".to_string()
        )))
    );
    assert_eq!(run.current_phase(), Phase::Done);
    let mut again =
        PipelineRun::new(compile_then_run(), "tb".to_string(), Vec::new(), "/w".to_string());
    assert_eq!(
        again.start(&Vec::new()),
        Action::Finish(PipelineResult::InfrastructureFailure(Infra::MissingEnv(
            "TOOL_HOME".to_string()
        )))
    );
}

#[test]
fn compile_exit_two_is_a_tool_failure() {
    let (result, launched) = run_with_stub(compile_then_run(), &[2, 0]);
    assert_eq!(result, PipelineResult::ToolFailure { stage: Stage::Compile, code: Some(2) });
    assert_eq!(launched, vec![Stage::Compile]);
}

#[test]
fn clean_two_stage_run_passes_zero_error_check() {
    let mut run =
        PipelineRun::new(compile_then_run(), "tb".to_string(), strings(&["a.sv"]), "/w".to_string());
    assert!(matches!(run.start(&vec![Some("/t".to_string())]), Action::Launch(_)));
    let second = run.stage_finished(exited(0, "compiled\n"));
    match second {
        Action::Launch(inv) => {
            assert_eq!(inv.stage, Stage::Run);
            assert_eq!(inv.program, "/w/simv");
            assert!(inv.args.is_empty());
            assert_eq!(inv.stdout_log, "/w/simv.out");
            assert_eq!(inv.stderr_log, "/w/simv.err");
        }
        other => panic!("expected the run stage, got {other:?}"),
    }
    let result = match run.stage_finished(exited(0, "all checks passed\n")) {
        Action::Finish(r) => r,
        other => panic!("expected the end of the run, got {other:?}"),
    };
    match &result {
        PipelineResult::Completed(rs) => {
            assert_eq!(rs.len(), 2);
            assert_eq!(rs[0].stage, Stage::Compile);
            assert_eq!(rs[1].stage, Stage::Run);
            assert_eq!(combined_output(rs), b"compiled\nall checks passed\n".to_vec());
        }
        other => panic!("expected completion, got {other:?}"),
    }
    assert_eq!(check_run(&Expectation::Absent(b"ERROR".to_vec()), &result), Ok(()));
    assert_eq!(
        check_run(&Expectation::Count(b"passed".to_vec(), 2), &result),
        Err(RunCheck::Content(Mismatch::CountDiffers { expected: 2, found: 1 }))
    );
}

#[test]
fn error_in_output_fails_zero_error_check() {
    let result = PipelineResult::Completed(vec![StageReport {
        stage: Stage::Simulate,
        stdout: b"ERROR: mismatch\n".to_vec(),
        stderr: Vec::new(),
    }]);
    assert_eq!(
        check_run(&Expectation::Absent(b"ERROR".to_vec()), &result),
        Err(RunCheck::Content(Mismatch::CountDiffers { expected: 0, found: 1 }))
    );
}

#[test]
fn failed_run_is_not_examined() {
    let result = PipelineResult::ToolFailure { stage: Stage::Compile, code: Some(2) };
    assert_eq!(
        check_run(&Expectation::Absent(b"ERROR".to_vec()), &result),
        Err(RunCheck::NotCompleted)
    );
}

#[test]
fn single_stage_argument_vector() {
    let mut run = PipelineRun::new(
        single(),
        "tb_dff".to_string(),
        strings(&["/src/primitives.sv", "/src/rx.sv"]),
        "/build/dff".to_string(),
    );
    let inv = match run.start(&vec![Some("/opt/xcelium".to_string())]) {
        Action::Launch(inv) => inv,
        other => panic!("expected a launch, got {other:?}"),
    };
    assert_eq!(inv.stage, Stage::Simulate);
    assert_eq!(inv.program, "xrun");
    assert_eq!(
        inv.args,
        strings(&[
            "-sv_ms",
            "-access",
            "+rwc",
            "-top",
            "tb_dff",
            "-input",
            "/cfg/probe.tcl",
            "/opt/xcelium/etc/disciplines.vams",
            "/src/constants.sv",
            "/src/primitives.sv",
            "/src/rx.sv",
            "/cfg/amscf.scs",
        ])
    );
    assert_eq!(inv.work_dir, "/build/dff");
    assert_eq!(inv.stdout_log, "/build/dff/xrun.out");
    assert_eq!(inv.stderr_log, "/build/dff/xrun.err");
    assert_eq!(run.current_phase(), Phase::AwaitStage(0));
    let done = run.stage_finished(exited(0, "ok\n"));
    assert!(matches!(done, Action::Finish(PipelineResult::Completed(ref rs)) if rs.len() == 1));
}

#[test]
fn signal_and_infrastructure_outcomes() {
    let mut run = PipelineRun::new(single(), "tb".to_string(), Vec::new(), "/w".to_string());
    run.start(&vec![Some("/x".to_string())]);
    assert_eq!(
        run.stage_finished(StageOutcome::Exited { code: None, stdout: Vec::new(), stderr: Vec::new() }),
        Action::Finish(PipelineResult::ToolFailure { stage: Stage::Simulate, code: None })
    );
    let mut run = PipelineRun::new(single(), "tb".to_string(), Vec::new(), "/w".to_string());
    run.start(&vec![Some("/x".to_string())]);
    assert_eq!(
        run.stage_finished(StageOutcome::Failed(Infra::Spawn)),
        Action::Finish(PipelineResult::InfrastructureFailure(Infra::Spawn))
    );
}

#[test]
fn events_out_of_order_change_nothing() {
    let mut run = PipelineRun::new(single(), "tb".to_string(), Vec::new(), "/w".to_string());
    assert_eq!(
        run.stage_finished(exited(0, "")),
        Action::Finish(PipelineResult::InfrastructureFailure(Infra::OutOfOrder))
    );
    assert_eq!(run.current_phase(), Phase::AwaitEnv);
    run.start(&vec![Some("/x".to_string())]);
    assert_eq!(
        run.start(&vec![Some("/x".to_string())]),
        Action::Finish(PipelineResult::InfrastructureFailure(Infra::OutOfOrder))
    );
    assert_eq!(run.current_phase(), Phase::AwaitStage(0));
}
