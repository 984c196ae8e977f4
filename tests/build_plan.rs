use boulder::builder::{
    after_breakpoint, after_command, exit_result, Action, Builder, Error, ExecError, ExitStatus, Flow,
    Job, Paths,
};
use boulder::profile::{annotate, build_profile, profile_from_lines};
use boulder::text::split_lines;
use boulder::recipe::{
    breakpoint_line_in, Architecture, BuildTarget, Breakpoint, Command, PgoStage, Recipe, Script,
    Step, TargetSpec,
};

fn script(text: &str) -> Script {
    Script {
        env: None,
        commands: vec![Command::Content(text.to_string())],
        resolved_actions: vec![],
        resolved_definitions: vec![],
        dependencies: vec![],
    }
}

fn recipe(pgo: Option<Vec<PgoStage>>, targets: Vec<TargetSpec>) -> Recipe {
    Recipe { source: String::new(), networking: false, targets, pgo_stages: pgo }
}

fn native() -> TargetSpec {
    TargetSpec {
        build_target: BuildTarget::Native(Architecture::X86_64),
        profile_key: None,
        steps: vec![
            (Step::Install, script("make install")),
            (Step::Build, script("make")),
            (Step::Prepare, script("prep")),
        ],
    }
}

fn paths() -> Paths {
    Paths { build_root: "/mason/build".to_string() }
}

fn status(success: bool, code: Option<i32>, signal: Option<i32>, stopped: Option<i32>) -> ExitStatus {
    ExitStatus { success, code, signal, stopped_signal: stopped }
}

#[test]
fn job_plan_order_with_pgo() {
    let stages = vec![PgoStage::One, PgoStage::Two, PgoStage::Use];
    let b = Builder::new(recipe(Some(stages.clone()), vec![native()]), paths(), false).unwrap();
    assert_eq!(b.targets.len(), 1);
    let jobs = &b.targets[0].jobs;
    assert_eq!(jobs.len(), 3);
    for (job, stage) in jobs.iter().zip(stages) {
        assert_eq!(job.pgo_stage, Some(stage));
        let steps: Vec<Step> = job.steps.iter().map(|(s, _)| *s).collect();
        assert_eq!(steps, vec![Step::Prepare, Step::Build, Step::Install]);
    }
    assert_eq!(jobs[0].steps[1].1.commands, vec![Command::Content("make".to_string())]);
    assert_eq!(jobs[2].steps[2].1.commands, vec![Command::Content("make install".to_string())]);
    assert_eq!(jobs[0].build_dir, "/mason/build/x86_64-pgo-stage1");
    assert_eq!(jobs[2].work_dir, "/mason/build/x86_64-pgo-use/work");
    assert_eq!(jobs[1].pgo_dir().unwrap(), "/mason/build/x86_64-pgo-stage2-pgo");
}

#[test]
fn job_plan_without_pgo() {
    let cross = TargetSpec {
        build_target: BuildTarget::Cross(Architecture::X86_64, Architecture::Aarch64),
        profile_key: Some("aarch64".to_string()),
        steps: vec![(Step::Workload, script("w")), (Step::Setup, script("s"))],
    };
    let b = Builder::new(recipe(None, vec![native(), cross]), paths(), true).unwrap();
    assert!(b.ccache);
    assert_eq!(b.targets.len(), 2);
    assert_eq!(b.targets[1].jobs.len(), 1);
    let job = &b.targets[1].jobs[0];
    assert_eq!(job.pgo_stage, None);
    assert!(job.pgo_dir().is_none());
    assert_eq!(job.build_dir, "/mason/build/x86_64-to-aarch64");
    let steps: Vec<Step> = job.steps.iter().map(|(s, _)| *s).collect();
    assert_eq!(steps, vec![Step::Setup, Step::Workload]);
}

#[test]
fn no_build_targets() {
    assert!(matches!(Builder::new(recipe(None, vec![]), paths(), false), Err(Error::NoBuildTargets)));
}

#[test]
fn job_current_dir() {
    let job = Job::new(BuildTarget::Native(Architecture::X86), None, &vec![], &paths());
    assert_eq!(job.current_dir(true), "/mason/build/x86/work");
    assert_eq!(job.current_dir(false), "/mason/build/x86");
    assert!(job.steps.is_empty());
}

#[test]
fn breakpoint_line_block_scalar() {
    let mut source = String::new();
    for i in 1..12 {
        source.push_str(&format!("key{i}: value\n"));
    }
    source.push_str("build: |\n    make\n    make check\n    echo done\n");
    let lines: Vec<String> = source.lines().map(String::from).collect();
    let bp = Breakpoint { line_num: 3, exit: false };
    assert_eq!(breakpoint_line_in(&lines, None, Step::Build, &bp), Some(16));
    let r = Recipe { source, networking: false, targets: vec![native()], pgo_stages: None };
    assert_eq!(r.breakpoint_line(&bp, BuildTarget::Native(Architecture::X86_64), Step::Build), Some(16));
}

#[test]
fn breakpoint_line_inline_and_prepare() {
    let lines: Vec<String> = vec!["name: x".into(), "setup: ./configure".into()];
    let bp = Breakpoint { line_num: 1, exit: true };
    assert_eq!(breakpoint_line_in(&lines, None, Step::Setup, &bp), Some(3));
    assert_eq!(breakpoint_line_in(&lines, None, Step::Prepare, &bp), None);
    assert_eq!(breakpoint_line_in(&lines, None, Step::Check, &bp), None);
}

#[test]
fn breakpoint_line_in_profile() {
    let lines: Vec<String> = vec![
        "build: make".into(),
        "profiles:".into(),
        "    - aarch64:".into(),
        "        build: >".into(),
        "            make cross".into(),
    ];
    let bp = Breakpoint { line_num: 0, exit: false };
    assert_eq!(breakpoint_line_in(&lines, Some("aarch64"), Step::Build, &bp), Some(5));
    assert_eq!(breakpoint_line_in(&lines, None, Step::Build, &bp), Some(1));
}

#[test]
fn child_signal() {
    assert_eq!(exit_result(&status(false, None, Some(15), None)), Err(ExecError::Signal(15)));
    assert_eq!(after_command(&status(false, None, Some(15), None)), Flow::Finish(Err(ExecError::Signal(15))));
}

#[test]
fn exit_policy() {
    assert_eq!(exit_result(&status(true, Some(0), None, None)), Ok(()));
    assert_eq!(exit_result(&status(false, Some(2), None, None)), Err(ExecError::Code(2)));
    assert_eq!(exit_result(&status(false, None, None, Some(19))), Err(ExecError::Signal(19)));
    assert_eq!(exit_result(&status(false, None, None, None)), Err(ExecError::UnknownSignal));
    assert_eq!(exit_result(&status(false, None, Some(12345), Some(15))), Err(ExecError::UnknownSignal));
    assert_eq!(after_command(&status(true, Some(0), None, None)), Flow::Continue);
}

#[test]
fn breakpoint_exit_ends_build() {
    assert_eq!(after_breakpoint(&Breakpoint { line_num: 1, exit: true }), Flow::Finish(Ok(())));
    assert_eq!(after_breakpoint(&Breakpoint { line_num: 1, exit: false }), Flow::Continue);
}

#[test]
fn profile_contents() {
    let s = Script {
        env: Some("#!/bin/sh\nset -e\nTERM=dumb\nexport A=1\nexport B=2".to_string()),
        commands: vec![Command::Break(Breakpoint { line_num: 0, exit: false })],
        resolved_actions: vec![("make".to_string(), "make -j4".to_string())],
        resolved_definitions: vec![
            ("name".to_string(), "pkg".to_string()),
            ("ver".to_string(), "1".to_string()),
        ],
        dependencies: vec![],
    };
    assert_eq!(
        build_profile(&s),
        "export A=1\nexport B=2\na_make() {\nmake -j4\n}\nexport -f a_make\nd_name=\"pkg\"; export d_name\nd_ver=\"1\"; export d_ver"
    );
    assert_eq!(profile_from_lines(&vec![], &vec![], &vec![]), "\n\n");
}

#[test]
fn annotated_log_lines() {
    assert_eq!(annotate(Step::Build, false, "hello"), "││bu│ hello");
    assert_eq!(annotate(Step::Check, true, "x"), "│││ch│ x");
}

#[test]
fn text_lines_follow_line_endings() {
    assert_eq!(split_lines("a\r\nb\nc"), vec!["a", "b", "c"]);
    assert_eq!(split_lines("a\n"), vec!["a"]);
    assert_eq!(split_lines("a\r"), vec!["a\r"]);
    assert_eq!(split_lines("\n\n"), vec!["", ""]);
    assert!(split_lines("").is_empty());
}

#[test]
fn extra_deps_in_plan_order() {
    let mut spec = native();
    spec.steps[0].1.dependencies = vec!["make".to_string()];
    spec.steps[1].1.dependencies = vec!["gcc".to_string(), "binutils".to_string()];
    let b = Builder::new(recipe(Some(vec![PgoStage::One, PgoStage::Use]), vec![spec]), paths(), false).unwrap();
    assert_eq!(b.extra_deps(), vec!["gcc", "binutils", "make", "gcc", "binutils", "make"]);
}

#[test]
fn shell_environment() {
    let env = boulder::builder::shell_env("/mason/build/x86_64", false);
    assert_eq!(
        env,
        vec![
            ("HOME".to_string(), "/mason/build/x86_64".to_string()),
            ("PATH".to_string(), "/usr/bin:/usr/sbin".to_string()),
        ]
    );
    let env = boulder::builder::shell_env("/h", true);
    assert_eq!(env[2], ("TERM".to_string(), "xterm-256color".to_string()));
    assert_eq!(env.len(), 3);
}

#[test]
fn first_declaration_of_a_step_wins() {
    let declared = vec![(Step::Build, script("first")), (Step::Build, script("second"))];
    let job = Job::new(BuildTarget::Native(Architecture::X86_64), Some(PgoStage::Two), &declared, &paths());
    assert_eq!(job.steps.len(), 1);
    assert_eq!(job.steps[0].1.commands, vec![Command::Content("first".to_string())]);
}

#[test]
fn schedule_walks_plan_in_order() {
    let mut spec = native();
    spec.steps[1].1.commands.push(Command::Break(Breakpoint { line_num: 2, exit: true }));
    let b = Builder::new(recipe(Some(vec![PgoStage::One, PgoStage::Use]), vec![spec]), paths(), false).unwrap();
    let expected = |j: usize| {
        vec![
            Action::StartJob { target: 0, job: j },
            Action::Run { target: 0, job: j, step: 0, command: 0 },
            Action::Run { target: 0, job: j, step: 1, command: 0 },
            Action::Run { target: 0, job: j, step: 1, command: 1 },
            Action::Run { target: 0, job: j, step: 2, command: 0 },
        ]
    };
    let mut all = expected(0);
    all.extend(expected(1));
    assert_eq!(b.schedule(), all);
}

#[test]
fn breakpoint_banner_text() {
    assert_eq!(boulder::builder::breakpoint_banner(Some(16), false), "Breakpoint at line 16 (continue)");
    assert_eq!(boulder::builder::breakpoint_banner(Some(0), true), "Breakpoint at line 0 (exit)");
    assert_eq!(boulder::builder::breakpoint_banner(None, true), "Breakpoint (exit)");
    assert_eq!(
        boulder::builder::breakpoint_banner(Some(usize::MAX), false),
        format!("Breakpoint at line {} (continue)", usize::MAX)
    );
}
