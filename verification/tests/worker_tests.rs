use editor_core::build_meta::{export_outcome, ExportResult};
use editor_core::check::{
    parse_check_line, run_check_job, spawn_failure_outcome, CheckJob, CheckOutcome, CheckQueue,
};
use editor_core::orchestrator::{EditorCore, RunDecision};
use editor_core::project::ProjectState;
use editor_core::runner::{push_log_line, tag_line, RunnerMsg};
use editor_core::watcher::{EventKind, FsEvent, WatchFilter};

const ERROR_LINE: &str = "{\"reason\":\"compiler-message\",\"package_id\":\"sample 0.1.0\",\"message\":{\"rendered\":\"boring\",\"children\":[],\"code\":null,\"level\":\"error\",\"message\":\"mismatched types\",\"spans\":[{\"file_name\":\"src/main.rs\",\"byte_start\":120,\"line_start\":10,\"line_end\":10,\"column_start\":5,\"column_end\":9}]}}";

#[test]
fn error_line_becomes_diagnostic() {
    let d = parse_check_line(ERROR_LINE).expect("line is recognized");
    assert_eq!(d.file, "src/main.rs");
    assert_eq!(d.line, 10);
    assert_eq!(d.col, 5);
    assert_eq!(d.msg, "[error] mismatched types");
}

#[test]
fn error_line_yields_failed_outcome() {
    let lines = vec![
        "{\"reason\":\"compiler-artifact\",\"fresh\":true}".to_string(),
        ERROR_LINE.to_string(),
        "not json at all".to_string(),
    ];
    match run_check_job(&lines, 321) {
        CheckOutcome::Fail { duration_ms, diagnostics } => {
            assert_eq!(duration_ms, 321);
            assert_eq!(diagnostics.len(), 1);
            assert_eq!(diagnostics[0].msg, "[error] mismatched types");
        }
        CheckOutcome::Pass { .. } => panic!("expected a failure"),
    }
}

#[test]
fn unparseable_lines_mean_success() {
    // Whatever the process printed or how it exited: no recognized
    // diagnostic means a passing check.
    let lines = vec![
        "warning: something".to_string(),
        "{\"reason\":\"build-finished\",\"success\":false}".to_string(),
        "".to_string(),
    ];
    match run_check_job(&lines, 7) {
        CheckOutcome::Pass { duration_ms } => assert_eq!(duration_ms, 7),
        CheckOutcome::Fail { .. } => panic!("expected success"),
    }
}

#[test]
fn message_without_span_is_dropped() {
    let line = "{\"reason\":\"compiler-message\",\"message\":{\"level\":\"error\",\"message\":\"broken pipe\",\"spans\":[]}}";
    assert!(parse_check_line(line).is_none());
}

#[test]
fn message_text_is_trimmed_and_tagged() {
    let line = "{\"reason\":\"compiler-message\",\"message\":{\"level\":\"warning\",\"message\":\"  unused variable \",\"spans\":[{\"file_name\":\"src/lib.rs\",\"line_start\":3,\"column_start\":1}]}}";
    let d = parse_check_line(line).unwrap();
    assert_eq!(d.msg, "[warning] unused variable");
}

#[test]
fn string_escapes_are_decoded() {
    let line = "{\"reason\":\"compiler-message\",\"message\":{\"level\":\"error\",\"message\":\"expected \\\"x\\\"\\nfound \\u0041\\\\\",\"spans\":[{\"file_name\":\"a\\\\b.rs\",\"line_start\":1,\"column_start\":2}]}}";
    let d = parse_check_line(line).unwrap();
    assert_eq!(d.file, "a\\b.rs");
    assert_eq!(d.msg, "[error] expected \"x\"\nfound A\\");
}

#[test]
fn spawn_failure_is_a_synthetic_diagnostic() {
    match spawn_failure_outcome("/proj", "No such file or directory") {
        CheckOutcome::Fail { duration_ms, diagnostics } => {
            assert_eq!(duration_ms, 0);
            assert_eq!(diagnostics.len(), 1);
            assert_eq!(diagnostics[0].file, "/proj");
            assert_eq!(diagnostics[0].line, 0);
            assert_eq!(diagnostics[0].col, 0);
            assert_eq!(diagnostics[0].msg, "failed to spawn cargo: No such file or directory");
        }
        CheckOutcome::Pass { .. } => panic!("expected a failure"),
    }
}

#[test]
fn check_queue_is_fifo() {
    let mut q = CheckQueue::new();
    q.submit(CheckJob { root: "/a".to_string() });
    q.submit(CheckJob { root: "/b".to_string() });
    q.submit(CheckJob { root: "/c".to_string() });
    assert_eq!(q.len(), 3);
    assert_eq!(q.take_next().unwrap().root, "/a");
    assert_eq!(q.take_next().unwrap().root, "/b");
    assert_eq!(q.take_next().unwrap().root, "/c");
    assert!(q.take_next().is_none());
}

fn touch(paths: &[&str]) -> FsEvent {
    FsEvent { kind: EventKind::Modify, paths: paths.iter().map(|p| p.to_string()).collect() }
}

#[test]
fn ignored_paths_are_never_forwarded() {
    let mut f = WatchFilter::new("/proj".to_string(), 250);
    assert!(!f.on_event(&touch(&["/proj/target/debug/foo"]), 1000));
    assert!(!f.on_event(&touch(&["/proj/.git/index"]), 1300));
    assert!(!f.on_event(&touch(&["/proj/target"]), 1600));
    assert!(!f.on_event(&touch(&["/proj/sub/target/x", "/proj/sub/.git/y"]), 1900));
    // nothing above moved the debounce baseline
    assert!(f.on_event(&touch(&["/proj/src/main.rs"]), 1901));
}

#[test]
fn mixed_event_is_forwarded() {
    let mut f = WatchFilter::new("/proj".to_string(), 250);
    assert!(f.on_event(&touch(&["/proj/target/debug/foo", "/proj/src/lib.rs"]), 500));
}

#[test]
fn noise_kinds_are_dropped() {
    let mut f = WatchFilter::new("/proj".to_string(), 250);
    let access = FsEvent { kind: EventKind::Access, paths: vec!["/proj/src/a.rs".to_string()] };
    let other = FsEvent { kind: EventKind::Other, paths: vec!["/proj/src/a.rs".to_string()] };
    assert!(!f.on_event(&access, 100));
    assert!(!f.on_event(&other, 200));
    assert!(f.on_event(&touch(&["/proj/src/a.rs"]), 300));
}

#[test]
fn burst_collapses_to_one_notification() {
    let mut f = WatchFilter::new("/proj".to_string(), 250);
    let ev = touch(&["/proj/src/a.rs"]);
    let mut forwarded = 0;
    for now in [1000u64, 1001, 1100, 1249] {
        if f.on_event(&ev, now) {
            forwarded += 1;
        }
    }
    assert_eq!(forwarded, 1);
}

#[test]
fn spaced_events_each_forward() {
    let mut f = WatchFilter::new("/proj".to_string(), 250);
    let ev = touch(&["/proj/design/initial.scene.ron"]);
    assert!(f.on_event(&ev, 1000));
    assert!(!f.on_event(&ev, 1249));
    assert!(f.on_event(&ev, 1250));
    assert!(f.on_event(&ev, 2000));
}

#[test]
fn export_success_reloads_schema() {
    let res = ExportResult { status: 0, stdout: String::new(), stderr: String::new() };
    assert!(res.success());
    let (msg, reload) = export_outcome(&res);
    assert_eq!(msg, "Exported script schema.");
    assert!(reload);
}

#[test]
fn export_failure_names_status_and_skips_reload() {
    let res = ExportResult { status: 3, stdout: String::new(), stderr: "boom".to_string() };
    assert!(!res.success());
    let (msg, reload) = export_outcome(&res);
    assert_eq!(msg, "Export failed (exit 3). See console.");
    assert!(msg.contains('3'));
    assert!(!reload);
}

#[test]
fn log_is_bounded_to_recent_lines() {
    let mut log: Vec<String> = Vec::new();
    for i in 0..5001u32 {
        push_log_line(&mut log, format!("line {}", i));
    }
    assert_eq!(log.len(), 5000);
    assert_eq!(log[0], "line 1");
    assert_eq!(log[4999], "line 5000");
}

#[test]
fn lines_are_tagged_for_the_console() {
    assert_eq!(tag_line("out", "hello"), "[out] hello");
    assert_eq!(tag_line("err", "oops"), "[err] oops");
    assert_eq!(tag_line("export/stdout", "wrote schema"), "[export/stdout] wrote schema");
    let m = RunnerMsg::Line("x".to_string());
    assert!(matches!(m, RunnerMsg::Line(_)));
    assert!(matches!(RunnerMsg::Exited(3), RunnerMsg::Exited(3)));
}

const CONFIG_TEXT: &str =
    "ProjectConfig(\n  name: \"sample\",\n  entry: \"src/main.rs\",\n  runtime_version: \"0.16\",\n)\n";

fn opened_core() -> EditorCore {
    let mut core = EditorCore::new();
    let st = ProjectState::open("/p".to_string(), Some(CONFIG_TEXT.to_string()), None).unwrap();
    core.install_project(st);
    core
}

#[test]
fn run_gate_rejects_without_project_and_while_active() {
    let mut core = EditorCore::new();
    assert!(matches!(core.start_run(), RunDecision::NoProject));
    assert_eq!(core.last_log, "no project open");

    let mut core = opened_core();
    assert!(matches!(core.start_run(), RunDecision::Start));
    assert!(core.run_active);
    assert_eq!(core.last_log, "runner started");
    assert!(matches!(core.start_run(), RunDecision::AlreadyActive));
    assert_eq!(core.last_log, "runner already active");
    core.stop_run();
    assert!(!core.run_active);
    assert_eq!(core.last_log, "runner stopped");
    assert!(matches!(core.start_run(), RunDecision::Start));
}

#[test]
fn check_results_drive_status_and_diagnostics() {
    let mut core = opened_core();
    core.apply_check_outcome(CheckOutcome::Pass { duration_ms: 42 });
    assert_eq!(core.last_log, "cargo check: OK in 42 ms");
    assert_eq!(core.project.as_ref().unwrap().last_diagnostics.len(), 0);

    let lines = vec![ERROR_LINE.to_string()];
    let outcome = run_check_job(&lines, 9);
    core.apply_check_outcome(outcome);
    assert_eq!(core.last_log, "cargo check: ERR in 9 ms");
    let diags = &core.project.as_ref().unwrap().last_diagnostics;
    assert_eq!(diags.len(), 1);
    assert_eq!(diags[0].file, "src/main.rs");

    // a later clean result leaves the status line to the newest result
    core.apply_check_outcome(CheckOutcome::Pass { duration_ms: 5 });
    assert_eq!(core.last_log, "cargo check: OK in 5 ms");
}

#[test]
fn schema_reload_follows_the_baseline_policy() {
    let mut core = opened_core();
    assert!(core.schema_needs_reload(Some(10)));
    assert!(!core.schema_needs_reload(None));
    core.note_schema_loaded(10, 4);
    assert_eq!(core.last_log, "Loaded script schema (4 scripts).");
    assert!(!core.schema_needs_reload(Some(10)));
    assert!(core.schema_needs_reload(Some(11)));
    core.set_status("No .schema.ron yet (run exporter)".to_string());
    assert_eq!(core.last_log, "No .schema.ron yet (run exporter)");
    // a failed load does not advance the baseline
    assert!(core.schema_needs_reload(Some(11)));
}

#[test]
fn console_pump_keeps_only_recent_lines() {
    let mut core = opened_core();
    for i in 0..5002u32 {
        core.pump_run_line(format!("[out] {}", i));
    }
    assert_eq!(core.run_log.len(), 5000);
    assert_eq!(core.run_log[0], "[out] 2");
}

#[test]
fn first_member_wins_for_repeated_keys() {
    let line = "{\"reason\":\"compiler-message\",\"message\":{\"level\":\"error\",\"level\":\"warning\",\"message\":\"dup\",\"spans\":[{\"file_name\":\"m.rs\",\"line_start\":1,\"column_start\":1}]}}";
    let d = parse_check_line(line).unwrap();
    assert_eq!(d.msg, "[error] dup");
}

#[test]
fn nested_unknown_fields_are_skipped() {
    let line = "{\"reason\":\"compiler-message\",\"target\":{\"kind\":[\"bin\"],\"deps\":{\"a\":[1,2,{\"b\":null}]}},\"message\":{\"children\":[{\"message\":\"inner\",\"spans\":[]}],\"level\":\"error\",\"message\":\"outer problem\",\"spans\":[{\"suggested_replacement\":null,\"file_name\":\"src/x.rs\",\"line_start\":7,\"column_start\":2,\"is_primary\":true}],\"code\":{\"code\":\"E0308\"}}}";
    let d = parse_check_line(line).unwrap();
    assert_eq!(d.file, "src/x.rs");
    assert_eq!(d.line, 7);
    assert_eq!(d.col, 2);
    assert_eq!(d.msg, "[error] outer problem");
}

#[test]
fn huge_line_numbers_are_not_recognized() {
    // a line number that does not fit 32 bits makes the line unrecognized
    let line = "{\"reason\":\"compiler-message\",\"message\":{\"level\":\"error\",\"message\":\"m\",\"spans\":[{\"file_name\":\"x\",\"line_start\":5000000000,\"column_start\":1}]}}";
    assert!(parse_check_line(line).is_none());
}
