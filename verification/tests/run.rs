use deb_toolkit::session::apply::{
    accepts_event, apply, apply_step, Action, Event, Progress, SessionOp, StepError,
};
use deb_toolkit::session::plan::{Plan, Step};
use deb_toolkit::text::{join_strings, trim, usize_to_decimal};

fn plan(steps: Vec<Step>) -> Plan {
    Plan { description: None, steps }
}

/// Drives a run to its end. `answer` plays the session: it gets each
/// requested operation and returns the event to report.
fn drive(
    plan: &Plan,
    dir: &str,
    dry_run: bool,
    mut answer: impl FnMut(&Action) -> Event,
) -> (Vec<String>, Result<(), String>) {
    let mut log = Vec::new();
    let mut progress = Progress::Start;
    let mut event = Event::Start;
    loop {
        assert!(accepts_event(plan, dry_run, progress, &event));
        let (next, action) = apply(plan, dir, dry_run, progress, event);
        match &action {
            Action::Finish { result } => {
                return (log, result.as_ref().map(|_| ()).map_err(|e| e.message()));
            }
            Action::Perform { step, op } => log.push(format!("perform {} {:?}", step, op)),
            Action::Probe { step, paths } => log.push(format!("probe {} {:?}", step, paths)),
        }
        event = answer(&action);
        progress = next;
    }
}

fn ok_answer(action: &Action) -> Event {
    match action {
        Action::Perform { op: SessionOp::ReadField { .. }, .. } => Event::FieldRead {
            value: "foo".into(),
        },
        Action::Perform { .. } => Event::Completed,
        Action::Probe { paths, .. } => Event::Probed {
            present: vec![true; paths.len()],
        },
        Action::Finish { .. } => unreachable!(),
    }
}

fn full_plan() -> Plan {
    plan(vec![
        Step::RenamePackage { new_name: "foo".into() },
        Step::ReplaceSuite { new_suite: "stable".into() },
        Step::Reversion { new_version: "2.0".into(), update_deps: true },
        Step::Insert { dest: "/x".into(), sources: vec!["a".into(), "b".into()], directory: true },
        Step::Remove { pattern: "/y/*".into() },
        Step::Move { source: "/a".into(), destination: "/b".into() },
        Step::Replace { pattern: "/c/*".into(), replacement: "./new".into() },
        Step::ReadField { field: "Package".into(), expected: Some("foo".into()) },
    ])
}

#[test]
fn run_performs_every_step_in_order() {
    let (log, result) = drive(&full_plan(), "/m", false, ok_answer);
    assert_eq!(result, Ok(()));
    assert_eq!(log.len(), 8);
    for (i, line) in log.iter().enumerate() {
        assert!(line.starts_with(&format!("perform {} ", i)), "{}", line);
    }
    assert!(log[3].contains("\"/m/a\"") && log[3].contains("\"/m/b\""), "{}", log[3]);
    assert!(log[6].contains("\"/m/./new\""), "{}", log[6]);
}

#[test]
fn empty_plan_finishes_at_once() {
    let (log, result) = drive(&plan(vec![]), "/m", false, ok_answer);
    assert!(log.is_empty());
    assert_eq!(result, Ok(()));
    let (log, result) = drive(&plan(vec![]), "/m", true, ok_answer);
    assert!(log.is_empty());
    assert_eq!(result, Ok(()));
}

#[test]
fn dry_run_only_probes_local_files() {
    let (log, result) = drive(&full_plan(), "/m", true, ok_answer);
    assert_eq!(result, Ok(()));
    assert_eq!(log.len(), 8);
    assert!(log.iter().all(|l| l.starts_with("probe ")));
    assert_eq!(log[0], "probe 0 []");
    assert_eq!(log[3], "probe 3 [\"/m/a\", \"/m/b\"]");
    assert_eq!(log[6], "probe 6 [\"/m/./new\"]");
}

#[test]
fn failed_operation_stops_the_run_and_names_the_step() {
    let mut calls = 0;
    let (log, result) = drive(&full_plan(), "/m", false, |action| {
        calls += 1;
        match action {
            Action::Perform { op: SessionOp::Remove { .. }, .. } => Event::Failed {
                message: "no file matches /y/*".into(),
            },
            other => ok_answer(other),
        }
    });
    assert_eq!(calls, 5);
    assert_eq!(log.len(), 5);
    assert_eq!(
        result,
        Err("Step 5 of 8 failed (remove /y/*): no file matches /y/*".to_string())
    );
}

#[test]
fn read_field_mismatch_fails_with_both_values() {
    let p = plan(vec![Step::ReadField {
        field: "Version".into(),
        expected: Some("2.0.0".into()),
    }]);
    let (_, result) = drive(&p, "/m", false, |_| Event::FieldRead { value: "1.0.0".into() });
    assert_eq!(
        result,
        Err("Step 1 of 1 failed (read-field Version == \"2.0.0\"): read-field assertion failed for `Version`:\n  expected: \"2.0.0\"\n    actual: \"1.0.0\"".to_string())
    );
}

#[test]
fn read_field_without_expectation_accepts_any_value() {
    let p = plan(vec![Step::ReadField { field: "Package".into(), expected: None }]);
    let (_, result) = drive(&p, "/m", false, |_| Event::FieldRead { value: "anything".into() });
    assert_eq!(result, Ok(()));
}

#[test]
fn insert_without_sources_fails_before_touching_the_session() {
    let p = plan(vec![
        Step::RenamePackage { new_name: "x".into() },
        Step::Insert { dest: "/x".into(), sources: vec![], directory: false },
        Step::Remove { pattern: "/z".into() },
    ]);
    let (log, result) = drive(&p, "/m", false, ok_answer);
    assert_eq!(log.len(), 1);
    assert_eq!(
        result,
        Err("Step 2 of 3 failed (insert /x ← []): insert: `sources` is empty".to_string())
    );
    assert!(matches!(
        apply_step(&p.steps[1], "/m"),
        Err(StepError::InsertNoSources)
    ));
}

#[test]
fn dry_run_reports_missing_file_as_would_fail() {
    let p = plan(vec![Step::Replace { pattern: "/c".into(), replacement: "new".into() }]);
    let (_, result) = drive(&p, "/m/", true, |_| Event::Probed { present: vec![false] });
    assert_eq!(
        result,
        Err("Step 1 of 1 would fail (replace /c ← new): replace: replacement file does not exist: /m/new".to_string())
    );
}

#[test]
fn dry_run_rejects_multi_source_insert_without_directory() {
    let p = plan(vec![Step::Insert {
        dest: "/x".into(),
        sources: vec!["a".into(), "b".into()],
        directory: false,
    }]);
    let (log, result) = drive(&p, "/m", true, ok_answer);
    assert!(log.is_empty());
    assert_eq!(
        result,
        Err("Step 1 of 1 would fail (insert /x ← [\"a\", \"b\"]): insert: 2 sources but `directory` is false — must be true to use multiple sources".to_string())
    );
}

#[test]
fn finished_run_accepts_no_event() {
    let p = plan(vec![]);
    assert!(!accepts_event(&p, false, Progress::Finished, &Event::Completed));
    assert!(!accepts_event(&p, false, Progress::Awaiting { step: 0 }, &Event::Completed));
}

#[test]
fn summaries_name_each_verb() {
    let steps = full_plan().steps;
    let got: Vec<String> = steps.iter().map(|s| s.summary()).collect();
    assert_eq!(
        got,
        vec![
            "rename-package → foo",
            "replace-suite → stable",
            "reversion → 2.0",
            "insert -d /x ← 2 file(s)",
            "remove /y/*",
            "move /a → /b",
            "replace /c/* ← ./new",
            "read-field Package == \"foo\"",
        ]
    );
    let single = Step::Insert { dest: "/x".into(), sources: vec!["q\"uote".into()], directory: false };
    assert_eq!(single.summary(), "insert /x ← [\"q\\\"uote\"]");
}

#[test]
fn decimal_rendering_matches_display() {
    for n in [0usize, 7, 10, 99, 100, 12345, usize::MAX] {
        assert_eq!(usize_to_decimal(n), n.to_string());
    }
}

#[test]
fn trim_drops_unicode_white_space_only_at_the_ends() {
    assert_eq!(trim("\u{3000}\t a b \u{85}\n"), "a b");
    assert_eq!(trim("   "), "");
    assert_eq!(trim(""), "");
    assert_eq!(trim("x\u{200b}"), "x\u{200b}");
}

#[test]
fn join_puts_the_separator_between_neighbours_only() {
    assert_eq!(join_strings(&vec![], ", "), "");
    assert_eq!(join_strings(&vec!["a".to_string()], ", "), "a");
    assert_eq!(join_strings(&vec!["a".to_string(), "b".to_string()], ", "), "a, b");
}

/// The operations a run performed, without step numbers.
fn ops(log: &[String]) -> Vec<String> {
    log.iter()
        .map(|l| l.splitn(3, ' ').nth(2).unwrap_or("").to_string())
        .collect()
}

#[test]
fn concatenated_plan_runs_like_its_parts() {
    let whole = full_plan();
    let mut first = full_plan();
    let second = Plan { description: None, steps: first.steps.split_off(3) };
    let (lw, rw) = drive(&whole, "/m", false, ok_answer);
    let (l1, r1) = drive(&first, "/m", false, ok_answer);
    let (l2, r2) = drive(&second, "/m", false, ok_answer);
    assert_eq!(rw, Ok(()));
    assert!(r1.is_ok() && r2.is_ok());
    let mut parts = ops(&l1);
    parts.extend(ops(&l2));
    assert_eq!(ops(&lw), parts);

    // When the first part fails, the second is never reached.
    let fail_rename = |a: &Action| match a {
        Action::Perform { op: SessionOp::RenamePackage { .. }, .. } => Event::Failed {
            message: "boom".into(),
        },
        other => ok_answer(other),
    };
    let (lw, rw) = drive(&whole, "/m", false, fail_rename);
    let (l1, r1) = drive(&first, "/m", false, fail_rename);
    assert!(rw.is_err() && r1.is_err());
    assert_eq!(ops(&lw), ops(&l1));
}

#[test]
fn description_does_not_change_the_run() {
    let mut described = full_plan();
    described.description = Some("rebrand".into());
    let (l1, r1) = drive(&full_plan(), "/m", false, ok_answer);
    let (l2, r2) = drive(&described, "/m", false, ok_answer);
    assert_eq!(l1, l2);
    assert_eq!(r1, r2);
}
