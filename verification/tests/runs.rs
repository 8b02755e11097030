use nadi_md::dates::first_bad_date;
use nadi_md::code_run::{run_table, run_task, table_script_of, task_script_of, Report, RunStep, Style};

fn done(step: RunStep) -> Report<String> {
    match step {
        RunStep::Done(r) => r,
        RunStep::Execute(_) => panic!("expected a report"),
    }
}

#[test]
fn task_scripts_drop_leading_bangs() {
    assert_eq!(task_script_of("!a\n!!b\nc"), "a\nb\nc\n\n");
    assert_eq!(task_script_of(""), "\n\n");
    assert_eq!(task_script_of("x\n"), "x\n\n\n");
}

#[test]
fn table_scripts_call_the_table_function() {
    let (script, format) = table_script_of("| a |\n!net.x()\n| b |", "markdown  x=1 ");
    assert_eq!(
        script,
        "net.x()\n\nnetwork table_to_markdown(template=\"| a |\n| b |\n\",x=1)\n"
    );
    assert_eq!(format, "markdown");
    let (script, format) = table_script_of("| a |", " html ");
    assert_eq!(script, "\nnetwork table_to_markdown(template=\"| a |\n\")\n");
    assert_eq!(format, "markdown");
    let (script, format) = table_script_of("| a |", "html  ");
    assert_eq!(script, "\nnetwork table_to_markdown(template=\"| a |\n\")\n");
    assert_eq!(format, "markdown");
    let (_, format) = table_script_of("", "latex caption");
    assert_eq!(format, "latex");
}

#[test]
fn parse_errors_are_reported() {
    let mut run = run_task("net.load_str(", "");
    assert!(!run.clears_context());
    let report = done(run.next());
    assert_eq!(report.header, "ParseError:");
    assert_eq!(report.option, "error");
    assert_eq!(report.style, Style::Verbose);
    assert!(!report.body.is_empty());
    assert_ne!(report.body, "net.load_str(\n\n");
}

#[test]
fn tasks_run_in_order_then_report() {
    let mut run = run_task("nodes.NAME\n!nodes.NAME", "verbose extra new");
    assert!(run.clears_context());
    assert!(matches!(run.next(), RunStep::Execute(_)));
    run.record("printed", Ok(Some("v1".to_string())));
    assert!(matches!(run.next(), RunStep::Execute(_)));
    run.record("", Ok(None));
    let report = done(run.next());
    assert_eq!(
        report,
        Report {
            style: Style::Handler("verbose".to_string()),
            header: "Results:".to_string(),
            body: "printed\nv1\n".to_string(),
            option: "extra new".to_string(),
        }
    );
}

#[test]
fn runs_share_the_context_unless_asked() {
    let run = run_task("nodes.NAME", "");
    assert!(!run.clears_context());
}

#[test]
fn failing_tasks_are_shown() {
    let mut run = run_task("nodes.NAME\nnodes.NAME", "");
    assert!(matches!(run.next(), RunStep::Execute(_)));
    run.record("x", Err("boom".to_string()));
    let report = done(run.next());
    assert_eq!(
        report,
        Report {
            style: Style::Verbose,
            header: "*Error*:".to_string(),
            body: "x\nboom".to_string(),
            option: "error".to_string(),
        }
    );
    run.record("more", Ok(Some("ignored".to_string())));
    assert_eq!(done(run.next()), report);
}

#[test]
fn table_runs_keep_the_last_output() {
    let mut run = run_table("| a |\n| b |", "").expect("parses");
    assert!(run.clears_context());
    assert!(matches!(run.next(), RunStep::Execute(_)));
    run.record("out", Ok(Some("res".to_string())));
    let report = done(run.next());
    assert_eq!(
        report,
        Report {
            style: Style::Handler("markdown".to_string()),
            header: "Results:".to_string(),
            body: "out\nres".to_string(),
            option: "".to_string(),
        }
    );
}

#[test]
fn table_failures_show_the_error_alone() {
    let mut run = run_table("| a |", "").expect("parses");
    assert!(matches!(run.next(), RunStep::Execute(_)));
    run.record("out", Err("bad".to_string()));
    let report = done(run.next());
    assert_eq!(report.body, "bad");
    assert_eq!(report.header, "*Error*:");
}

#[test]
fn table_parse_errors_are_errors() {
    assert!(run_table("| a |\n!net.(", "").is_err());
}

#[test]
fn leading_marks_do_not_count() {
    assert_eq!(task_script_of("!!a\n!b\nc"), task_script_of("a\nb\nc"));
}

#[test]
fn invalid_date_literals_are_parse_errors() {
    let mut run = run_task("env.x = 2020-13-01 10:00", "");
    assert!(!run.clears_context());
    let report = done(run.next());
    assert_eq!(report.header, "ParseError:");
    assert_eq!(report.body, "Error: Invalid DateTime `2020-13-01 10:00`");
    assert_eq!(
        run_table("| a |\n!env.x = 2020-13-01 10:00", "").err(),
        Some("ParseError: Invalid DateTime `2020-13-01 10:00`".to_string())
    );
}

#[test]
fn date_literals_are_checked_greedily() {
    assert_eq!(first_bad_date("a 2020-12-01 10:00 b"), None);
    assert_eq!(first_bad_date("plain text"), None);
    assert_eq!(
        first_bad_date("x 2020-13-01 10:00"),
        Some("2020-13-01 10:00".to_string())
    );
    assert_eq!(first_bad_date("1-2 3:4"), Some("1-2 3:4".to_string()));
    assert_eq!(first_bad_date("# 2020-13-01 10:00"), None);
    assert_eq!(first_bad_date("\"2020-13-01 10:00\""), None);
    assert_eq!(
        first_bad_date("2020-01-01T10:00:99"),
        Some("2020-01-01T10:00:99".to_string())
    );
}
