use nadi_md::code_run::{Report, Style};
use nadi_md::template::{run_template, template_report_of, template_vars_of};

#[test]
fn variables_are_key_value_pairs() {
    let vars = template_vars_of("a=1; b = 2 ;;c=x=y").expect("pairs");
    assert_eq!(
        vars,
        vec![
            ("a".to_string(), "1".to_string()),
            ("b".to_string(), "2".to_string()),
            ("c".to_string(), "x=y".to_string()),
        ]
    );
    assert_eq!(template_vars_of("").expect("no pairs"), vec![]);
    assert!(template_vars_of("a=1;oops").is_err());
    assert!(template_vars_of(" ").is_err());
}

#[test]
fn malformed_variables_have_a_message() {
    let err = template_vars_of("x").unwrap_err();
    assert_eq!(err.message(), "variables not in key=value pairs");
}

#[test]
fn templates_are_rendered() {
    let report = run_template("Hello {name}!", " name = World ").expect("renders");
    assert_eq!(
        report,
        Report {
            style: Style::Verbose,
            header: "Results (with:  name = World ):".to_string(),
            body: "Hello World!".to_string(),
            option: "".to_string(),
        }
    );
}

#[test]
fn later_variables_win() {
    let report = run_template("{a}", "a=1;a=2").expect("renders");
    assert_eq!(report.body, "2");
}

#[test]
fn template_errors_are_shown() {
    let report = run_template("Hello {", "oops").expect("shown");
    assert_eq!(report.header, "*Error*:");
    assert_eq!(report.option, "error");
    assert!(!report.body.is_empty());
    assert_ne!(report.body, "Hello {");
    let report = run_template("{missing}", "a=1").expect("shown");
    assert_eq!(report.header, "*Error*:");
    assert!(!report.body.is_empty());
}

#[test]
fn bad_variables_fail_the_block() {
    assert!(run_template("{a}", "a").is_err());
}

#[test]
fn reports_of_rendered_text() {
    assert_eq!(
        template_report_of("x=1", Ok("t".to_string())).header,
        "Results (with: x=1):"
    );
    assert_eq!(template_report_of("x=1", Err("e".to_string())).body, "e");
}

#[test]
fn only_pieces_without_equals_fail() {
    assert!(template_vars_of("a=1;;").is_ok());
    assert!(template_vars_of("a=1; ").is_err());
    assert!(template_vars_of(";;").is_ok());
}
