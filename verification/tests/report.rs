//! What a run reports, and the exit code it ends with.

use banshee_lint::diagnostic::{Diagnostic, Fix, RuleCode, Severity, TextEdit};
use banshee_lint::lint_cmd::{
    run, severity_label, FileReport, LintArgs, Outcome, Output, ReportFormat, Reported,
    EXIT_FINDINGS, EXIT_OK,
};
use banshee_lint::summary::{print_statistics, statistics, summary_line};
use banshee_lint::syntax::TextRange;

fn args(format: ReportFormat) -> LintArgs {
    LintArgs { paths: vec![], format, quiet: false, statistics: false, breaking: false }
}

fn diagnostic(severity: Severity, code: Option<RuleCode>, message: &str) -> Diagnostic {
    Diagnostic {
        severity,
        code,
        message: message.to_string(),
        range: Some(TextRange { start: 4, end: 9 }),
        fixes: vec![],
    }
}

fn of_code(code: RuleCode) -> Diagnostic {
    diagnostic(Severity::Warning, Some(code), "m")
}

fn of_severity(severity: Severity) -> Diagnostic {
    diagnostic(severity, Some(RuleCode::Mg01), "m")
}

fn reported(diagnostic: Diagnostic) -> Reported {
    let code_json = format!("\"{}\"", diagnostic.code.map_or("?", |code| code.as_str()));
    let message_json = format!("\"{}\"", diagnostic.message);
    Reported { diagnostic, position: (3, 7), code_json, message_json }
}

fn file(label: &str, findings: Vec<Diagnostic>) -> FileReport {
    FileReport {
        label: label.to_string(),
        label_json: format!("\"{label}\""),
        findings: findings.into_iter().map(reported).collect(),
    }
}

/// The outputs of a run, each written as one text.
fn shown(outcome: &Outcome) -> Vec<String> {
    outcome
        .outputs
        .iter()
        .map(|output| match output {
            Output::Human(index) => format!("human {index}"),
            Output::Sarif => "sarif".to_string(),
            Output::Line(line) => format!("out {line}"),
            Output::ErrorLine(line) => format!("err {line}"),
        })
        .collect()
}

fn summary_of(severities: &[Severity]) -> String {
    let all: Vec<Diagnostic> = severities.iter().map(|s| of_severity(*s)).collect();
    summary_line(&all.iter().collect())
}

#[test]
fn severities_are_named() {
    assert_eq!(severity_label(Severity::Error), "error");
    assert_eq!(severity_label(Severity::Warning), "warning");
    assert_eq!(severity_label(Severity::Info), "info");
    assert_eq!(severity_label(Severity::Hint), "hint");
}

#[test]
fn summary_counts_by_severity() {
    let (error, warning, info, hint) =
        (Severity::Error, Severity::Warning, Severity::Info, Severity::Hint);
    assert_eq!(summary_of(&[warning, error, warning]), "found 1 error, 2 warnings");
    assert_eq!(summary_of(&[warning]), "found 1 warning");
    assert_eq!(summary_of(&[info]), "found 1 note");
    assert_eq!(summary_of(&[hint, info, error, error]), "found 2 errors, 2 notes");
    assert_eq!(
        summary_of(&[error, warning, info]),
        "found 1 error, 1 warning, 1 note"
    );
    assert_eq!(summary_of(&[warning; 12]), "found 12 warnings");
    assert_eq!(summary_of(&[]), "found ");
}

#[test]
fn statistics_put_the_most_frequent_first() {
    let all = vec![
        of_code(RuleCode::Mg12),
        of_code(RuleCode::Mg04),
        diagnostic(Severity::Warning, None, "m"),
        of_code(RuleCode::Mg12),
        of_code(RuleCode::Mg01),
    ];
    let all: Vec<&Diagnostic> = all.iter().collect();
    assert_eq!(
        statistics(&all),
        vec![("MG12", 2), ("(other)", 1), ("MG01", 1), ("MG04", 1)]
    );
    assert_eq!(
        print_statistics(&all),
        vec!["\nfindings by rule:", "  MG12   2", "  (other) 1", "  MG01   1", "  MG04   1"]
    );
}

#[test]
fn statistics_of_nothing_are_empty() {
    assert!(statistics(&vec![]).is_empty());
    assert!(print_statistics(&vec![]).is_empty());
}

#[test]
fn statistics_total_is_the_number_of_findings() {
    let codes = [RuleCode::Mg01, RuleCode::Mg24, RuleCode::Mg01, RuleCode::Mg07, RuleCode::Mg01];
    let all: Vec<Diagnostic> = codes.iter().map(|code| of_code(*code)).collect();
    let rows = statistics(&all.iter().collect());
    assert_eq!(rows.iter().map(|row| row.1).sum::<usize>(), 5);
    assert_eq!(rows[0], ("MG01", 3));
}

#[test]
fn findings_of_other_packs_are_reported() {
    let (style, naming) = (RuleCode::Other("ST01"), RuleCode::Other("MG"));
    let all = vec![of_code(style), of_code(RuleCode::Mg02), of_code(naming), of_code(style)];
    assert_eq!(
        statistics(&all.iter().collect()),
        vec![("ST01", 2), ("MG", 1), ("MG02", 1)]
    );
    let files = vec![file("a.sql", all)];
    let lines = shown(&run(&args(ReportFormat::Github), &files));
    assert_eq!(lines[0], "out ::warning file=a.sql,line=3,col=7::ST01 m");
}

#[test]
fn clean_run_passes() {
    let outcome = run(&args(ReportFormat::Human), &vec![file("a.sql", vec![])]);
    assert_eq!(shown(&outcome), ["err No issues found."]);
    assert_eq!(outcome.exit_code, EXIT_OK);
    assert_eq!(EXIT_OK, 0);
}

#[test]
fn any_finding_fails_a_run() {
    let files = vec![file("a.sql", vec![]), file("b.sql", vec![of_severity(Severity::Hint)])];
    let outcome = run(&args(ReportFormat::Human), &files);
    assert_eq!(shown(&outcome), ["human 1", "err found 1 note"]);
    assert_eq!(outcome.exit_code, EXIT_FINDINGS);
    assert_eq!(EXIT_FINDINGS, 1);
}

#[test]
fn only_errors_fail_a_breaking_run() {
    let breaking = LintArgs { breaking: true, ..args(ReportFormat::Human) };
    let warned = vec![file("a.sql", vec![of_severity(Severity::Warning)])];
    let outcome = run(&breaking, &warned);
    assert_eq!(outcome.exit_code, EXIT_OK);
    assert_eq!(shown(&outcome), ["human 0", "err found 1 warning"]);
    let failed = vec![
        file("a.sql", vec![of_severity(Severity::Warning)]),
        file("b.sql", vec![of_severity(Severity::Info), of_severity(Severity::Error)]),
    ];
    assert_eq!(run(&breaking, &failed).exit_code, EXIT_FINDINGS);
}

#[test]
fn quiet_suppresses_the_summary_only() {
    let files = vec![file("a.sql", vec![of_code(RuleCode::Mg05)])];
    let loud = LintArgs { statistics: true, ..args(ReportFormat::Human) };
    let quiet = LintArgs { statistics: true, quiet: true, ..args(ReportFormat::Human) };
    let rows = ["human 0", "err \nfindings by rule:", "err   MG05   1", "err found 1 warning"];
    assert_eq!(shown(&run(&loud, &files)), rows);
    assert_eq!(shown(&run(&quiet, &files)), rows[..3]);
    assert_eq!(run(&quiet, &files).exit_code, EXIT_FINDINGS);
}

#[test]
fn statistics_are_for_humans_only() {
    let files = vec![file("a.sql", vec![of_code(RuleCode::Mg05)])];
    let json = LintArgs { statistics: true, ..args(ReportFormat::Json) };
    assert_eq!(shown(&run(&json, &files)).len(), 1);
    let github = LintArgs { statistics: true, ..args(ReportFormat::Github) };
    assert_eq!(shown(&run(&github, &files)).len(), 1);
}

#[test]
fn sarif_is_one_log() {
    let files = vec![file("a.sql", vec![of_code(RuleCode::Mg05)]), file("b.sql", vec![])];
    let outcome = run(&args(ReportFormat::Sarif), &files);
    assert_eq!(shown(&outcome), ["sarif"]);
    assert_eq!(outcome.exit_code, EXIT_FINDINGS);
}

#[test]
fn github_annotations() {
    let mut unplaced = diagnostic(Severity::Info, None, "loose end");
    unplaced.range = None;
    let files = vec![
        file("a.sql", vec![diagnostic(Severity::Error, Some(RuleCode::Mg16), "gone")]),
        file("b.sql", vec![]),
        file("c.sql", vec![unplaced]),
    ];
    assert_eq!(
        shown(&run(&args(ReportFormat::Github), &files)),
        [
            "out ::error file=a.sql,line=3,col=7::MG16 gone",
            "out ::warning file=c.sql,line=1,col=1:: loose end",
        ]
    );
}

#[test]
fn json_objects() {
    let mut unplaced = diagnostic(Severity::Hint, None, "loose end");
    unplaced.range = None;
    unplaced.fixes = vec![Fix::new(
        "Use text",
        vec![TextEdit::replace(TextRange { start: 1, end: 2 }, "text")],
    )];
    let files = vec![
        file("a.sql", vec![of_code(RuleCode::Mg09), unplaced]),
        file("b.sql", vec![]),
    ];
    assert_eq!(
        shown(&run(&args(ReportFormat::Json), &files)),
        [
            "out {\"file\":\"a.sql\",\"diagnostics\":[{\"code\":\"MG09\",\"severity\":\"warning\",\
             \"line\":3,\"col\":7,\"message\":\"m\",\"fixable\":false},{\"code\":null,\
             \"severity\":\"hint\",\"line\":1,\"col\":1,\"message\":\"loose end\",\
             \"fixable\":true}]}",
            "out {\"file\":\"b.sql\",\"diagnostics\":[]}",
        ]
    );
}

#[test]
fn files_are_reported_in_input_order() {
    let files = vec![
        file("b.sql", vec![of_code(RuleCode::Mg02)]),
        file("a.sql", vec![]),
        file("c.sql", vec![of_code(RuleCode::Mg03), of_code(RuleCode::Mg01)]),
    ];
    assert_eq!(
        shown(&run(&args(ReportFormat::Human), &files)),
        ["human 0", "human 2", "err found 3 warnings"]
    );
    assert_eq!(shown(&run(&args(ReportFormat::Json), &files)).len(), 3);
    assert_eq!(shown(&run(&args(ReportFormat::Github), &files)).len(), 3);
}

#[test]
fn same_findings_give_the_same_report() {
    let files = || vec![file("b.sql", vec![of_code(RuleCode::Mg02), of_code(RuleCode::Mg01)])];
    let loud = LintArgs { statistics: true, ..args(ReportFormat::Human) };
    assert_eq!(shown(&run(&loud, &files())), shown(&run(&loud, &files())));
}
