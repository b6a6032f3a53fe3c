//! The configuration, and the findings that it has reported.

use banshee_lint::config::{
    escalate_breaking, LintConfig, RuleEntry, RuleSetting, BREAKING,
};
use banshee_lint::diagnostic::{warn, Diagnostic, RuleCode, Severity};
use banshee_lint::history::collect_migration_columns;
use banshee_lint::lint_cmd::{configure, LintArgs, ReportFormat};
use banshee_lint::pack::analyze;
use banshee_lint::syntax::{NodeClass, SyntaxElement, SyntaxNode, TextRange, TokenKind};

const NOTHING: RuleSetting = RuleSetting { enabled: None, severity: None };

fn range(start: u32, end: u32) -> TextRange {
    TextRange { start, end }
}

fn plain() -> LintConfig {
    LintConfig { enabled: true, exclude: vec![], exclude_paths: vec![], rules: vec![] }
}

fn with_rules(rules: &[(&str, RuleSetting)]) -> LintConfig {
    LintConfig {
        rules: rules
            .iter()
            .map(|(code, setting)| RuleEntry { code: code.to_string(), setting: *setting })
            .collect(),
        ..plain()
    }
}

fn breaking_args(breaking: bool) -> LintArgs {
    LintArgs {
        paths: vec![],
        format: ReportFormat::Human,
        quiet: false,
        statistics: false,
        breaking,
    }
}

/// `DROP INDEX`, which locks the table, then `DROP DATABASE`, which is breaking.
fn migration() -> SyntaxNode {
    let drop = |object: TokenKind, at: u32| {
        SyntaxElement::Node(SyntaxNode {
            class: NodeClass::DropStmt { object: Some(object), concurrent: false, names: vec![] },
            range: range(at, at + 5),
            children: vec![],
        })
    };
    SyntaxNode {
        class: NodeClass::Other,
        range: range(0, 20),
        children: vec![drop(TokenKind::IndexKw, 0), drop(TokenKind::DatabaseKw, 10)],
    }
}

fn found(config: &LintConfig) -> Vec<(&'static str, Severity)> {
    let root = migration();
    let columns = collect_migration_columns(&vec![]);
    analyze(&root, &columns, config)
        .iter()
        .map(|d| (d.code.unwrap().as_str(), d.severity))
        .collect()
}

#[test]
fn breaking_rules() {
    let codes: Vec<&str> = BREAKING.iter().map(|code| code.as_str()).collect();
    assert_eq!(codes, ["MG04", "MG05", "MG06", "MG07", "MG08", "MG16", "MG17", "MG18"]);
}

#[test]
fn all_rules_report_warnings_by_default() {
    let warning = Severity::Warning;
    assert_eq!(
        found(&plain()),
        [("MG12", warning), ("MG18", warning), ("MG22", warning), ("MG22", warning)]
    );
}

#[test]
fn settings_by_code() {
    let mut config = plain();
    assert_eq!(config.setting("MG01"), None);
    config.set("MG01", RuleSetting { enabled: Some(false), severity: None });
    config.set("MG02", NOTHING);
    config.set("MG01", RuleSetting { enabled: None, severity: Some(Severity::Hint) });
    assert_eq!(
        config.setting("MG01"),
        Some(RuleSetting { enabled: None, severity: Some(Severity::Hint) })
    );
    assert_eq!(config.setting("MG02"), Some(NOTHING));
    assert_eq!(config.rules.len(), 2);
}

#[test]
fn reported_severities() {
    let warning = Severity::Warning;
    let config = with_rules(&[
        ("MG01", RuleSetting { enabled: Some(false), severity: Some(Severity::Error) }),
        ("MG02", RuleSetting { enabled: Some(true), severity: None }),
        ("MG03", RuleSetting { enabled: None, severity: Some(Severity::Info) }),
    ]);
    let config = LintConfig {
        exclude: vec!["MG02".to_string(), "MG03".to_string(), "MG04".to_string()],
        ..config
    };
    assert_eq!(config.reported_severity(RuleCode::Mg01, warning), None);
    assert_eq!(config.reported_severity(RuleCode::Mg02, warning), Some(warning));
    assert_eq!(config.reported_severity(RuleCode::Mg03, warning), None);
    assert_eq!(config.reported_severity(RuleCode::Mg04, warning), None);
    assert_eq!(config.reported_severity(RuleCode::Mg05, Severity::Hint), Some(Severity::Hint));
    let off = LintConfig { enabled: false, ..plain() };
    assert_eq!(off.reported_severity(RuleCode::Mg05, warning), None);
}

#[test]
fn findings_without_a_code_are_reported_as_they_are() {
    let off = LintConfig { enabled: false, ..plain() };
    let loose = Diagnostic::warning("loose end".to_string());
    let coded = warn(RuleCode::Mg05, "gone", range(0, 1));
    let kept = off.apply(vec![coded, loose]);
    assert_eq!(kept.len(), 1);
    assert_eq!(kept[0].message, "loose end");
    assert_eq!(kept[0].severity, Severity::Warning);
    assert_eq!(kept[0].range, None);
}

#[test]
fn rules_of_other_packs_are_configured_by_code() {
    let style = RuleCode::Other("ST01");
    let config = with_rules(&[(
        "ST01",
        RuleSetting { enabled: None, severity: Some(Severity::Hint) },
    )]);
    let mut config = LintConfig { exclude: vec!["ST02".to_string()], ..config };
    escalate_breaking(&mut config);
    assert_eq!(config.reported_severity(style, Severity::Error), Some(Severity::Hint));
    assert_eq!(config.reported_severity(RuleCode::Other("ST02"), Severity::Error), None);
    assert_eq!(
        config.reported_severity(RuleCode::Other("ST03"), Severity::Info),
        Some(Severity::Info)
    );
}

#[test]
fn escalation_forces_the_breaking_rules() {
    let mut config = with_rules(&[
        ("MG05", RuleSetting { enabled: Some(false), severity: Some(Severity::Hint) }),
        ("MG01", RuleSetting { enabled: Some(false), severity: None }),
    ]);
    config.enabled = false;
    config.exclude = vec!["MG16".to_string(), "MG02".to_string()];
    config.exclude_paths = vec!["legacy/**".to_string()];
    escalate_breaking(&mut config);
    assert!(config.enabled);
    for code in BREAKING {
        assert_eq!(
            config.setting(code.as_str()),
            Some(RuleSetting { enabled: Some(true), severity: Some(Severity::Error) })
        );
        assert_eq!(
            config.reported_severity(code, Severity::Warning),
            Some(Severity::Error)
        );
    }
    assert_eq!(
        config.setting("MG01"),
        Some(RuleSetting { enabled: Some(false), severity: None })
    );
    assert_eq!(config.setting("MG02"), None);
    assert_eq!(config.exclude, ["MG16", "MG02"]);
    assert_eq!(config.exclude_paths, ["legacy/**"]);
    assert_eq!(config.rules.len(), 9);
}

#[test]
fn escalating_twice_is_escalating_once() {
    let mut config = plain();
    escalate_breaking(&mut config);
    let before: Vec<(String, RuleSetting)> =
        config.rules.iter().map(|entry| (entry.code.clone(), entry.setting)).collect();
    escalate_breaking(&mut config);
    let after: Vec<(String, RuleSetting)> =
        config.rules.iter().map(|entry| (entry.code.clone(), entry.setting)).collect();
    assert_eq!(before, after);
}

#[test]
fn breaking_flag_escalates() {
    let (warning, error) = (Severity::Warning, Severity::Error);
    let config = configure(&breaking_args(true), plain());
    assert_eq!(
        found(&config),
        [("MG12", warning), ("MG18", error), ("MG22", warning), ("MG22", warning)]
    );
    let config = configure(&breaking_args(false), plain());
    assert!(config.rules.is_empty());
}

#[test]
fn configured_errors_stay_errors() {
    let raised = with_rules(&[(
        "MG12",
        RuleSetting { enabled: None, severity: Some(Severity::Error) },
    )]);
    let config = configure(&breaking_args(true), raised);
    assert_eq!(found(&config)[0], ("MG12", Severity::Error));
}

#[test]
fn disabled_linting_reports_nothing() {
    let off = LintConfig { enabled: false, ..plain() };
    assert!(found(&off).is_empty());
    assert_eq!(found(&configure(&breaking_args(true), off)).len(), 4);
}
