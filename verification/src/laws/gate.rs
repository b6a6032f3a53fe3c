//! What holds of the exit code and the summaries of a run.

use crate::config::{
    configured_findings, escalation, forced, is_breaking, is_breaking_text, LintConfig, BREAKING,
};
use crate::diagnostic::{Finding, RuleCode, Severity};
use crate::history::EventView;
use crate::laws::breaking::{breaking_in, has_breaking_change};
use crate::lint_cmd::{all_findings, file_findings, has_error, run_fails, FileReport};
use crate::pack::{pack_findings, pack_findings_are_coded_warnings};
use crate::summary::{
    count_label, count_notes, count_severity, label, lemma_text_less_irreflexive, lists, row_before,
    statistics_of,
};
use crate::syntax::SyntaxNode;
use vstd::prelude::*;

verus! {

/// Different rules of the migration pack have different codes.
proof fn lemma_code_text_injective(a: RuleCode, b: RuleCode)
    requires
        a.text() == b.text(),
        !(a is Other),
        !(b is Other),
    ensures
        a == b,
{
    assert(a.text()[2] == b.text()[2] && a.text()[3] == b.text()[3]);
    assert(a.number() / 10 == b.number() / 10 && a.number() % 10 == b.number() % 10);
    assert(a.number() == b.number());
}

proof fn lemma_breaking_text(code: RuleCode)
    ensures
        is_breaking_text(code.text()) <==> is_breaking(code),
{
    if !(code is Other) {
        if is_breaking_text(code.text()) {
            let k = choose|k: int|
                0 <= k < 8 && (#[trigger] BREAKING@[k]).text() == code.text();
            lemma_code_text_injective(BREAKING@[k], code);
        }
        if is_breaking(code) {
            assert(BREAKING@[0] == code || BREAKING@[1] == code || BREAKING@[2] == code
                || BREAKING@[3] == code || BREAKING@[4] == code || BREAKING@[5] == code
                || BREAKING@[6] == code || BREAKING@[7] == code);
            let k = choose|k: int| 0 <= k < 8 && #[trigger] BREAKING@[k] == code;
            assert(BREAKING@[k].text() == code.text());
        }
    }
}

/// With `--breaking`, a backward-incompatible change is reported as an error, whatever
/// the configuration says.
pub proof fn breaking_change_is_an_error(before: LintConfig, after: LintConfig, finding: Finding)
    requires
        escalation(before, after),
        finding.code is Some,
        is_breaking(finding.code->0),
    ensures
        after.configured(finding) == Some(Finding { severity: Severity::Error, ..finding }),
{
    let text = (finding.code->0).text();
    lemma_breaking_text(finding.code->0);
    assert(after.settings()[text] == forced());
    assert(after.settings().contains_key(text));
}

/// A configuration with linting on.
pub open spec fn switched_on(config: LintConfig) -> LintConfig {
    LintConfig { enabled: true, ..config }
}

/// With `--breaking`, a finding of any other rule is reported as it is without when
/// linting is on.
pub proof fn other_finding_is_unchanged(before: LintConfig, after: LintConfig, finding: Finding)
    requires
        escalation(before, after),
        finding.code is None || !is_breaking(finding.code->0),
    ensures
        after.configured(finding) == switched_on(before).configured(finding),
{
    if finding.code is Some {
        let text = (finding.code->0).text();
        lemma_breaking_text(finding.code->0);
        assert(after.settings().contains_key(text) <==> before.settings().contains_key(text));
        if before.settings().contains_key(text) {
            assert(after.settings()[text] == before.settings()[text]);
        }
    }
}

/// Forcing the breaking-change rules twice is forcing them once.
pub proof fn escalation_is_idempotent(first: LintConfig, second: LintConfig, third: LintConfig)
    requires
        escalation(first, second),
        escalation(second, third),
    ensures
        third.settings() == second.settings(),
        third.enabled == second.enabled,
        third.exclude == second.exclude,
        third.exclude_paths == second.exclude_paths,
{
    assert forall|code: Seq<char>| #[trigger]
        third.settings().contains_key(code) <==> second.settings().contains_key(code) by {}
    assert forall|code: Seq<char>| #[trigger]
        third.settings().contains_key(code) implies third.settings()[code]
        == second.settings()[code] by {
        if is_breaking_text(code) {
            assert(second.settings()[code] == forced());
            assert(third.settings()[code] == forced());
        } else {
            assert(second.settings().contains_key(code));
        }
    }
    assert(third.settings() =~= second.settings());
}

/// Whether some finding is reported as an error.
pub open spec fn some_reported_error(config: LintConfig, findings: Seq<Finding>) -> bool {
    exists|k: int|
        0 <= k < findings.len() && (config.configured(#[trigger] findings[k]) matches Some(
            reported,
        ) && reported.severity is Error)
}

proof fn lemma_configured_errors(config: LintConfig, findings: Seq<Finding>)
    ensures
        has_error(configured_findings(config, findings)) <==> some_reported_error(
            config,
            findings,
        ),
    decreases findings.len(),
{
    if findings.len() > 0 {
        let earlier = findings.drop_last();
        let last = findings.last();
        let shown = configured_findings(config, findings);
        let shown_earlier = configured_findings(config, earlier);
        lemma_configured_errors(config, earlier);
        if has_error(shown) {
            let i = choose|i: int| 0 <= i < shown.len() && (#[trigger] shown[i]).severity is Error;
            if i < shown_earlier.len() {
                assert(shown_earlier[i].severity is Error);
                let k = choose|k: int|
                    0 <= k < earlier.len() && (config.configured(
                        #[trigger] earlier[k],
                    ) matches Some(reported) && reported.severity is Error);
                assert(findings[k] == earlier[k]);
            } else {
                assert(findings[findings.len() - 1] == last);
            }
        }
        if some_reported_error(config, findings) {
            let k = choose|k: int|
                0 <= k < findings.len() && (config.configured(#[trigger] findings[k]) matches Some(
                    reported,
                ) && reported.severity is Error);
            if k < earlier.len() {
                assert(earlier[k] == findings[k]);
                let i = choose|i: int|
                    0 <= i < shown_earlier.len() && (#[trigger] shown_earlier[i]).severity
                        is Error;
                assert(shown[i] == shown_earlier[i]);
            } else {
                assert(shown[shown.len() - 1].severity is Error);
            }
        }
    }
}

/// A run with `--breaking` fails exactly when there is a backward-incompatible change, or a
/// finding that the configuration reports as an error.
pub proof fn gate_fails_on_breaking_changes_and_errors(
    before: LintConfig,
    after: LintConfig,
    findings: Seq<Finding>,
)
    requires
        escalation(before, after),
    ensures
        run_fails(true, configured_findings(after, findings)) <==> breaking_in(findings)
            || some_reported_error(switched_on(before), findings),
{
    lemma_configured_errors(after, findings);
    if some_reported_error(after, findings) {
        let k = choose|k: int|
            0 <= k < findings.len() && (after.configured(#[trigger] findings[k]) matches Some(
                reported,
            ) && reported.severity is Error);
        if findings[k].code is None || !is_breaking(findings[k].code->0) {
            other_finding_is_unchanged(before, after, findings[k]);
            assert(some_reported_error(switched_on(before), findings));
        }
    }
    if breaking_in(findings) {
        let k = choose|k: int|
            0 <= k < findings.len() && (#[trigger] findings[k]).code is Some && is_breaking(
                findings[k].code->0,
            );
        breaking_change_is_an_error(before, after, findings[k]);
        assert(some_reported_error(after, findings));
    }
    if some_reported_error(switched_on(before), findings) {
        let k = choose|k: int|
            0 <= k < findings.len() && (switched_on(before).configured(
                #[trigger] findings[k],
            ) matches Some(reported) && reported.severity is Error);
        if findings[k].code is Some && is_breaking(findings[k].code->0) {
            breaking_change_is_an_error(before, after, findings[k]);
        } else {
            other_finding_is_unchanged(before, after, findings[k]);
        }
        assert(some_reported_error(after, findings));
    }
}

/// With `--breaking`, advisory findings alone never fail the run: if the configuration
/// raises no rule to an error, the findings of the pack fail it exactly when one of them
/// is a backward-incompatible change.
pub proof fn only_breaking_changes_fail_the_run(
    before: LintConfig,
    after: LintConfig,
    findings: Seq<Finding>,
)
    requires
        escalation(before, after),
        forall|code: Seq<char>| #[trigger]
            before.settings().contains_key(code) ==> before.settings()[code].severity != Some(
                Severity::Error,
            ),
        forall|k: int| 0 <= k < findings.len() ==> !((#[trigger] findings[k]).severity is Error),
    ensures
        run_fails(true, configured_findings(after, findings)) <==> breaking_in(findings),
{
    gate_fails_on_breaking_changes_and_errors(before, after, findings);
    if some_reported_error(switched_on(before), findings) {
        let k = choose|k: int|
            0 <= k < findings.len() && (switched_on(before).configured(
                #[trigger] findings[k],
            ) matches Some(reported) && reported.severity is Error);
        if findings[k].code is Some {
            let text = (findings[k].code->0).text();
            assert(before.settings().contains_key(text));
        }
    }
}

proof fn lemma_error_in_some_file(files: Seq<FileReport>)
    ensures
        has_error(all_findings(files)) <==> exists|k: int|
            0 <= k < files.len() && has_error(file_findings(#[trigger] files[k])),
    decreases files.len(),
{
    if files.len() > 0 {
        let earlier = files.drop_last();
        let before = all_findings(earlier);
        let added = file_findings(files.last());
        let all = all_findings(files);
        lemma_error_in_some_file(earlier);
        if has_error(all) {
            let i = choose|i: int| 0 <= i < all.len() && (#[trigger] all[i]).severity is Error;
            if i < before.len() {
                assert(before[i].severity is Error);
                let k = choose|k: int|
                    0 <= k < earlier.len() && has_error(file_findings(#[trigger] earlier[k]));
                assert(files[k] == earlier[k]);
            } else {
                assert(added[i - before.len()].severity is Error);
                assert(files[files.len() - 1] == files.last());
            }
        }
        if exists|k: int| 0 <= k < files.len() && has_error(file_findings(#[trigger] files[k])) {
            let k = choose|k: int|
                0 <= k < files.len() && has_error(file_findings(#[trigger] files[k]));
            if k < earlier.len() {
                assert(earlier[k] == files[k]);
                let i = choose|i: int|
                    0 <= i < before.len() && (#[trigger] before[i]).severity is Error;
                assert(all[i] == before[i]);
            } else {
                let i = choose|i: int|
                    0 <= i < added.len() && (#[trigger] added[i]).severity is Error;
                assert(all[before.len() + i] == added[i]);
            }
        }
    }
}

/// The policy: a run with `--breaking` over migration files, given the column events of the
/// set that they belong to, fails exactly when one of them holds a backward-incompatible
/// change, provided that the configuration raises no rule to an error itself. All other
/// findings are advisory.
pub proof fn migrations_pass_unless_one_is_breaking(
    before: LintConfig,
    after: LintConfig,
    columns: Seq<EventView>,
    roots: Seq<SyntaxNode>,
    files: Seq<FileReport>,
)
    requires
        escalation(before, after),
        forall|code: Seq<char>| #[trigger]
            before.settings().contains_key(code) ==> before.settings()[code].severity != Some(
                Severity::Error,
            ),
        roots.len() == files.len(),
        forall|k: int|
            0 <= k < files.len() ==> file_findings(#[trigger] files[k]) == configured_findings(
                after,
                pack_findings(roots[k], columns),
            ),
    ensures
        run_fails(true, all_findings(files)) <==> exists|k: int|
            0 <= k < roots.len() && has_breaking_change(#[trigger] roots[k], columns),
{
    assert forall|k: int| 0 <= k < files.len() implies (has_error(
        file_findings(#[trigger] files[k]),
    ) <==> has_breaking_change(roots[k], columns)) by {
        pack_findings_are_coded_warnings(roots[k], columns);
        only_breaking_changes_fail_the_run(before, after, pack_findings(roots[k], columns));
    }
    lemma_error_in_some_file(files);
    if exists|k: int| 0 <= k < files.len() && has_error(file_findings(#[trigger] files[k])) {
        let k = choose|k: int|
            0 <= k < files.len() && has_error(file_findings(#[trigger] files[k]));
        assert(has_breaking_change(roots[k], columns));
    }
    if exists|k: int| 0 <= k < roots.len() && has_breaking_change(#[trigger] roots[k], columns) {
        let k = choose|k: int|
            0 <= k < roots.len() && has_breaking_change(#[trigger] roots[k], columns);
        assert(has_error(file_findings(files[k])));
    }
}

/// A run that fails with `--breaking` fails without it, on the same findings.
pub proof fn breaking_gate_is_weaker(findings: Seq<Finding>)
    requires
        run_fails(true, findings),
    ensures
        run_fails(false, findings),
{
}

/// The summary counts every finding once.
pub proof fn summary_counts_every_finding(findings: Seq<Finding>)
    ensures
        count_severity(findings, Severity::Error) + count_severity(findings, Severity::Warning)
            + count_notes(findings) == findings.len(),
    decreases findings.len(),
{
    if findings.len() > 0 {
        summary_counts_every_finding(findings.drop_last());
    }
}

/// The sum of the counts of rows.
pub open spec fn total_count(rows: Seq<(Seq<char>, nat)>) -> nat
    decreases rows.len(),
{
    if rows.len() == 0 {
        0
    } else {
        total_count(rows.drop_last()) + rows.last().1
    }
}

/// The number of findings with one of the labels of `rows`, counted once per row.
spec fn total_by_label(findings: Seq<Finding>, rows: Seq<(Seq<char>, nat)>) -> nat
    decreases rows.len(),
{
    if rows.len() == 0 {
        0
    } else {
        total_by_label(findings, rows.drop_last()) + count_label(findings, rows.last().0)
    }
}

spec fn distinct_labels(rows: Seq<(Seq<char>, nat)>) -> bool {
    forall|i: int, j: int|
        0 <= i < j < rows.len() ==> (#[trigger] rows[i]).0 != (#[trigger] rows[j]).0
}

proof fn lemma_total_next(findings: Seq<Finding>, rows: Seq<(Seq<char>, nat)>)
    requires
        findings.len() > 0,
        distinct_labels(rows),
    ensures
        total_by_label(findings, rows) == total_by_label(findings.drop_last(), rows) + (if lists(
            rows,
            label(findings.last().code),
        ) {
            1nat
        } else {
            0
        }),
    decreases rows.len(),
{
    let text = label(findings.last().code);
    if rows.len() > 0 {
        let earlier = rows.drop_last();
        assert forall|i: int, j: int| 0 <= i < j < earlier.len() implies (
        #[trigger] earlier[i]).0 != (#[trigger] earlier[j]).0 by {
            assert(rows[i].0 != rows[j].0);
        }
        lemma_total_next(findings, earlier);
        if lists(earlier, text) {
            let i = choose|i: int| 0 <= i < earlier.len() && (#[trigger] earlier[i]).0 == text;
            assert(rows[i].0 == text);
            assert(rows[i].0 != rows[rows.len() - 1].0);
        }
        if lists(rows, text) {
            let i = choose|i: int| 0 <= i < rows.len() && (#[trigger] rows[i]).0 == text;
            if i < earlier.len() {
                assert(earlier[i].0 == text);
            }
        }
        if rows.last().0 == text {
            assert(rows[rows.len() - 1].0 == text);
        }
    }
}

proof fn lemma_total_all(findings: Seq<Finding>, rows: Seq<(Seq<char>, nat)>)
    requires
        distinct_labels(rows),
        forall|k: int|
            0 <= k < findings.len() ==> lists(rows, label((#[trigger] findings[k]).code)),
    ensures
        total_by_label(findings, rows) == findings.len(),
    decreases findings.len(),
{
    if findings.len() == 0 {
        lemma_total_empty(findings, rows);
    } else {
        assert(lists(rows, label(findings[findings.len() - 1].code)));
        assert forall|k: int| 0 <= k < findings.drop_last().len() implies lists(
            rows,
            label((#[trigger] findings.drop_last()[k]).code),
        ) by {
            assert(lists(rows, label(findings[k].code)));
        }
        lemma_total_all(findings.drop_last(), rows);
        lemma_total_next(findings, rows);
    }
}

proof fn lemma_total_empty(findings: Seq<Finding>, rows: Seq<(Seq<char>, nat)>)
    requires
        findings.len() == 0,
    ensures
        total_by_label(findings, rows) == 0,
    decreases rows.len(),
{
    if rows.len() > 0 {
        lemma_total_empty(findings, rows.drop_last());
    }
}

proof fn lemma_totals_agree(findings: Seq<Finding>, rows: Seq<(Seq<char>, nat)>)
    requires
        forall|i: int|
            0 <= i < rows.len() ==> (#[trigger] rows[i]).1 == count_label(findings, rows[i].0),
    ensures
        total_count(rows) == total_by_label(findings, rows),
    decreases rows.len(),
{
    if rows.len() > 0 {
        assert forall|i: int| 0 <= i < rows.drop_last().len() implies (
        #[trigger] rows.drop_last()[i]).1 == count_label(findings, rows.drop_last()[i].0) by {
            assert(rows[i].1 == count_label(findings, rows[i].0));
        }
        lemma_totals_agree(findings, rows.drop_last());
        assert(rows[rows.len() - 1] == rows.last());
    }
}

/// The per-rule breakdown counts every finding once.
pub proof fn statistics_count_every_finding(
    findings: Seq<Finding>,
    rows: Seq<(Seq<char>, nat)>,
)
    requires
        statistics_of(findings, rows),
    ensures
        total_count(rows) == findings.len(),
{
    assert forall|i: int, j: int| 0 <= i < j < rows.len() implies (#[trigger] rows[i]).0 != (
    #[trigger] rows[j]).0 by {
        assert(row_before(rows[i], rows[j]));
        lemma_text_less_irreflexive(rows[i].0);
    }
    lemma_total_all(findings, rows);
    lemma_totals_agree(findings, rows);
}

} // verus!
