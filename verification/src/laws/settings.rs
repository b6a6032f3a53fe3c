//! What holds of the configuration, of the codes of rules, and of the breaking changes.

use crate::config::{
    configured_findings, entry_settings, escalation, is_breaking, is_breaking_text, LintConfig,
    RuleEntry, BREAKING,
};
use crate::diagnostic::{Finding, RuleCode, Severity};
use crate::text::texts;
use vstd::prelude::*;

verus! {

/// The text of the code of each rule of the pack.
pub proof fn codes_have_these_texts()
    ensures
        RuleCode::Mg01.text() == "MG01"@,
        RuleCode::Mg02.text() == "MG02"@,
        RuleCode::Mg03.text() == "MG03"@,
        RuleCode::Mg04.text() == "MG04"@,
        RuleCode::Mg05.text() == "MG05"@,
        RuleCode::Mg06.text() == "MG06"@,
        RuleCode::Mg07.text() == "MG07"@,
        RuleCode::Mg08.text() == "MG08"@,
        RuleCode::Mg09.text() == "MG09"@,
        RuleCode::Mg10.text() == "MG10"@,
        RuleCode::Mg11.text() == "MG11"@,
        RuleCode::Mg12.text() == "MG12"@,
        RuleCode::Mg13.text() == "MG13"@,
        RuleCode::Mg14.text() == "MG14"@,
        RuleCode::Mg15.text() == "MG15"@,
        RuleCode::Mg16.text() == "MG16"@,
        RuleCode::Mg17.text() == "MG17"@,
        RuleCode::Mg18.text() == "MG18"@,
        RuleCode::Mg19.text() == "MG19"@,
        RuleCode::Mg20.text() == "MG20"@,
        RuleCode::Mg21.text() == "MG21"@,
        RuleCode::Mg22.text() == "MG22"@,
        RuleCode::Mg23.text() == "MG23"@,
        RuleCode::Mg24.text() == "MG24"@,
        forall|text: &'static str| #[trigger] RuleCode::Other(text).text() == text@,
{
    reveal_strlit("MG01");
    reveal_strlit("MG02");
    reveal_strlit("MG03");
    reveal_strlit("MG04");
    reveal_strlit("MG05");
    reveal_strlit("MG06");
    reveal_strlit("MG07");
    reveal_strlit("MG08");
    reveal_strlit("MG09");
    reveal_strlit("MG10");
    reveal_strlit("MG11");
    reveal_strlit("MG12");
    reveal_strlit("MG13");
    reveal_strlit("MG14");
    reveal_strlit("MG15");
    reveal_strlit("MG16");
    reveal_strlit("MG17");
    reveal_strlit("MG18");
    reveal_strlit("MG19");
    reveal_strlit("MG20");
    reveal_strlit("MG21");
    reveal_strlit("MG22");
    reveal_strlit("MG23");
    reveal_strlit("MG24");
    assert(RuleCode::Mg01.text() =~= "MG01"@);
    assert(RuleCode::Mg02.text() =~= "MG02"@);
    assert(RuleCode::Mg03.text() =~= "MG03"@);
    assert(RuleCode::Mg04.text() =~= "MG04"@);
    assert(RuleCode::Mg05.text() =~= "MG05"@);
    assert(RuleCode::Mg06.text() =~= "MG06"@);
    assert(RuleCode::Mg07.text() =~= "MG07"@);
    assert(RuleCode::Mg08.text() =~= "MG08"@);
    assert(RuleCode::Mg09.text() =~= "MG09"@);
    assert(RuleCode::Mg10.text() =~= "MG10"@);
    assert(RuleCode::Mg11.text() =~= "MG11"@);
    assert(RuleCode::Mg12.text() =~= "MG12"@);
    assert(RuleCode::Mg13.text() =~= "MG13"@);
    assert(RuleCode::Mg14.text() =~= "MG14"@);
    assert(RuleCode::Mg15.text() =~= "MG15"@);
    assert(RuleCode::Mg16.text() =~= "MG16"@);
    assert(RuleCode::Mg17.text() =~= "MG17"@);
    assert(RuleCode::Mg18.text() =~= "MG18"@);
    assert(RuleCode::Mg19.text() =~= "MG19"@);
    assert(RuleCode::Mg20.text() =~= "MG20"@);
    assert(RuleCode::Mg21.text() =~= "MG21"@);
    assert(RuleCode::Mg22.text() =~= "MG22"@);
    assert(RuleCode::Mg23.text() =~= "MG23"@);
    assert(RuleCode::Mg24.text() =~= "MG24"@);
}

/// The rules that find backward-incompatible changes are those of a column added `NOT NULL`
/// without a value, a dropped column, a changed type, a rename, a cascading `TRUNCATE`, a dropped
/// table, a dropped `NOT NULL` and a dropped database, and no others.
pub proof fn breaking_rules_are_these(text: Seq<char>, code: RuleCode)
    ensures
        is_breaking_text(text) <==> text == "MG04"@ || text == "MG05"@ || text == "MG06"@ || text
            == "MG07"@ || text == "MG08"@ || text == "MG16"@ || text == "MG17"@ || text == "MG18"@,
        !(code is Other) ==> (is_breaking(code) <==> code is Mg04 || code is Mg05 || code is Mg06
            || code is Mg07 || code is Mg08 || code is Mg16 || code is Mg17 || code is Mg18),
        code matches RuleCode::Other(other) ==> is_breaking(code) == is_breaking_text(other@),
{
    codes_have_these_texts();
    assert(BREAKING@[0] is Mg04 && BREAKING@[1] is Mg05 && BREAKING@[2] is Mg06 && BREAKING@[3]
        is Mg07 && BREAKING@[4] is Mg08 && BREAKING@[5] is Mg16 && BREAKING@[6] is Mg17
        && BREAKING@[7] is Mg18);
    if is_breaking_text(text) {
        let k = choose|k: int| 0 <= k < 8 && (#[trigger] BREAKING@[k]).text() == text;
        assert(k == 0 || k == 1 || k == 2 || k == 3 || k == 4 || k == 5 || k == 6 || k == 7);
    }
    assert(BREAKING@[0].text() == "MG04"@);
    assert(BREAKING@[1].text() == "MG05"@);
    assert(BREAKING@[2].text() == "MG06"@);
    assert(BREAKING@[3].text() == "MG07"@);
    assert(BREAKING@[4].text() == "MG08"@);
    assert(BREAKING@[5].text() == "MG16"@);
    assert(BREAKING@[6].text() == "MG17"@);
    assert(BREAKING@[7].text() == "MG18"@);
}

proof fn lemma_settings(entries: Seq<RuleEntry>, code: Seq<char>, e: int)
    requires
        0 <= e < entries.len(),
        entries[e].code@ == code,
        forall|k: int| e < k < entries.len() ==> (#[trigger] entries[k]).code@ != code,
    ensures
        entry_settings(entries).contains_key(code),
        entry_settings(entries)[code] == entries[e].setting,
    decreases entries.len(),
{
    if e < entries.len() - 1 {
        assert(entries[entries.len() - 1].code@ != code);
        assert forall|k: int| e < k < entries.drop_last().len() implies (
        #[trigger] entries.drop_last()[k]).code@ != code by {
            assert(entries.drop_last()[k] == entries[k]);
        }
        lemma_settings(entries.drop_last(), code, e);
    }
}

proof fn lemma_no_settings(entries: Seq<RuleEntry>, code: Seq<char>)
    requires
        forall|k: int| 0 <= k < entries.len() ==> (#[trigger] entries[k]).code@ != code,
    ensures
        !entry_settings(entries).contains_key(code),
    decreases entries.len(),
{
    if entries.len() > 0 {
        assert(entries[entries.len() - 1].code@ != code);
        assert forall|k: int| 0 <= k < entries.drop_last().len() implies (
        #[trigger] entries.drop_last()[k]).code@ != code by {
            assert(entries.drop_last()[k] == entries[k]);
        }
        lemma_no_settings(entries.drop_last(), code);
    }
}

proof fn lemma_excluded(config: LintConfig, code: RuleCode)
    ensures
        config.excludes(code) <==> exists|x: int|
            0 <= x < config.exclude@.len() && (#[trigger] config.exclude@[x])@ == code.text(),
{
    let all = texts(config.exclude@);
    if config.excludes(code) {
        let x = choose|x: int| 0 <= x < all.len() && all[x] == code.text();
        assert(config.exclude@[x]@ == code.text());
    }
    if exists|x: int|
        0 <= x < config.exclude@.len() && (#[trigger] config.exclude@[x])@ == code.text() {
        let x = choose|x: int|
            0 <= x < config.exclude@.len() && (#[trigger] config.exclude@[x])@ == code.text();
        assert(all[x] == code.text());
    }
}

/// A finding of a rule that the configuration has no entry for is reported as it is, unless
/// linting is off or the rule is excluded by its code. A finding of no rule is always reported as
/// it is.
pub proof fn finding_without_an_entry_is_reported_as_it_is(config: LintConfig, finding: Finding)
    requires
        finding.code matches Some(code) ==> forall|k: int|
            0 <= k < config.rules@.len() ==> (#[trigger] config.rules@[k]).code@ != code.text(),
    ensures
        config.configured(finding) == match finding.code {
            Some(code) => if config.enabled && forall|x: int|
                0 <= x < config.exclude@.len() ==> (#[trigger] config.exclude@[x])@ != code.text() {
                Some(finding)
            } else {
                None
            },
            None => Some(finding),
        },
{
    if let Some(code) = finding.code {
        lemma_no_settings(config.rules@, code.text());
        lemma_excluded(config, code);
    }
}

/// A finding of a rule that the configuration has an entry for is reported if linting is on and
/// the entry enables the rule, or says nothing of that and the rule is not excluded by its code.
/// It is reported with the severity of the entry, or its own if the entry gives none, and is
/// otherwise unchanged.
pub proof fn finding_with_an_entry_is_reported_by_it(
    config: LintConfig,
    finding: Finding,
    code: RuleCode,
    e: int,
)
    requires
        config.wf(),
        finding.code == Some(code),
        0 <= e < config.rules@.len(),
        config.rules@[e].code@ == code.text(),
    ensures
        ({
            let setting = config.rules@[e].setting;
            let excluded = exists|x: int|
                0 <= x < config.exclude@.len() && (#[trigger] config.exclude@[x])@ == code.text();
            config.configured(finding) == if config.enabled && (setting.enabled == Some(true) || (
            setting.enabled is None && !excluded)) {
                Some(
                    (Finding {
                        severity: match setting.severity {
                            Some(severity) => severity,
                            None => finding.severity,
                        },
                        code: finding.code,
                        message: finding.message,
                        range: finding.range,
                        fixes: finding.fixes,
                    }),
                )
            } else {
                None
            }
        }),
{
    assert forall|k: int| e < k < config.rules@.len() implies (#[trigger] config.rules@[k]).code@
        != code.text() by {
        assert(config.rules@[e].code@ != config.rules@[k].code@);
    }
    lemma_settings(config.rules@, code.text(), e);
    lemma_excluded(config, code);
}

/// Findings are reported one by one and in order: one more finding is reported behind all others,
/// if it is reported at all.
pub proof fn one_more_finding_is_reported_behind_the_others(
    config: LintConfig,
    findings: Seq<Finding>,
    finding: Finding,
)
    ensures
        configured_findings(config, findings.push(finding)) == match config.configured(finding) {
            Some(reported) => configured_findings(config, findings).push(reported),
            None => configured_findings(config, findings),
        },
        configured_findings(config, Seq::<Finding>::empty()).len() == 0,
{
    assert(findings.push(finding).drop_last() =~= findings);
}

/// With `--breaking`, linting is on, each rule that finds backward-incompatible changes reports
/// errors, whatever its entry and whether or not it is excluded, and the entries of all other
/// rules are what they were.
pub proof fn breaking_gate_forces_these_rules(
    before: LintConfig,
    after: LintConfig,
    text: Seq<char>,
)
    requires
        escalation(before, after),
    ensures
        after.enabled,
        after.exclude == before.exclude,
        after.exclude_paths == before.exclude_paths,
        ({
            let forced = text == "MG04"@ || text == "MG05"@ || text == "MG06"@ || text == "MG07"@
                || text == "MG08"@ || text == "MG16"@ || text == "MG17"@ || text == "MG18"@;
            &&& forced ==> after.settings().contains_key(text) && after.settings()[text].enabled
                == Some(true) && after.settings()[text].severity == Some(Severity::Error)
            &&& !forced ==> after.settings().contains_key(text) == before.settings().contains_key(
                text,
            )
            &&& !forced && before.settings().contains_key(text) ==> after.settings()[text]
                == before.settings()[text]
        }),
{
    breaking_rules_are_these(text, RuleCode::Mg04);
    assert(after.settings().contains_key(text) <==> before.settings().contains_key(text)
        || is_breaking_text(text));
    if is_breaking_text(text) {
        assert(after.settings()[text].enabled == Some(true));
    }
}

} // verus!
