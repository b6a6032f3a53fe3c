//! The lint configuration: which rules report, and how serious their findings are.

use crate::diagnostic::{Diagnostic, Finding, RuleCode, Severity};
use crate::text::{same_text, texts};
use vstd::prelude::*;

verus! {

/// What the configuration says of one rule.
#[derive(Clone, Copy, PartialEq, Eq, Structural, Debug)]
pub struct RuleSetting {
    pub enabled: Option<bool>,
    pub severity: Option<Severity>,
}

/// The setting of the rule with a code.
#[derive(Debug)]
pub struct RuleEntry {
    pub code: String,
    pub setting: RuleSetting,
}

/// The `[lint]` section of the configuration.
#[derive(Debug)]
pub struct LintConfig {
    pub enabled: bool,
    /// Codes of rules that do not report unless their own setting enables them.
    pub exclude: Vec<String>,
    /// Patterns of input paths that are skipped.
    pub exclude_paths: Vec<String>,
    pub rules: Vec<RuleEntry>,
}

/// The rules whose findings are backward-incompatible changes.
pub const BREAKING: [RuleCode; 8] = [
    RuleCode::Mg04,
    RuleCode::Mg05,
    RuleCode::Mg06,
    RuleCode::Mg07,
    RuleCode::Mg08,
    RuleCode::Mg16,
    RuleCode::Mg17,
    RuleCode::Mg18,
];

/// Whether a text is the code of a rule that finds backward-incompatible changes.
pub open spec fn is_breaking_text(text: Seq<char>) -> bool {
    listed(text, 8)
}

/// Whether a rule finds backward-incompatible changes.
pub open spec fn is_breaking(code: RuleCode) -> bool {
    match code {
        RuleCode::Other(text) => is_breaking_text(text@),
        _ => code is Mg04 || code is Mg05 || code is Mg06 || code is Mg07 || code is Mg08
            || code is Mg16 || code is Mg17 || code is Mg18,
    }
}

/// The settings in a sequence of entries, by code.
pub open spec fn entry_settings(entries: Seq<RuleEntry>) -> Map<Seq<char>, RuleSetting>
    decreases entries.len(),
{
    if entries.len() == 0 {
        Map::empty()
    } else {
        entry_settings(entries.drop_last()).insert(entries.last().code@, entries.last().setting)
    }
}

/// The setting that makes a rule report errors.
pub open spec fn forced() -> RuleSetting {
    RuleSetting { enabled: Some(true), severity: Some(Severity::Error) }
}

impl LintConfig {
    /// Whether no code has two entries.
    pub open spec fn wf(self) -> bool {
        forall|i: int, j: int|
            0 <= i < j < self.rules@.len() ==> (#[trigger] self.rules@[i]).code@ != (
            #[trigger] self.rules@[j]).code@
    }

    /// The settings of the rules, by code.
    pub open spec fn settings(self) -> Map<Seq<char>, RuleSetting> {
        entry_settings(self.rules@)
    }

    /// Whether a rule is excluded by its code.
    pub open spec fn excludes(self, code: RuleCode) -> bool {
        texts(self.exclude@).contains(code.text())
    }

    /// Whether a rule reports.
    pub open spec fn reports(self, code: RuleCode) -> bool {
        self.enabled && if self.settings().contains_key(code.text())
            && self.settings()[code.text()].enabled is Some {
            self.settings()[code.text()].enabled->0
        } else {
            !self.excludes(code)
        }
    }

    /// How serious the findings of a rule are.
    pub open spec fn severity_of(self, code: RuleCode, otherwise: Severity) -> Severity {
        if self.settings().contains_key(code.text()) && self.settings()[code.text()].severity
            is Some {
            self.settings()[code.text()].severity->0
        } else {
            otherwise
        }
    }

    /// The finding as it is reported, if it is. One that belongs to no rule is
    /// reported as it is.
    pub open spec fn configured(self, finding: Finding) -> Option<Finding> {
        match finding.code {
            Some(code) => if self.reports(code) {
                Some(Finding { severity: self.severity_of(code, finding.severity), ..finding })
            } else {
                None
            },
            None => Some(finding),
        }
    }
}

/// The findings that are reported, in order.
pub open spec fn configured_findings(config: LintConfig, findings: Seq<Finding>) -> Seq<Finding>
    decreases findings.len(),
{
    if findings.len() == 0 {
        seq![]
    } else {
        let earlier = configured_findings(config, findings.drop_last());
        match config.configured(findings.last()) {
            Some(finding) => earlier.push(finding),
            None => earlier,
        }
    }
}

proof fn lemma_entry_settings(entries: Seq<RuleEntry>)
    requires
        forall|i: int, j: int|
            0 <= i < j < entries.len() ==> (#[trigger] entries[i]).code@ != (
            #[trigger] entries[j]).code@,
    ensures
        forall|code: Seq<char>| #[trigger]
            entry_settings(entries).contains_key(code) <==> exists|i: int|
                0 <= i < entries.len() && (#[trigger] entries[i]).code@ == code,
        forall|i: int|
            0 <= i < entries.len() ==> entry_settings(entries)[(#[trigger] entries[i]).code@]
                == entries[i].setting,
    decreases entries.len(),
{
    if entries.len() > 0 {
        let earlier = entries.drop_last();
        assert forall|i: int, j: int| 0 <= i < j < earlier.len() implies (
        #[trigger] earlier[i]).code@ != (#[trigger] earlier[j]).code@ by {
            assert(earlier[i] == entries[i] && earlier[j] == entries[j]);
        }
        lemma_entry_settings(earlier);
        assert forall|code: Seq<char>| #[trigger]
            entry_settings(entries).contains_key(code) implies exists|i: int|
            0 <= i < entries.len() && (#[trigger] entries[i]).code@ == code by {
            if code == entries.last().code@ {
                assert(entries[entries.len() - 1].code@ == code);
            } else {
                let i = choose|i: int| 0 <= i < earlier.len() && (#[trigger] earlier[i]).code@
                    == code;
                assert(entries[i].code@ == code);
            }
        }
        assert forall|code: Seq<char>|
            (exists|i: int| 0 <= i < entries.len() && (#[trigger] entries[i]).code@
                == code) implies #[trigger] entry_settings(entries).contains_key(code) by {
            let i = choose|i: int| 0 <= i < entries.len() && (#[trigger] entries[i]).code@ == code;
            if i < earlier.len() {
                assert(earlier[i].code@ == code);
            }
        }
        assert forall|i: int| 0 <= i < entries.len() implies entry_settings(entries)[(
        #[trigger] entries[i]).code@] == entries[i].setting by {
            if i < earlier.len() {
                assert(earlier[i] == entries[i]);
                assert(entries[i].code@ != entries[entries.len() - 1].code@);
            }
        }
    }
}

impl LintConfig {
    /// The index of the entry of a code.
    fn find(&self, code: &str) -> (r: Option<usize>)
        ensures
            match r {
                Some(i) => i < self.rules.len() && self.rules@[i as int].code@ == code@,
                None => forall|i: int|
                    0 <= i < self.rules@.len() ==> (#[trigger] self.rules@[i]).code@ != code@,
            },
    {
        let mut i: usize = 0;
        while i < self.rules.len()
            invariant
                i <= self.rules.len(),
                forall|k: int| 0 <= k < i ==> (#[trigger] self.rules@[k]).code@ != code@,
            decreases self.rules.len() - i,
        {
            if same_text(self.rules[i].code.as_str(), code) {
                return Some(i);
            }
            i += 1;
        }
        None
    }

    /// The setting of a rule, if it has one.
    pub fn setting(&self, code: &str) -> (r: Option<RuleSetting>)
        requires
            self.wf(),
        ensures
            match r {
                Some(setting) => self.settings().contains_key(code@) && self.settings()[code@]
                    == setting,
                None => !self.settings().contains_key(code@),
            },
    {
        proof {
            lemma_entry_settings(self.rules@);
        }
        match self.find(code) {
            Some(i) => Some(self.rules[i].setting),
            None => None,
        }
    }

    /// Gives a rule a setting.
    pub fn set(&mut self, code: &str, setting: RuleSetting)
        requires
            old(self).wf(),
        ensures
            final(self).wf(),
            final(self).settings() == old(self).settings().insert(code@, setting),
            final(self).enabled == old(self).enabled,
            final(self).exclude == old(self).exclude,
            final(self).exclude_paths == old(self).exclude_paths,
    {
        let ghost before = self.rules@;
        let entry = RuleEntry { code: code.to_owned(), setting };
        match self.find(code) {
            Some(i) => {
                self.rules.set(i, entry);
                proof {
                    let after = self.rules@;
                    assert forall|k: int| 0 <= k < after.len() implies (#[trigger] after[k]).code@
                        == before[k].code@ by {}
                    lemma_entry_settings(before);
                    assert forall|a: int, b: int| 0 <= a < b < after.len() implies (
                    #[trigger] after[a]).code@ != (#[trigger] after[b]).code@ by {
                        assert(before[a].code@ != before[b].code@);
                    }
                    lemma_entry_settings(after);
                    let wanted = entry_settings(before).insert(code@, setting);
                    assert forall|c: Seq<char>| #[trigger]
                        wanted.contains_key(c) <==> entry_settings(after).contains_key(c) by {
                        if wanted.contains_key(c) {
                            if c == code@ {
                                assert(after[i as int].code@ == c);
                            } else {
                                let k = choose|k: int|
                                    0 <= k < before.len() && (#[trigger] before[k]).code@ == c;
                                assert(after[k].code@ == c);
                            }
                        }
                        if entry_settings(after).contains_key(c) {
                            let k = choose|k: int|
                                0 <= k < after.len() && (#[trigger] after[k]).code@ == c;
                            assert(before[k].code@ == c);
                        }
                    }
                    assert forall|c: Seq<char>| #[trigger]
                        wanted.contains_key(c) implies wanted[c] == entry_settings(after)[c] by {
                        let k = choose|k: int|
                            0 <= k < after.len() && (#[trigger] after[k]).code@ == c;
                        assert(before[k].code@ == c);
                        if k != i {
                            assert(after[k] == before[k]);
                            if k < i {
                                assert(before[k].code@ != before[i as int].code@);
                            } else {
                                assert(before[i as int].code@ != before[k].code@);
                            }
                        }
                    }
                    assert(wanted =~= entry_settings(after));
                }
            },
            None => {
                self.rules.push(entry);
                assert(self.rules@.drop_last() =~= before);
            },
        }
    }

    /// Whether a rule is excluded by its code.
    fn is_excluded(&self, code: RuleCode) -> (r: bool)
        ensures
            r == self.excludes(code),
    {
        let wanted = code.as_str();
        let mut i: usize = 0;
        while i < self.exclude.len()
            invariant
                i <= self.exclude.len(),
                wanted@ == code.text(),
                forall|k: int| 0 <= k < i ==> (#[trigger] self.exclude@[k])@ != code.text(),
            decreases self.exclude.len() - i,
        {
            if same_text(self.exclude[i].as_str(), wanted) {
                assert(texts(self.exclude@)[i as int] == code.text());
                return true;
            }
            i += 1;
        }
        assert forall|k: int| 0 <= k < texts(self.exclude@).len() implies texts(
            self.exclude@,
        )[k] != code.text() by {
            assert(texts(self.exclude@)[k] == self.exclude@[k]@);
        }
        false
    }

    /// The severity with which the findings of a rule are reported, if they are.
    pub fn reported_severity(&self, code: RuleCode, otherwise: Severity) -> (r: Option<Severity>)
        requires
            self.wf(),
        ensures
            r == if self.reports(code) {
                Some(self.severity_of(code, otherwise))
            } else {
                None::<Severity>
            },
    {
        if !self.enabled {
            return None;
        }
        let setting = match self.setting(code.as_str()) {
            Some(setting) => setting,
            None => RuleSetting { enabled: None, severity: None },
        };
        let on = match setting.enabled {
            Some(on) => on,
            None => !self.is_excluded(code),
        };
        if !on {
            return None;
        }
        match setting.severity {
            Some(severity) => Some(severity),
            None => Some(otherwise),
        }
    }

    /// The findings that are reported, with the severities that the configuration
    /// gives them.
    pub fn apply(&self, diagnostics: Vec<Diagnostic>) -> (r: Vec<Diagnostic>)
        requires
            self.wf(),
        ensures
            r@.map_values(|d: Diagnostic| d@) == configured_findings(
                *self,
                diagnostics@.map_values(|d: Diagnostic| d@),
            ),
    {
        let ghost all = diagnostics@.map_values(|d: Diagnostic| d@);
        let mut out: Vec<Diagnostic> = Vec::new();
        assert(out@.map_values(|d: Diagnostic| d@) =~= configured_findings(*self, all.take(0)));
        for diagnostic in iter: diagnostics
            invariant
                self.wf(),
                all == iter.seq().map_values(|d: Diagnostic| d@),
                out@.map_values(|d: Diagnostic| d@) == configured_findings(
                    *self,
                    all.take(iter.index() as int),
                ),
        {
            let ghost held = out@.map_values(|d: Diagnostic| d@);
            let ghost n = iter.index() as int;
            assert(all.take(n + 1).drop_last() =~= all.take(n));
            assert(all.take(n + 1).last() == diagnostic@);
            let reported = match diagnostic.code {
                Some(code) => self.reported_severity(code, diagnostic.severity),
                None => Some(diagnostic.severity),
            };
            if let Some(severity) = reported {
                let kept = Diagnostic { severity, ..diagnostic };
                out.push(kept);
                assert(out@.map_values(|d: Diagnostic| d@) =~= held.push(kept@));
            }
            assert(out@.map_values(|d: Diagnostic| d@) == configured_findings(
                *self,
                all.take(n + 1),
            ));
        }
        assert(all.take(all.len() as int) =~= all);
        out
    }
}

/// Whether `after` is `before` with the breaking-change rules forced to report errors:
/// linting is on, every such rule is enabled with error severity, and nothing else is
/// changed.
pub open spec fn escalation(before: LintConfig, after: LintConfig) -> bool {
    &&& after.enabled
    &&& after.exclude == before.exclude
    &&& after.exclude_paths == before.exclude_paths
    &&& forall|code: Seq<char>| #[trigger]
        after.settings().contains_key(code) <==> before.settings().contains_key(code)
            || is_breaking_text(code)
    &&& forall|code: Seq<char>|
        is_breaking_text(code) ==> #[trigger] after.settings()[code] == forced()
    &&& forall|code: Seq<char>|
        !is_breaking_text(code) && before.settings().contains_key(code)
            ==> #[trigger] after.settings()[code] == before.settings()[code]
}

/// Whether a text is the code of one of the first `n` breaking-change rules.
pub open spec fn listed(text: Seq<char>, n: int) -> bool {
    exists|k: int| 0 <= k < n && (#[trigger] BREAKING@[k]).text() == text
}

proof fn lemma_listed_next(text: Seq<char>, n: int)
    requires
        0 <= n < 8,
    ensures
        listed(text, n + 1) <==> listed(text, n) || text == BREAKING@[n].text(),
{
    if listed(text, n) {
        let k = choose|k: int| 0 <= k < n && (#[trigger] BREAKING@[k]).text() == text;
        assert(BREAKING@[k].text() == text);
    }
}

/// Raises the breaking-change rules to error severity, and force-enables them so that a
/// project `exclude` or per-rule toggle cannot hide them. Every other rule keeps its
/// configured selection and severity.
pub fn escalate_breaking(config: &mut LintConfig)
    requires
        old(config).wf(),
    ensures
        final(config).wf(),
        escalation(*old(config), *final(config)),
{
    config.enabled = true;
    let ghost before = old(config).settings();
    let mut i: usize = 0;
    while i < 8
        invariant
            i <= 8,
            config.wf(),
            config.enabled,
            config.exclude == old(config).exclude,
            config.exclude_paths == old(config).exclude_paths,
            forall|code: Seq<char>| #[trigger]
                config.settings().contains_key(code) <==> before.contains_key(code) || listed(
                    code,
                    i as int,
                ),
            forall|code: Seq<char>|
                listed(code, i as int) ==> #[trigger] config.settings()[code] == forced(),
            forall|code: Seq<char>|
                before.contains_key(code) && !listed(code, i as int)
                    ==> #[trigger] config.settings()[code] == before[code],
        decreases 8 - i,
    {
        let ghost earlier = config.settings();
        let code = BREAKING[i];
        config.set(
            code.as_str(),
            RuleSetting { enabled: Some(true), severity: Some(Severity::Error) },
        );
        proof {
            assert(code == BREAKING@[i as int]);
            assert forall|c: Seq<char>| #[trigger]
                listed(c, i + 1) <==> listed(c, i as int) || c == code.text() by {
                lemma_listed_next(c, i as int);
            }
            assert forall|c: Seq<char>| #[trigger] listed(c, i as int) implies listed(
                c,
                i + 1,
            ) by {
                lemma_listed_next(c, i as int);
            }
        }
        i += 1;
    }
}

} // verus!
