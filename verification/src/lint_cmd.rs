//! The `lint` command: what a run reports, and the exit code it ends with.

use crate::config::{escalate_breaking, escalation, LintConfig};
use crate::diagnostic::{Diagnostic, Finding, RuleCode, Severity};
use crate::summary::{
    findings_of, print_statistics, statistics_lines, statistics_of, summary, summary_line,
};
use crate::text::{decimal, join, join_texts, texts, to_decimal};
use vstd::prelude::*;
use vstd::string::StringExecFns;

verus! {

/// The exit code of a run that passes.
pub const EXIT_OK: u8 = 0;

/// The exit code of a run that fails on its findings.
pub const EXIT_FINDINGS: u8 = 1;

/// How findings are reported.
#[derive(Clone, Copy, PartialEq, Eq, Structural, Debug)]
pub enum ReportFormat {
    Human,
    Json,
    Github,
    Sarif,
}

/// The arguments of the command.
#[derive(Debug)]
pub struct LintArgs {
    /// Files or directories to lint; `-` or none to read stdin.
    pub paths: Vec<String>,
    pub format: ReportFormat,
    /// Suppress the summary line; findings are still printed.
    pub quiet: bool,
    /// Print a per-rule count breakdown after the findings.
    pub statistics: bool,
    /// Only error findings, among them the backward-incompatible changes, fail the run.
    pub breaking: bool,
}

/// A finding with what its reports are made of.
#[derive(Debug)]
pub struct Reported {
    pub diagnostic: Diagnostic,
    /// The line and column at which the range of the finding starts. Not shown of a
    /// finding without a range.
    pub position: (usize, usize),
    /// The code of the finding as a JSON string. Not shown of a finding without a code.
    pub code_json: String,
    /// The message of the finding as a JSON string.
    pub message_json: String,
}

/// An input file with its findings; its label also as a JSON string.
#[derive(Debug)]
pub struct FileReport {
    pub label: String,
    pub label_json: String,
    pub findings: Vec<Reported>,
}

/// A thing to put out.
#[derive(Debug)]
pub enum Output {
    /// The rendering for humans of the findings of a file, by its index.
    Human(usize),
    /// The SARIF log of all files.
    Sarif,
    /// A line on the standard output.
    Line(String),
    /// A line on the standard error.
    ErrorLine(String),
}

/// What a run puts out, and its exit code.
#[derive(Debug)]
pub struct Outcome {
    pub outputs: Vec<Output>,
    pub exit_code: u8,
}

/// A thing to put out, as a mathematical value.
pub ghost enum OutputView {
    Human(int),
    Sarif,
    Line(Seq<char>),
    ErrorLine(Seq<char>),
}

impl View for Output {
    type V = OutputView;

    open spec fn view(&self) -> OutputView {
        match self {
            Output::Human(index) => OutputView::Human(*index as int),
            Output::Sarif => OutputView::Sarif,
            Output::Line(text) => OutputView::Line(text@),
            Output::ErrorLine(text) => OutputView::ErrorLine(text@),
        }
    }
}

/// Outputs as mathematical values.
pub open spec fn outputs_of(outputs: Seq<Output>) -> Seq<OutputView> {
    outputs.map_values(|output: Output| output@)
}

/// The findings of a file.
pub open spec fn file_findings(file: FileReport) -> Seq<Finding> {
    file.findings@.map_values(|reported: Reported| reported.diagnostic@)
}

/// The findings of a sequence of files, in order.
pub open spec fn all_findings(files: Seq<FileReport>) -> Seq<Finding>
    decreases files.len(),
{
    if files.len() == 0 {
        seq![]
    } else {
        all_findings(files.drop_last()) + file_findings(files.last())
    }
}

/// Whether some finding is an error.
pub open spec fn has_error(findings: Seq<Finding>) -> bool {
    exists|i: int| 0 <= i < findings.len() && (#[trigger] findings[i]).severity is Error
}

/// Whether a run fails: with `--breaking` on any error, else on any finding.
pub open spec fn run_fails(breaking: bool, findings: Seq<Finding>) -> bool {
    if breaking {
        has_error(findings)
    } else {
        findings.len() > 0
    }
}

/// Where a finding is reported to stand.
pub open spec fn shown_position(reported: Reported) -> (usize, usize) {
    if reported.diagnostic.range is Some {
        reported.position
    } else {
        (1, 1)
    }
}

/// The level of a GitHub annotation.
pub open spec fn github_level(severity: Severity) -> Seq<char> {
    if severity is Error {
        "error"@
    } else {
        "warning"@
    }
}

/// The text of a code, empty if there is none.
pub open spec fn code_or_empty(code: Option<RuleCode>) -> Seq<char> {
    match code {
        Some(code) => code.text(),
        None => ""@,
    }
}

/// The GitHub annotation of a finding.
pub open spec fn github_line(label: Seq<char>, reported: Reported) -> Seq<char> {
    "::"@ + github_level(reported.diagnostic.severity) + " file="@ + label + ",line="@ + decimal(
        shown_position(reported).0 as nat,
    ) + ",col="@ + decimal(shown_position(reported).1 as nat) + "::"@ + code_or_empty(
        reported.diagnostic.code,
    ) + " "@ + reported.diagnostic.message@
}

/// The name of a severity.
pub open spec fn severity_name(severity: Severity) -> Seq<char> {
    match severity {
        Severity::Error => "error"@,
        Severity::Warning => "warning"@,
        Severity::Info => "info"@,
        Severity::Hint => "hint"@,
    }
}

/// The code of a finding in JSON, `null` if it has none.
pub open spec fn json_code(reported: Reported) -> Seq<char> {
    if reported.diagnostic.code is Some {
        reported.code_json@
    } else {
        "null"@
    }
}

/// The JSON object of a finding.
pub open spec fn json_item(reported: Reported) -> Seq<char> {
    "{\"code\":"@ + json_code(reported) + ",\"severity\":\""@ + severity_name(
        reported.diagnostic.severity,
    ) + "\",\"line\":"@ + decimal(shown_position(reported).0 as nat) + ",\"col\":"@ + decimal(
        shown_position(reported).1 as nat,
    ) + ",\"message\":"@ + reported.message_json@ + ",\"fixable\":"@ + (
    if reported.diagnostic.fixes@.len() > 0 {
        "true"@
    } else {
        "false"@
    }) + "}"@
}

/// The JSON object of a file.
pub open spec fn json_line(file: FileReport) -> Seq<char> {
    "{\"file\":"@ + file.label_json@ + ",\"diagnostics\":["@ + join(
        file.findings@.map_values(|reported: Reported| json_item(reported)),
        ","@,
    ) + "]}"@
}

/// What is put out for the `i`-th file. The SARIF log is made of all files at once.
pub open spec fn file_outputs(format: ReportFormat, file: FileReport, i: int) -> Seq<OutputView> {
    match format {
        ReportFormat::Human => if file.findings@.len() == 0 {
            seq![]
        } else {
            seq![OutputView::Human(i)]
        },
        ReportFormat::Json => seq![OutputView::Line(json_line(file))],
        ReportFormat::Github => file.findings@.map_values(
            |reported: Reported| OutputView::Line(github_line(file.label@, reported)),
        ),
        ReportFormat::Sarif => seq![],
    }
}

/// What is put out for a sequence of files.
pub open spec fn files_outputs(format: ReportFormat, files: Seq<FileReport>) -> Seq<OutputView>
    decreases files.len(),
{
    if files.len() == 0 {
        seq![]
    } else {
        files_outputs(format, files.drop_last()) + file_outputs(
            format,
            files.last(),
            files.len() - 1,
        )
    }
}

/// The per-rule count breakdown of a run, if it puts one out.
pub open spec fn statistics_outputs(
    args: LintArgs,
    rows: Seq<(Seq<char>, nat)>,
) -> Seq<OutputView> {
    if args.statistics && args.format is Human {
        statistics_lines(rows).map_values(|line: Seq<char>| OutputView::ErrorLine(line))
    } else {
        seq![]
    }
}

/// The summary line of a run, if it puts one out.
pub open spec fn summary_outputs(args: LintArgs, findings: Seq<Finding>) -> Seq<OutputView> {
    if !args.quiet && args.format is Human {
        seq![
            OutputView::ErrorLine(
                if findings.len() == 0 {
                    "No issues found."@
                } else {
                    summary(findings)
                },
            ),
        ]
    } else {
        seq![]
    }
}

/// What a run puts out, given the statistics of its findings.
pub open spec fn run_outputs(
    args: LintArgs,
    files: Seq<FileReport>,
    rows: Seq<(Seq<char>, nat)>,
) -> Seq<OutputView> {
    if args.format is Sarif {
        seq![OutputView::Sarif]
    } else {
        files_outputs(args.format, files) + statistics_outputs(args, rows) + summary_outputs(
            args,
            all_findings(files),
        )
    }
}

/// The name of a severity.
pub fn severity_label(severity: Severity) -> (r: &'static str)
    ensures
        r@ == severity_name(severity),
{
    match severity {
        Severity::Error => "error",
        Severity::Warning => "warning",
        Severity::Info => "info",
        Severity::Hint => "hint",
    }
}

impl Reported {
    /// Where the finding is reported to stand.
    fn shown_position(&self) -> (r: (usize, usize))
        ensures
            r == shown_position(*self),
    {
        if self.diagnostic.range.is_some() {
            self.position
        } else {
            (1, 1)
        }
    }

    /// The code of the finding in JSON, `null` if it has none.
    fn json_str(&self) -> (r: &str)
        ensures
            r@ == json_code(*self),
    {
        if self.diagnostic.code.is_some() {
            self.code_json.as_str()
        } else {
            "null"
        }
    }

    /// The GitHub annotation of the finding.
    fn github_line(&self, label: &str) -> (r: String)
        ensures
            r@ == github_line(label@, *self),
    {
        let (line, col) = self.shown_position();
        let level = match self.diagnostic.severity {
            Severity::Error => "error",
            _ => "warning",
        };
        let code = match self.diagnostic.code {
            Some(code) => code.as_str(),
            None => "",
        };
        let mut out = "::".to_owned();
        out.append(level);
        out.append(" file=");
        out.append(label);
        out.append(",line=");
        out.append(to_decimal(line).as_str());
        out.append(",col=");
        out.append(to_decimal(col).as_str());
        out.append("::");
        out.append(code);
        out.append(" ");
        out.append(self.diagnostic.message.as_str());
        out
    }

    /// The JSON object of the finding.
    fn json_item(&self) -> (r: String)
        ensures
            r@ == json_item(*self),
    {
        let (line, col) = self.shown_position();
        let mut out = "{\"code\":".to_owned();
        out.append(self.json_str());
        out.append(",\"severity\":\"");
        out.append(severity_label(self.diagnostic.severity));
        out.append("\",\"line\":");
        out.append(to_decimal(line).as_str());
        out.append(",\"col\":");
        out.append(to_decimal(col).as_str());
        out.append(",\"message\":");
        out.append(self.message_json.as_str());
        out.append(",\"fixable\":");
        out.append(
            if self.diagnostic.fixes.len() > 0 {
                "true"
            } else {
                "false"
            },
        );
        out.append("}");
        out
    }
}

/// Puts out the rendering for humans of the findings of a file, if it has any.
fn report_human(file: &FileReport, index: usize, out: &mut Vec<Output>)
    ensures
        outputs_of(final(out)@) == outputs_of(old(out)@) + file_outputs(
            ReportFormat::Human,
            *file,
            index as int,
        ),
{
    let ghost before = outputs_of(out@);
    if file.findings.len() > 0 {
        out.push(Output::Human(index));
    }
    assert(outputs_of(out@) =~= before + file_outputs(ReportFormat::Human, *file, index as int));
}

/// Puts out the GitHub annotations of the findings of a file.
fn report_github(file: &FileReport, Ghost(index): Ghost<int>, out: &mut Vec<Output>)
    ensures
        outputs_of(final(out)@) == outputs_of(old(out)@) + file_outputs(
            ReportFormat::Github,
            *file,
            index,
        ),
{
    let ghost before = outputs_of(out@);
    let ghost wanted = file_outputs(ReportFormat::Github, *file, index);
    let mut i: usize = 0;
    assert(before =~= before + wanted.take(0));
    while i < file.findings.len()
        invariant
            i <= file.findings.len(),
            wanted == file_outputs(ReportFormat::Github, *file, index),
            outputs_of(out@) == before + wanted.take(i as int),
        decreases file.findings.len() - i,
    {
        let line = file.findings[i].github_line(file.label.as_str());
        assert(wanted[i as int] == OutputView::Line(line@));
        let ghost held = outputs_of(out@);
        out.push(Output::Line(line));
        assert(outputs_of(out@) =~= held.push(wanted[i as int]));
        assert(wanted.take(i + 1) =~= wanted.take(i as int).push(wanted[i as int]));
        i += 1;
        assert(outputs_of(out@) =~= before + wanted.take(i as int));
    }
    assert(wanted.take(i as int) =~= wanted);
}

/// Puts out the JSON object of a file.
fn report_json(file: &FileReport, Ghost(index): Ghost<int>, out: &mut Vec<Output>)
    ensures
        outputs_of(final(out)@) == outputs_of(old(out)@) + file_outputs(
            ReportFormat::Json,
            *file,
            index,
        ),
{
    let ghost before = outputs_of(out@);
    let ghost wanted = file.findings@.map_values(|reported: Reported| json_item(reported));
    let mut items: Vec<String> = Vec::new();
    let mut i: usize = 0;
    assert(texts(items@) =~= wanted.take(0));
    while i < file.findings.len()
        invariant
            i <= file.findings.len(),
            wanted == file.findings@.map_values(|reported: Reported| json_item(reported)),
            texts(items@) == wanted.take(i as int),
        decreases file.findings.len() - i,
    {
        let item = file.findings[i].json_item();
        assert(wanted[i as int] == item@);
        let ghost held = texts(items@);
        items.push(item);
        assert(texts(items@) =~= held.push(wanted[i as int]));
        assert(wanted.take(i + 1) =~= wanted.take(i as int).push(wanted[i as int]));
        i += 1;
        assert(texts(items@) =~= wanted.take(i as int));
    }
    assert(wanted.take(i as int) =~= wanted);
    let mut line = "{\"file\":".to_owned();
    line.append(file.label_json.as_str());
    line.append(",\"diagnostics\":[");
    line.append(join_texts(&items, ",").as_str());
    line.append("]}");
    out.push(Output::Line(line));
    assert(outputs_of(out@) =~= before + file_outputs(ReportFormat::Json, *file, index));
}

/// Puts out the findings of a file.
fn report(format: ReportFormat, file: &FileReport, index: usize, out: &mut Vec<Output>)
    ensures
        outputs_of(final(out)@) == outputs_of(old(out)@) + file_outputs(
            format,
            *file,
            index as int,
        ),
{
    let ghost before = outputs_of(out@);
    match format {
        ReportFormat::Human => report_human(file, index, out),
        ReportFormat::Json => report_json(file, Ghost(index as int), out),
        ReportFormat::Github => report_github(file, Ghost(index as int), out),
        ReportFormat::Sarif => {},
    }
    assert(outputs_of(out@) =~= before + file_outputs(format, *file, index as int));
}

/// The findings of all files, in order.
fn flatten(files: &Vec<FileReport>) -> (r: Vec<&Diagnostic>)
    ensures
        findings_of(r@) == all_findings(files@),
{
    let mut out: Vec<&Diagnostic> = Vec::new();
    let mut i: usize = 0;
    assert(findings_of(out@) =~= all_findings(files@.take(0)));
    while i < files.len()
        invariant
            i <= files.len(),
            findings_of(out@) == all_findings(files@.take(i as int)),
        decreases files.len() - i,
    {
        assert(files@.take(i + 1).drop_last() =~= files@.take(i as int));
        let ghost before = findings_of(out@);
        let file = &files[i];
        let ghost added = file_findings(*file);
        let mut k: usize = 0;
        assert(before =~= before + added.take(0));
        while k < file.findings.len()
            invariant
                k <= file.findings.len(),
                added == file_findings(*file),
                findings_of(out@) == before + added.take(k as int),
            decreases file.findings.len() - k,
        {
            let ghost held = findings_of(out@);
            out.push(&file.findings[k].diagnostic);
            assert(findings_of(out@) =~= held.push(added[k as int]));
            assert(added.take(k + 1) =~= added.take(k as int).push(added[k as int]));
            k += 1;
            assert(findings_of(out@) =~= before + added.take(k as int));
        }
        assert(added.take(k as int) =~= added);
        i += 1;
    }
    assert(files@.take(i as int) =~= files@);
    out
}

fn any_error(diagnostics: &Vec<&Diagnostic>) -> (r: bool)
    ensures
        r == has_error(findings_of(diagnostics@)),
{
    let ghost all = findings_of(diagnostics@);
    let mut i: usize = 0;
    while i < diagnostics.len()
        invariant
            i <= diagnostics.len(),
            all == findings_of(diagnostics@),
            forall|k: int| 0 <= k < i ==> !((#[trigger] all[k]).severity is Error),
        decreases diagnostics.len() - i,
    {
        assert(all[i as int].severity == diagnostics@[i as int].severity);
        if matches!(diagnostics[i].severity, Severity::Error) {
            return true;
        }
        i += 1;
    }
    false
}

/// The configuration that a run works with: with `--breaking`, the breaking-change rules
/// are forced to report errors.
pub fn configure(args: &LintArgs, config: LintConfig) -> (r: LintConfig)
    requires
        config.wf(),
    ensures
        r.wf(),
        if args.breaking {
            escalation(config, r)
        } else {
            r == config
        },
{
    let mut config = config;
    if args.breaking {
        escalate_breaking(&mut config);
    }
    config
}

/// What a run over `files` puts out, and its exit code. `--breaking` is a gate: only
/// error findings fail the run. Without it any finding does.
pub fn run(args: &LintArgs, files: &Vec<FileReport>) -> (r: Outcome)
    ensures
        exists|rows: Seq<(Seq<char>, nat)>| #[trigger]
            statistics_of(all_findings(files@), rows) && outputs_of(r.outputs@) == run_outputs(
                *args,
                files@,
                rows,
            ),
        r.exit_code == if run_fails(args.breaking, all_findings(files@)) {
            EXIT_FINDINGS
        } else {
            EXIT_OK
        },
{
    let diagnostics = flatten(files);
    let lines = print_statistics(&diagnostics);
    let ghost findings = all_findings(files@);
    let ghost rows = choose|rows: Seq<(Seq<char>, nat)>| #[trigger]
        statistics_of(findings, rows) && texts(lines@) == statistics_lines(rows);
    let mut outputs: Vec<Output> = Vec::new();
    if matches!(args.format, ReportFormat::Sarif) {
        outputs.push(Output::Sarif);
        assert(outputs_of(outputs@) =~= seq![OutputView::Sarif]);
    } else {
        let mut i: usize = 0;
        assert(outputs_of(outputs@) =~= files_outputs(args.format, files@.take(0)));
        while i < files.len()
            invariant
                i <= files.len(),
                outputs_of(outputs@) == files_outputs(args.format, files@.take(i as int)),
            decreases files.len() - i,
        {
            assert(files@.take(i + 1).drop_last() =~= files@.take(i as int));
            report(args.format, &files[i], i, &mut outputs);
            i += 1;
        }
        assert(files@.take(i as int) =~= files@);
        let ghost reported = files_outputs(args.format, files@);
        if args.statistics && matches!(args.format, ReportFormat::Human) {
            let ghost wanted = statistics_outputs(*args, rows);
            assert(wanted.len() == lines.len()) by {
                assert(texts(lines@).len() == lines@.len());
            }
            let mut k: usize = 0;
            assert(reported =~= reported + wanted.take(0));
            while k < lines.len()
                invariant
                    k <= lines.len(),
                    wanted.len() == lines.len(),
                    texts(lines@) == statistics_lines(rows),
                    wanted == statistics_lines(rows).map_values(
                        |line: Seq<char>| OutputView::ErrorLine(line),
                    ),
                    outputs_of(outputs@) == reported + wanted.take(k as int),
                decreases lines.len() - k,
            {
                assert(wanted[k as int] == OutputView::ErrorLine(lines@[k as int]@)) by {
                    assert(texts(lines@)[k as int] == lines@[k as int]@);
                }
                let ghost held = outputs_of(outputs@);
                outputs.push(Output::ErrorLine(lines[k].clone()));
                assert(outputs_of(outputs@) =~= held.push(wanted[k as int]));
                assert(wanted.take(k + 1) =~= wanted.take(k as int).push(wanted[k as int]));
                k += 1;
                assert(outputs_of(outputs@) =~= reported + wanted.take(k as int));
            }
            assert(wanted.take(k as int) =~= wanted);
        }
        assert(outputs_of(outputs@) =~= reported + statistics_outputs(*args, rows));
        if !args.quiet && matches!(args.format, ReportFormat::Human) {
            if diagnostics.len() == 0 {
                outputs.push(Output::ErrorLine("No issues found.".to_owned()));
            } else {
                outputs.push(Output::ErrorLine(summary_line(&diagnostics)));
            }
        }
        assert(outputs_of(outputs@) =~= run_outputs(*args, files@, rows));
    }
    let fail = if args.breaking {
        any_error(&diagnostics)
    } else {
        diagnostics.len() > 0
    };
    Outcome {
        outputs,
        exit_code: if fail {
            EXIT_FINDINGS
        } else {
            EXIT_OK
        },
    }
}

} // verus!
