//! What the lines that a run puts out say.

use crate::diagnostic::{Finding, RuleCode, Severity};
use crate::lint_cmd::{
    all_findings, file_findings, file_outputs, files_outputs, github_line, json_item, json_line,
    run_fails, run_outputs, FileReport, LintArgs, OutputView, ReportFormat, Reported, EXIT_FINDINGS,
    EXIT_OK,
};
use crate::summary::{
    count_label, count_notes, count_severity, label, lemma_text_less_irreflexive, lists, plural,
    row_before, row_line, statistics_lines, statistics_of, summary, text_less,
};
use crate::text::{decimal, join};
use vstd::prelude::*;

verus! {

/// A run fails, with exit code 1 in place of 0, exactly if there is a finding; with `--breaking`,
/// exactly if there is an error.
pub proof fn run_fails_on_findings_or_errors(findings: Seq<Finding>)
    ensures
        run_fails(false, findings) <==> findings.len() > 0,
        run_fails(true, findings) <==> exists|k: int|
            0 <= k < findings.len() && (#[trigger] findings[k]).severity is Error,
        EXIT_OK == 0,
        EXIT_FINDINGS == 1,
{
}

/// The findings of a run are those of its files, file by file.
pub proof fn findings_of_a_run_come_file_by_file(files: Seq<FileReport>, file: FileReport)
    ensures
        all_findings(files.push(file)) == all_findings(files) + file_findings(file),
        all_findings(Seq::<FileReport>::empty()).len() == 0,
        file_findings(file).len() == file.findings@.len(),
        forall|k: int|
            0 <= k < file.findings@.len() ==> #[trigger] file_findings(file)[k]
                == file.findings@[k].diagnostic@,
{
    assert(files.push(file).drop_last() =~= files);
}

/// One more finding adds one to the count of its severity and to that of its label, and to no
/// other count.
pub proof fn one_more_finding_counts_once(
    findings: Seq<Finding>,
    finding: Finding,
    severity: Severity,
    text: Seq<char>,
)
    ensures
        count_severity(findings.push(finding), severity) == count_severity(findings, severity)
            + if finding.severity == severity {
            1nat
        } else {
            0
        },
        count_notes(findings.push(finding)) == count_notes(findings) + if finding.severity is Info
            || finding.severity is Hint {
            1nat
        } else {
            0
        },
        count_label(findings.push(finding), text) == count_label(findings, text) + if text == (
        match finding.code {
            Some(code) => code.text(),
            None => "(other)"@,
        }) {
            1nat
        } else {
            0
        },
        count_severity(Seq::<Finding>::empty(), severity) == 0,
        count_notes(Seq::<Finding>::empty()) == 0,
        count_label(Seq::<Finding>::empty(), text) == 0,
{
    assert(findings.push(finding).drop_last() =~= findings);
}

proof fn lemma_joined(a: Seq<char>, b: Seq<char>, c: Seq<char>)
    ensures
        join(seq![a], ", "@) == a,
        join(seq![a, b], ", "@) == a + ", "@ + b,
        join(seq![a, b, c], ", "@) == a + ", "@ + b + ", "@ + c,
{
    reveal_with_fuel(join, 3);
    assert(seq![a, b].drop_last() =~= seq![a]);
    assert(seq![a, b, c].drop_last() =~= seq![a, b]);
}

spec fn present(x: bool, part: Seq<char>) -> Seq<Seq<char>> {
    if x {
        seq![part]
    } else {
        seq![]
    }
}

spec fn text_if(x: bool, part: Seq<char>) -> Seq<char> {
    if x {
        part
    } else {
        ""@
    }
}

proof fn lemma_present_joined(
    a: Seq<char>,
    b: Seq<char>,
    c: Seq<char>,
    x: bool,
    y: bool,
    z: bool,
)
    ensures
        join(present(x, a) + present(y, b) + present(z, c), ", "@) == text_if(x, a) + text_if(
            x && (y || z),
            ", "@,
        ) + text_if(y, b) + text_if(y && z, ", "@) + text_if(z, c),
{
    reveal_strlit("");
    let parts = present(x, a) + present(y, b) + present(z, c);
    let wanted = text_if(x, a) + text_if(x && (y || z), ", "@) + text_if(y, b) + text_if(
        y && z,
        ", "@,
    ) + text_if(z, c);
    lemma_joined(a, b, c);
    lemma_joined(a, c, c);
    lemma_joined(b, c, c);
    lemma_joined(c, c, c);
    if x && y && z {
        assert(parts =~= seq![a, b, c]);
        assert(join(parts, ", "@) =~= wanted);
    } else if x && y {
        assert(parts =~= seq![a, b]);
        assert(join(parts, ", "@) =~= wanted);
    } else if x && z {
        assert(parts =~= seq![a, c]);
        assert(join(parts, ", "@) =~= wanted);
    } else if y && z {
        assert(parts =~= seq![b, c]);
        assert(join(parts, ", "@) =~= wanted);
    } else if x {
        assert(parts =~= seq![a]);
        assert(join(parts, ", "@) =~= wanted);
    } else if y {
        assert(parts =~= seq![b]);
        assert(join(parts, ", "@) =~= wanted);
    } else if z {
        assert(parts =~= seq![c]);
        assert(join(parts, ", "@) =~= wanted);
    } else {
        assert(parts =~= seq![]);
        assert(join(parts, ", "@) =~= wanted);
    }
}

proof fn lemma_errors(n: nat)
    ensures
        plural(n, "error"@) == if n == 1 {
            "1 error"@
        } else {
            decimal(n) + " errors"@
        },
{
    reveal_strlit("");
    reveal_strlit(" ");
    reveal_strlit("s");
    reveal_strlit("error");
    reveal_strlit(" errors");
    reveal_strlit("1 error");
    assert(decimal(1) =~= seq!['1']);
    if n == 1 {
        assert(plural(n, "error"@) =~= "1 error"@);
    } else {
        assert(plural(n, "error"@) =~= decimal(n) + " errors"@);
    }
}

proof fn lemma_warnings(n: nat)
    ensures
        plural(n, "warning"@) == if n == 1 {
            "1 warning"@
        } else {
            decimal(n) + " warnings"@
        },
{
    reveal_strlit("");
    reveal_strlit(" ");
    reveal_strlit("s");
    reveal_strlit("warning");
    reveal_strlit(" warnings");
    reveal_strlit("1 warning");
    assert(decimal(1) =~= seq!['1']);
    if n == 1 {
        assert(plural(n, "warning"@) =~= "1 warning"@);
    } else {
        assert(plural(n, "warning"@) =~= decimal(n) + " warnings"@);
    }
}

proof fn lemma_notes(n: nat)
    ensures
        plural(n, "note"@) == if n == 1 {
            "1 note"@
        } else {
            decimal(n) + " notes"@
        },
{
    reveal_strlit("");
    reveal_strlit(" ");
    reveal_strlit("s");
    reveal_strlit("note");
    reveal_strlit(" notes");
    reveal_strlit("1 note");
    assert(decimal(1) =~= seq!['1']);
    if n == 1 {
        assert(plural(n, "note"@) =~= "1 note"@);
    } else {
        assert(plural(n, "note"@) =~= decimal(n) + " notes"@);
    }
}

/// The summary says how many errors, warnings and notes there are, in this order, with a comma
/// between them, the singular for one, and nothing of those of which there are none.
pub proof fn summary_says_how_many_there_are(findings: Seq<Finding>)
    requires
        findings.len() > 0,
    ensures
        ({
            let e = count_severity(findings, Severity::Error);
            let w = count_severity(findings, Severity::Warning);
            let n = count_notes(findings);
            let errors = if e == 0 {
                ""@
            } else if e == 1 {
                "1 error"@
            } else {
                decimal(e) + " errors"@
            };
            let warnings = if w == 0 {
                ""@
            } else if w == 1 {
                "1 warning"@
            } else {
                decimal(w) + " warnings"@
            };
            let notes = if n == 0 {
                ""@
            } else if n == 1 {
                "1 note"@
            } else {
                decimal(n) + " notes"@
            };
            let first = if e > 0 && w + n > 0 {
                ", "@
            } else {
                ""@
            };
            let second = if w > 0 && n > 0 {
                ", "@
            } else {
                ""@
            };
            summary(findings) == "found "@ + errors + first + warnings + second + notes
        }),
{
    let e = count_severity(findings, Severity::Error);
    let w = count_severity(findings, Severity::Warning);
    let n = count_notes(findings);
    lemma_errors(e);
    lemma_warnings(w);
    lemma_notes(n);
    let errors = plural(e, "error"@);
    let warnings = plural(w, "warning"@);
    let notes = plural(n, "note"@);
    lemma_present_joined(errors, warnings, notes, e > 0, w > 0, n > 0);
    lemma_behind(
        text_if(e > 0, errors),
        text_if(e > 0 && (w > 0 || n > 0), ", "@),
        text_if(w > 0, warnings),
        text_if(w > 0 && n > 0, ", "@),
        text_if(n > 0, notes),
    );
}

proof fn lemma_behind(a: Seq<char>, b: Seq<char>, c: Seq<char>, d: Seq<char>, e: Seq<char>)
    ensures
        "found "@ + (a + b + c + d + e) == "found "@ + a + b + c + d + e,
{
    assert("found "@ + (a + b + c + d + e) =~= "found "@ + a + b + c + d + e);
}

/// The GitHub annotation of a finding: an error only if the finding is one, else a warning, with
/// the file, where the finding starts, its code and its message. Without a range it stands at the
/// start of the file.
pub proof fn github_annotation_says_what_and_where(label: Seq<char>, reported: Reported)
    ensures
        ({
            let d = reported.diagnostic;
            let level = match d.severity {
                Severity::Error => "error"@,
                Severity::Warning | Severity::Info | Severity::Hint => "warning"@,
            };
            let line = if d.range is Some {
                reported.position.0
            } else {
                1
            };
            let col = if d.range is Some {
                reported.position.1
            } else {
                1
            };
            let code = match d.code {
                Some(code) => code.text(),
                None => ""@,
            };
            github_line(label, reported) == "::"@ + level + " file="@ + label + ",line="@ + decimal(
                line as nat,
            ) + ",col="@ + decimal(col as nat) + "::"@ + code + " "@ + d.message@
        }),
{
}

/// The JSON object of a finding: its code or `null`, the name of its severity, where it starts, or
/// the start of the file, its message, and whether it has a fix.
pub proof fn json_object_says_what_and_where(reported: Reported)
    ensures
        ({
            let d = reported.diagnostic;
            let severity = match d.severity {
                Severity::Error => "error"@,
                Severity::Warning => "warning"@,
                Severity::Info => "info"@,
                Severity::Hint => "hint"@,
            };
            let line = if d.range is Some {
                reported.position.0
            } else {
                1
            };
            let col = if d.range is Some {
                reported.position.1
            } else {
                1
            };
            let code = if d.code is Some {
                reported.code_json@
            } else {
                "null"@
            };
            let fixable = if d.fixes@.len() > 0 {
                "true"@
            } else {
                "false"@
            };
            json_item(reported) == "{\"code\":"@ + code + ",\"severity\":\""@ + severity
                + "\",\"line\":"@ + decimal(line as nat) + ",\"col\":"@ + decimal(col as nat)
                + ",\"message\":"@ + reported.message_json@ + ",\"fixable\":"@ + fixable + "}"@
        }),
{
}

/// The JSON object of a file: its label and the objects of its findings, in order and with a comma
/// between them.
pub proof fn json_object_of_a_file_lists_its_findings(file: FileReport, items: Seq<Seq<char>>)
    requires
        items.len() == file.findings@.len(),
        forall|k: int|
            0 <= k < items.len() ==> #[trigger] items[k] == json_item(file.findings@[k]),
    ensures
        json_line(file) == "{\"file\":"@ + file.label_json@ + ",\"diagnostics\":["@ + join(
            items,
            ","@,
        ) + "]}"@,
{
    assert(items =~= file.findings@.map_values(|reported: Reported| json_item(reported)));
}

/// What is put out for one more file: for humans its rendering if it has findings, in JSON one
/// line, for GitHub one line for each finding, in order, and for SARIF nothing of its own.
pub proof fn one_more_file_is_put_out(
    format: ReportFormat,
    files: Seq<FileReport>,
    file: FileReport,
)
    ensures
        files_outputs(format, files.push(file)) == files_outputs(format, files) + file_outputs(
            format,
            file,
            files.len() as int,
        ),
        files_outputs(format, Seq::<FileReport>::empty()).len() == 0,
        match format {
            ReportFormat::Human => file_outputs(format, file, files.len() as int)
                == if file.findings@.len() > 0 {
                seq![OutputView::Human(files.len() as int)]
            } else {
                seq![]
            },
            ReportFormat::Json => file_outputs(format, file, files.len() as int) == seq![
                OutputView::Line(json_line(file)),
            ],
            ReportFormat::Github => file_outputs(format, file, files.len() as int).len()
                == file.findings@.len() && forall|k: int|
                0 <= k < file.findings@.len() ==> #[trigger] file_outputs(
                    format,
                    file,
                    files.len() as int,
                )[k] == OutputView::Line(github_line(file.label@, file.findings@[k])),
            ReportFormat::Sarif => file_outputs(format, file, files.len() as int).len() == 0,
        },
{
    assert(files.push(file).drop_last() =~= files);
}

/// A run puts out one log with SARIF, and else what it puts out for its files. For humans come
/// behind that the statistics, if they are asked for, and the summary, unless it is suppressed,
/// both on the standard error; the summary of no findings says that there are none.
pub proof fn run_puts_out_reports_statistics_and_summary(
    args: LintArgs,
    files: Seq<FileReport>,
    rows: Seq<(Seq<char>, nat)>,
)
    ensures
        ({
            let lines = statistics_lines(rows);
            let statistics = if args.format is Human && args.statistics {
                Seq::new(lines.len(), |k: int| OutputView::ErrorLine(lines[k]))
            } else {
                seq![]
            };
            let last = if args.format is Human && !args.quiet {
                if all_findings(files).len() == 0 {
                    seq![OutputView::ErrorLine("No issues found."@)]
                } else {
                    seq![OutputView::ErrorLine(summary(all_findings(files)))]
                }
            } else {
                seq![]
            };
            run_outputs(args, files, rows) == if args.format is Sarif {
                seq![OutputView::Sarif]
            } else {
                files_outputs(args.format, files) + statistics + last
            }
        }),
{
    let lines = statistics_lines(rows);
    assert(Seq::new(lines.len(), |k: int| OutputView::ErrorLine(lines[k])) =~= lines.map_values(
        |line: Seq<char>| OutputView::ErrorLine(line),
    ));
}

/// The statistics have exactly one row for each label that findings are listed under, with the
/// number of those findings, the greater numbers first and the same ones by label.
pub proof fn statistics_list_each_label_once(
    findings: Seq<Finding>,
    rows: Seq<(Seq<char>, nat)>,
    k: int,
    i: int,
    j: int,
)
    requires
        statistics_of(findings, rows),
    ensures
        0 <= k < findings.len() ==> exists|r: int|
            0 <= r < rows.len() && (#[trigger] rows[r]).0 == match findings[k].code {
                Some(code) => code.text(),
                None => "(other)"@,
            },
        0 <= i < rows.len() ==> rows[i].1 == count_label(findings, rows[i].0) && rows[i].1 > 0,
        0 <= i < j < rows.len() ==> rows[i].0 != rows[j].0 && (rows[i].1 > rows[j].1 || (rows[i].1
            == rows[j].1 && text_less(rows[i].0, rows[j].0))),
{
    if 0 <= k < findings.len() {
        assert(lists(rows, label(findings[k].code)));
    }
    if 0 <= i < j < rows.len() {
        assert(row_before(rows[i], rows[j]));
        lemma_text_less_irreflexive(rows[i].0);
    }
}

/// The statistics have a heading and one line for each row, and nothing if there are no rows.
pub proof fn statistics_have_a_heading(rows: Seq<(Seq<char>, nat)>)
    ensures
        rows.len() == 0 ==> statistics_lines(rows).len() == 0,
        rows.len() > 0 ==> statistics_lines(rows).len() == rows.len() + 1 && statistics_lines(
            rows,
        )[0] == "\nfindings by rule:"@,
        forall|k: int|
            0 <= k < rows.len() ==> #[trigger] statistics_lines(rows)[k + 1] == row_line(rows[k]),
{
}

/// The line of a row is its label, filled with blanks to six characters, and its count.
pub proof fn row_is_aligned(text: Seq<char>, n: nat, blanks: Seq<char>)
    requires
        blanks.len() == if text.len() < 6 {
            6 - text.len()
        } else {
            0
        },
        forall|k: int| 0 <= k < blanks.len() ==> #[trigger] blanks[k] == ' ',
    ensures
        row_line((text, n)) == "  "@ + text + blanks + " "@ + decimal(n),
{
    assert(row_line((text, n)) =~= "  "@ + text + blanks + " "@ + decimal(n));
}

/// Of two rows the one with the greater count comes first, and of two with the same count the one
/// whose label comes first in the order of the characters.
pub proof fn rows_are_ordered_by_count_and_label(a: (Seq<char>, nat), b: (Seq<char>, nat))
    ensures
        a.1 > b.1 ==> row_before(a, b) && !row_before(b, a),
        a.1 == b.1 ==> row_before(a, b) == text_less(a.0, b.0),
{
}

/// Of two texts that begin alike, the one comes first whose next character comes first, or that
/// ends there.
pub proof fn texts_are_ordered_by_their_characters(
    begin: Seq<char>,
    x: char,
    a: Seq<char>,
    y: char,
    b: Seq<char>,
)
    ensures
        x != y ==> (text_less(begin + seq![x] + a, begin + seq![y] + b) <==> (x as u32) < (y
            as u32)),
        text_less(begin, begin + seq![y] + b),
        !text_less(begin + seq![x] + a, begin),
    decreases begin.len(),
{
    let p = begin + seq![x] + a;
    let q = begin + seq![y] + b;
    if begin.len() == 0 {
        assert(p[0] == x && q[0] == y);
    } else {
        texts_are_ordered_by_their_characters(begin.skip(1), x, a, y, b);
        assert(p[0] == begin[0] && q[0] == begin[0]);
        assert(p.skip(1) =~= begin.skip(1) + seq![x] + a);
        assert(q.skip(1) =~= begin.skip(1) + seq![y] + b);
    }
}

/// The findings of a rule are listed under its code, and all others under `(other)`.
pub proof fn findings_are_listed_by_code(code: RuleCode)
    ensures
        label(Some(code)) == code.text(),
        label(None) == "(other)"@,
{
}

} // verus!
