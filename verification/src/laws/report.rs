//! What holds of what a run puts out.

use crate::lint_cmd::{
    all_findings, file_findings, file_outputs, files_outputs, run_outputs, summary_outputs,
    FileReport, LintArgs, OutputView, ReportFormat,
};
use crate::summary::{statistics_of, statistics_unique};
use vstd::prelude::*;

verus! {

/// What a run puts out is determined by its arguments and the findings of its files.
pub proof fn outputs_are_determined(
    args: LintArgs,
    files: Seq<FileReport>,
    a: Seq<(Seq<char>, nat)>,
    b: Seq<(Seq<char>, nat)>,
)
    requires
        statistics_of(all_findings(files), a),
        statistics_of(all_findings(files), b),
    ensures
        run_outputs(args, files, a) == run_outputs(args, files, b),
{
    statistics_unique(all_findings(files), a, b);
}

/// `--quiet` suppresses the summary line and nothing else.
pub proof fn quiet_drops_only_the_summary(
    args: LintArgs,
    files: Seq<FileReport>,
    rows: Seq<(Seq<char>, nat)>,
)
    requires
        !args.quiet,
    ensures
        run_outputs(args, files, rows) == run_outputs(
            LintArgs { quiet: true, ..args },
            files,
            rows,
        ) + summary_outputs(args, all_findings(files)),
{
    let quiet = LintArgs { quiet: true, ..args };
    assert(run_outputs(args, files, rows) =~= run_outputs(quiet, files, rows) + summary_outputs(
        args,
        all_findings(files),
    ));
}

/// Files are reported in order: a report begins with that of any number of the first files.
pub proof fn files_are_reported_in_order(format: ReportFormat, files: Seq<FileReport>, n: int)
    requires
        0 <= n <= files.len(),
    ensures
        files_outputs(format, files.take(n)).is_prefix_of(files_outputs(format, files)),
    decreases files.len(),
{
    if n == files.len() {
        assert(files.take(n) =~= files);
    } else {
        files_are_reported_in_order(format, files.drop_last(), n);
        assert(files.drop_last().take(n) =~= files.take(n));
    }
}

/// The GitHub report has one line for each finding.
pub proof fn github_reports_every_finding(files: Seq<FileReport>)
    ensures
        files_outputs(ReportFormat::Github, files).len() == all_findings(files).len(),
    decreases files.len(),
{
    if files.len() > 0 {
        github_reports_every_finding(files.drop_last());
        assert(file_outputs(ReportFormat::Github, files.last(), files.len() - 1).len()
            == file_findings(files.last()).len());
    }
}

/// The JSON report has one line for each file.
pub proof fn json_reports_every_file(files: Seq<FileReport>)
    ensures
        files_outputs(ReportFormat::Json, files).len() == files.len(),
    decreases files.len(),
{
    if files.len() > 0 {
        json_reports_every_file(files.drop_last());
    }
}

/// The report for humans renders exactly the files that have findings.
pub proof fn human_report_renders_files_with_findings(files: Seq<FileReport>, i: int)
    ensures
        files_outputs(ReportFormat::Human, files).contains(OutputView::Human(i)) <==> 0 <= i
            < files.len() && files[i].findings@.len() > 0,
    decreases files.len(),
{
    if files.len() > 0 {
        let earlier = files.drop_last();
        let before = files_outputs(ReportFormat::Human, earlier);
        let all = files_outputs(ReportFormat::Human, files);
        let added = file_outputs(ReportFormat::Human, files.last(), files.len() - 1);
        human_report_renders_files_with_findings(earlier, i);
        if all.contains(OutputView::Human(i)) {
            let k = choose|k: int| 0 <= k < all.len() && all[k] == OutputView::Human(i);
            if k < before.len() {
                assert(before[k] == OutputView::Human(i));
            } else {
                assert(added[k - before.len()] == OutputView::Human(i));
            }
        }
        if before.contains(OutputView::Human(i)) {
            let k = choose|k: int| 0 <= k < before.len() && before[k] == OutputView::Human(i);
            assert(all[k] == OutputView::Human(i));
        }
        if i == files.len() - 1 && files.last().findings@.len() > 0 {
            assert(all[before.len() as int] == OutputView::Human(i));
        }
    }
}

} // verus!
