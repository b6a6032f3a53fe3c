//! Summaries of the findings of a run: counts by severity and by rule.

use crate::diagnostic::{Diagnostic, Finding, RuleCode, Severity};
use crate::text::{chars_of, decimal, join, join_texts, same_text, texts, to_decimal};
use vstd::prelude::*;
use vstd::string::{StrSliceExecFns, StringExecFns};

verus! {

/// The findings in a sequence of references.
pub open spec fn findings_of(diagnostics: Seq<&Diagnostic>) -> Seq<Finding> {
    Seq::new(diagnostics.len(), |i: int| diagnostics[i]@)
}

/// The number of findings of a severity.
pub open spec fn count_severity(findings: Seq<Finding>, severity: Severity) -> nat
    decreases findings.len(),
{
    if findings.len() == 0 {
        0
    } else {
        count_severity(findings.drop_last(), severity) + if findings.last().severity == severity {
            1nat
        } else {
            0
        }
    }
}

/// The number of findings that are neither errors nor warnings.
pub open spec fn count_notes(findings: Seq<Finding>) -> nat {
    count_severity(findings, Severity::Info) + count_severity(findings, Severity::Hint)
}

/// A number and a noun that agrees with it.
pub open spec fn plural(n: nat, word: Seq<char>) -> Seq<char> {
    decimal(n) + " "@ + word + if n == 1 {
        ""@
    } else {
        "s"@
    }
}

/// The part of the summary for a count, if there is anything to count.
pub open spec fn summary_part(n: nat, word: Seq<char>) -> Seq<Seq<char>> {
    if n > 0 {
        seq![plural(n, word)]
    } else {
        seq![]
    }
}

/// The summary of the findings of a run.
pub open spec fn summary(findings: Seq<Finding>) -> Seq<char> {
    "found "@ + join(
        summary_part(count_severity(findings, Severity::Error), "error"@) + summary_part(
            count_severity(findings, Severity::Warning),
            "warning"@,
        ) + summary_part(count_notes(findings), "note"@),
        ", "@,
    )
}

fn plural_text(n: usize, word: &str) -> (r: String)
    ensures
        r@ == plural(n as nat, word@),
{
    let mut out = to_decimal(n);
    out.append(" ");
    out.append(word);
    out.append(
        if n == 1 {
            ""
        } else {
            "s"
        },
    );
    out
}

fn push_part(parts: &mut Vec<String>, n: usize, word: &str)
    ensures
        texts(final(parts)@) == texts(old(parts)@) + summary_part(
            n as nat,
            word@,
        ),
{
    let ghost before = texts(parts@);
    if n > 0 {
        parts.push(plural_text(n, word));
    }
    assert(texts(parts@) =~= before + summary_part(n as nat, word@));
}

/// A summary such as `found 1 error, 2 warnings`, counting findings by severity.
pub fn summary_line(diagnostics: &Vec<&Diagnostic>) -> (r: String)
    ensures
        r@ == summary(findings_of(diagnostics@)),
{
    let ghost all = findings_of(diagnostics@);
    let mut errors: usize = 0;
    let mut warnings: usize = 0;
    let mut notes: usize = 0;
    let mut i: usize = 0;
    while i < diagnostics.len()
        invariant
            i <= diagnostics.len(),
            all == findings_of(diagnostics@),
            errors == count_severity(all.take(i as int), Severity::Error),
            warnings == count_severity(all.take(i as int), Severity::Warning),
            notes == count_notes(all.take(i as int)),
            errors + warnings + notes == i,
        decreases diagnostics.len() - i,
    {
        assert(all.take(i + 1).drop_last() =~= all.take(i as int));
        assert(all.take(i + 1).last() == diagnostics@[i as int]@);
        match diagnostics[i].severity {
            Severity::Error => errors += 1,
            Severity::Warning => warnings += 1,
            _ => notes += 1,
        }
        i += 1;
    }
    assert(all.take(i as int) =~= all);
    let mut parts: Vec<String> = Vec::new();
    assert(texts(parts@) =~= seq![]);
    push_part(&mut parts, errors, "error");
    push_part(&mut parts, warnings, "warning");
    push_part(&mut parts, notes, "note");
    assert(texts(parts@) =~= summary_part(errors as nat, "error"@) + summary_part(
        warnings as nat,
        "warning"@,
    ) + summary_part(notes as nat, "note"@));
    let mut out = "found ".to_owned();
    out.append(join_texts(&parts, ", ").as_str());
    out
}

/// What the findings of a rule are listed under.
pub open spec fn label(code: Option<RuleCode>) -> Seq<char> {
    match code {
        Some(code) => code.text(),
        None => "(other)"@,
    }
}

/// The number of findings that are listed under a label.
pub open spec fn count_label(findings: Seq<Finding>, text: Seq<char>) -> nat
    decreases findings.len(),
{
    if findings.len() == 0 {
        0
    } else {
        count_label(findings.drop_last(), text) + if label(findings.last().code) == text {
            1nat
        } else {
            0
        }
    }
}

/// Whether one text comes before another in the order of their characters.
pub open spec fn text_less(a: Seq<char>, b: Seq<char>) -> bool
    decreases a.len(),
{
    if b.len() == 0 {
        false
    } else if a.len() == 0 {
        true
    } else if a[0] != b[0] {
        a[0] < b[0]
    } else {
        text_less(a.skip(1), b.skip(1))
    }
}

/// Whether one row of the statistics comes before another: the more frequent first,
/// ties by label.
pub open spec fn row_before(a: (Seq<char>, nat), b: (Seq<char>, nat)) -> bool {
    a.1 > b.1 || (a.1 == b.1 && text_less(a.0, b.0))
}

/// Whether rows stand in order.
pub open spec fn ordered(rows: Seq<(Seq<char>, nat)>) -> bool {
    forall|i: int, j: int|
        0 <= i < j < rows.len() ==> row_before(#[trigger] rows[i], #[trigger] rows[j])
}

/// Whether rows count the findings that are listed under their labels, of which there are some.
pub open spec fn counted(findings: Seq<Finding>, rows: Seq<(Seq<char>, nat)>) -> bool {
    forall|i: int|
        0 <= i < rows.len() ==> (#[trigger] rows[i]).1 > 0 && rows[i].1 == count_label(
            findings,
            rows[i].0,
        )
}

/// Whether some row has a label.
pub open spec fn lists(rows: Seq<(Seq<char>, nat)>, text: Seq<char>) -> bool {
    exists|i: int| 0 <= i < rows.len() && (#[trigger] rows[i]).0 == text
}

/// Whether `rows` are the counts of the findings by label: one row for each label that
/// occurs, in order.
pub open spec fn statistics_of(findings: Seq<Finding>, rows: Seq<(Seq<char>, nat)>) -> bool {
    &&& counted(findings, rows)
    &&& forall|k: int|
        0 <= k < findings.len() ==> lists(rows, label((#[trigger] findings[k]).code))
    &&& ordered(rows)
}

/// A text filled with spaces to a width.
pub open spec fn padded(text: Seq<char>, width: nat) -> Seq<char> {
    text + Seq::new(
        if text.len() < width {
            (width - text.len()) as nat
        } else {
            0
        },
        |i: int| ' ',
    )
}

/// The line of one row of the statistics.
pub open spec fn row_line(row: (Seq<char>, nat)) -> Seq<char> {
    "  "@ + padded(row.0, 6) + " "@ + decimal(row.1)
}

/// The lines of the statistics.
pub open spec fn statistics_lines(rows: Seq<(Seq<char>, nat)>) -> Seq<Seq<char>> {
    if rows.len() == 0 {
        seq![]
    } else {
        seq!["\nfindings by rule:"@] + rows.map_values(
            |row: (Seq<char>, nat)| row_line(row),
        )
    }
}

/// No text comes before itself.
pub proof fn lemma_text_less_irreflexive(a: Seq<char>)
    ensures
        !text_less(a, a),
    decreases a.len(),
{
    if a.len() > 0 {
        lemma_text_less_irreflexive(a.skip(1));
    }
}

/// Of two texts that differ, exactly one comes before the other.
proof fn lemma_text_less_total(a: Seq<char>, b: Seq<char>)
    ensures
        a != b ==> text_less(a, b) != text_less(b, a),
        a == b ==> !text_less(a, b),
    decreases a.len(),
{
    if a == b {
        lemma_text_less_irreflexive(a);
    } else if a.len() > 0 && b.len() > 0 && a[0] == b[0] {
        if a.skip(1) == b.skip(1) {
            assert(a =~= seq![a[0]] + a.skip(1));
            assert(b =~= seq![b[0]] + b.skip(1));
        }
        lemma_text_less_total(a.skip(1), b.skip(1));
    } else if a.len() == 0 && b.len() == 0 {
        assert(a =~= b);
    }
}

proof fn lemma_text_less_transitive(a: Seq<char>, b: Seq<char>, c: Seq<char>)
    requires
        text_less(a, b),
        text_less(b, c),
    ensures
        text_less(a, c),
    decreases a.len(),
{
    if a.len() > 0 && b.len() > 0 && c.len() > 0 && a[0] == b[0] && b[0] == c[0] {
        lemma_text_less_transitive(a.skip(1), b.skip(1), c.skip(1));
    }
}

proof fn lemma_row_order(a: (Seq<char>, nat), b: (Seq<char>, nat))
    ensures
        row_before(a, b) ==> !row_before(b, a) && a != b,
        a.0 != b.0 ==> row_before(a, b) || row_before(b, a),
{
    lemma_text_less_total(a.0, b.0);
}

proof fn lemma_row_transitive(
    a: (Seq<char>, nat),
    b: (Seq<char>, nat),
    c: (Seq<char>, nat),
)
    requires
        row_before(a, b),
        row_before(b, c),
    ensures
        row_before(a, c),
{
    if a.1 == b.1 && b.1 == c.1 {
        lemma_text_less_transitive(a.0, b.0, c.0);
    }
}

proof fn lemma_counted_occurs(findings: Seq<Finding>, text: Seq<char>)
    ensures
        count_label(findings, text) > 0 <==> exists|k: int|
            0 <= k < findings.len() && label((#[trigger] findings[k]).code) == text,
    decreases findings.len(),
{
    if findings.len() > 0 {
        let earlier = findings.drop_last();
        lemma_counted_occurs(earlier, text);
        if label(findings.last().code) == text {
            assert(label(findings[findings.len() - 1].code) == text);
        }
        if exists|k: int| 0 <= k < earlier.len() && label((#[trigger] earlier[k]).code) == text {
            let k = choose|k: int|
                0 <= k < earlier.len() && label((#[trigger] earlier[k]).code) == text;
            assert(label(findings[k].code) == text);
        }
        if exists|k: int| 0 <= k < findings.len() && label((#[trigger] findings[k]).code) == text {
            let k = choose|k: int|
                0 <= k < findings.len() && label((#[trigger] findings[k]).code) == text;
            if k < findings.len() - 1 {
                assert(label(earlier[k].code) == text);
            }
        }
    }
}

proof fn lemma_row_found(
    findings: Seq<Finding>,
    rows: Seq<(Seq<char>, nat)>,
    row: (Seq<char>, nat),
) -> (i: int)
    requires
        statistics_of(findings, rows),
        row.1 > 0,
        row.1 == count_label(findings, row.0),
    ensures
        0 <= i < rows.len(),
        rows[i] == row,
{
    lemma_counted_occurs(findings, row.0);
    let k = choose|k: int|
        0 <= k < findings.len() && label((#[trigger] findings[k]).code) == row.0;
    assert(lists(rows, label(findings[k].code)));
    let i = choose|i: int| 0 <= i < rows.len() && (#[trigger] rows[i]).0 == row.0;
    assert(rows[i].1 == count_label(findings, rows[i].0));
    i
}

proof fn lemma_statistics_prefix(
    findings: Seq<Finding>,
    a: Seq<(Seq<char>, nat)>,
    b: Seq<(Seq<char>, nat)>,
    n: int,
)
    requires
        statistics_of(findings, a),
        statistics_of(findings, b),
        0 <= n <= a.len(),
    ensures
        n <= b.len(),
        forall|i: int| 0 <= i < n ==> a[i] == #[trigger] b[i],
    decreases n,
{
    if n > 0 {
        lemma_statistics_prefix(findings, a, b, n - 1);
        let last = n - 1;
        let j = lemma_row_found(findings, b, a[last]);
        if j < last {
            assert(a[j] == b[j]);
            assert(row_before(a[j], a[last]));
            lemma_row_order(a[j], a[last]);
        } else if j > last {
            let m = lemma_row_found(findings, a, b[last]);
            assert(row_before(b[last], b[j]));
            lemma_row_order(b[last], b[j]);
            if m < last {
                assert(a[m] == b[m]);
                assert(row_before(b[m], b[last]));
                lemma_row_order(b[m], b[last]);
            } else if m > last {
                assert(row_before(a[last], a[m]));
                lemma_row_order(a[last], a[m]);
            }
        }
    }
}

/// The statistics of the findings are unique.
pub proof fn statistics_unique(
    findings: Seq<Finding>,
    a: Seq<(Seq<char>, nat)>,
    b: Seq<(Seq<char>, nat)>,
)
    requires
        statistics_of(findings, a),
        statistics_of(findings, b),
    ensures
        a == b,
{
    lemma_statistics_prefix(findings, a, b, a.len() as int);
    lemma_statistics_prefix(findings, b, a, b.len() as int);
    assert(a =~= b);
}

/// What the findings of a rule are listed under.
fn label_of(code: Option<RuleCode>) -> (r: &'static str)
    ensures
        r@ == label(code),
{
    match code {
        Some(code) => code.as_str(),
        None => "(other)",
    }
}

fn count_with_label(diagnostics: &Vec<&Diagnostic>, text: &str) -> (r: usize)
    ensures
        r as nat == count_label(findings_of(diagnostics@), text@),
{
    let ghost all = findings_of(diagnostics@);
    let mut n: usize = 0;
    let mut i: usize = 0;
    while i < diagnostics.len()
        invariant
            i <= diagnostics.len(),
            n <= i,
            all == findings_of(diagnostics@),
            n as nat == count_label(all.take(i as int), text@),
        decreases diagnostics.len() - i,
    {
        assert(all.take(i + 1).drop_last() =~= all.take(i as int));
        assert(all.take(i + 1).last() == diagnostics@[i as int]@);
        if same_text(label_of(diagnostics[i].code), text) {
            n += 1;
        }
        i += 1;
    }
    assert(all.take(i as int) =~= all);
    n
}

/// Whether one text comes before another in the order of their characters.
fn is_text_less(a: &str, b: &str) -> (r: bool)
    ensures
        r == text_less(a@, b@),
{
    let x = chars_of(a);
    let y = chars_of(b);
    let mut i: usize = 0;
    assert(x@.skip(0) =~= x@ && y@.skip(0) =~= y@);
    while i < x.len() && i < y.len() && x[i] == y[i]
        invariant
            i <= x.len(),
            i <= y.len(),
            text_less(x@, y@) == text_less(x@.skip(i as int), y@.skip(i as int)),
        decreases x.len() - i,
    {
        assert(x@.skip(i as int).skip(1) =~= x@.skip(i + 1));
        assert(y@.skip(i as int).skip(1) =~= y@.skip(i + 1));
        i += 1;
    }
    if i == y.len() {
        false
    } else if i == x.len() {
        true
    } else {
        x[i] < y[i]
    }
}

/// The rows of a list, as mathematical values.
pub open spec fn rows_of(rows: Seq<(&'static str, usize)>) -> Seq<(Seq<char>, nat)> {
    rows.map_values(|row: (&'static str, usize)| (row.0@, row.1 as nat))
}

fn is_listed(rows: &Vec<(&'static str, usize)>, text: &str) -> (r: bool)
    ensures
        r == lists(rows_of(rows@), text@),
{
    let ghost shown = rows_of(rows@);
    let mut i: usize = 0;
    while i < rows.len()
        invariant
            i <= rows.len(),
            shown == rows_of(rows@),
            forall|k: int| 0 <= k < i ==> (#[trigger] shown[k]).0 != text@,
        decreases rows.len() - i,
    {
        assert(shown[i as int].0 == rows@[i as int].0@);
        if same_text(rows[i].0, text) {
            return true;
        }
        i += 1;
    }
    false
}

/// The place of a new row among rows that stand in order.
fn place_of(rows: &Vec<(&'static str, usize)>, text: &str, n: usize) -> (r: usize)
    requires
        ordered(rows_of(rows@)),
        !lists(rows_of(rows@), text@),
    ensures
        r <= rows.len(),
        ordered(rows_of(rows@).insert(r as int, (text@, n as nat))),
{
    let ghost shown = rows_of(rows@);
    let ghost row = (text@, n as nat);
    let mut at: usize = 0;
    while at < rows.len() && (rows[at].1 > n || (rows[at].1 == n && is_text_less(rows[at].0, text)))
        invariant
            at <= rows.len(),
            shown == rows_of(rows@),
            row == (text@, n as nat),
            forall|k: int| 0 <= k < at ==> row_before(#[trigger] shown[k], row),
        decreases rows.len() - at,
    {
        assert(row_before(shown[at as int], row));
        at += 1;
    }
    proof {
        let after = shown.insert(at as int, row);
        if at < rows.len() {
            assert(!row_before(shown[at as int], row));
            assert(shown[at as int].0 != row.0);
            lemma_row_order(shown[at as int], row);
        }
        assert forall|i: int, j: int| 0 <= i < j < after.len() implies row_before(
            #[trigger] after[i],
            #[trigger] after[j],
        ) by {
            if j < at {
                assert(after[i] == shown[i] && after[j] == shown[j]);
            } else if j == at {
                assert(after[i] == shown[i]);
            } else if i < at {
                assert(after[i] == shown[i] && after[j] == shown[j - 1]);
            } else if i == at {
                assert(after[j] == shown[j - 1]);
                if j - 1 > at {
                    lemma_row_transitive(row, shown[at as int], shown[j - 1]);
                }
            } else {
                assert(after[i] == shown[i - 1] && after[j] == shown[j - 1]);
            }
        }
    }
    at
}

proof fn lemma_lists_insert(
    rows: Seq<(Seq<char>, nat)>,
    at: int,
    row: (Seq<char>, nat),
    text: Seq<char>,
)
    requires
        0 <= at <= rows.len(),
    ensures
        lists(rows, text) ==> lists(rows.insert(at, row), text),
        lists(rows.insert(at, row), row.0),
{
    let after = rows.insert(at, row);
    assert(after[at] == row);
    if lists(rows, text) {
        let i = choose|i: int| 0 <= i < rows.len() && (#[trigger] rows[i]).0 == text;
        if i < at {
            assert(after[i] == rows[i]);
        } else {
            assert(after[i + 1] == rows[i]);
        }
    }
}

/// The number of findings of each rule that has any, most frequent first, ties by label.
pub fn statistics(diagnostics: &Vec<&Diagnostic>) -> (r: Vec<(&'static str, usize)>)
    ensures
        statistics_of(findings_of(diagnostics@), rows_of(r@)),
{
    let ghost all = findings_of(diagnostics@);
    let mut rows: Vec<(&'static str, usize)> = Vec::new();
    let mut i: usize = 0;
    while i < diagnostics.len()
        invariant
            i <= diagnostics.len(),
            all == findings_of(diagnostics@),
            counted(all, rows_of(rows@)),
            ordered(rows_of(rows@)),
            forall|k: int| 0 <= k < i ==> lists(rows_of(rows@), label((#[trigger] all[k]).code)),
        decreases diagnostics.len() - i,
    {
        let text = label_of(diagnostics[i].code);
        assert(label(all[i as int].code) == text@);
        if !is_listed(&rows, text) {
            let n = count_with_label(diagnostics, text);
            let at = place_of(&rows, text, n);
            let ghost before = rows_of(rows@);
            let ghost row = (text@, n as nat);
            rows.insert(at, (text, n));
            proof {
                let after = rows_of(rows@);
                assert(after =~= before.insert(at as int, row));
                lemma_counted_occurs(all, text@);
                assert forall|k: int| 0 <= k < after.len() implies (#[trigger] after[k]).1 > 0
                    && after[k].1 == count_label(all, after[k].0) by {
                    if k < at {
                        assert(after[k] == before[k]);
                    } else if k > at {
                        assert(after[k] == before[k - 1]);
                    }
                }
                assert forall|k: int| 0 <= k < i + 1 implies lists(
                    after,
                    label((#[trigger] all[k]).code),
                ) by {
                    lemma_lists_insert(before, at as int, row, label(all[k].code));
                }
            }
        }
        i += 1;
    }
    rows
}

fn pad(text: &str, width: usize) -> (r: String)
    ensures
        r@ == padded(text@, width as nat),
{
    let mut out = text.to_owned();
    let mut n: usize = text.unicode_len();
    let ghost start = text@.len();
    while n < width
        invariant
            start == text@.len(),
            start <= n,
            n <= width || n == start,
            out@ == text@ + Seq::new((n - start) as nat, |i: int| ' '),
        decreases width - n,
    {
        out.push(' ');
        n += 1;
        assert(out@ =~= text@ + Seq::new((n - start) as nat, |i: int| ' '));
    }
    assert(out@ =~= padded(text@, width as nat));
    out
}

fn row_text(text: &str, n: usize) -> (r: String)
    ensures
        r@ == row_line((text@, n as nat)),
{
    let mut out = "  ".to_owned();
    out.append(pad(text, 6).as_str());
    out.append(" ");
    out.append(to_decimal(n).as_str());
    out
}

/// The lines of a per-rule count breakdown.
pub fn print_statistics(diagnostics: &Vec<&Diagnostic>) -> (r: Vec<String>)
    ensures
        exists|rows: Seq<(Seq<char>, nat)>| #[trigger]
            statistics_of(findings_of(diagnostics@), rows) && texts(r@) == statistics_lines(rows),
{
    let rows = statistics(diagnostics);
    let ghost shown = rows_of(rows@);
    let mut lines: Vec<String> = Vec::new();
    if rows.len() == 0 {
        assert(texts(lines@) =~= statistics_lines(shown));
        return lines;
    }
    lines.push("\nfindings by rule:".to_owned());
    let ghost head = seq!["\nfindings by rule:"@];
    let mut i: usize = 0;
    assert(texts(lines@) =~= head + shown.take(0).map_values(
        |row: (Seq<char>, nat)| row_line(row),
    ));
    while i < rows.len()
        invariant
            i <= rows.len(),
            shown == rows_of(rows@),
            texts(lines@) == head + shown.take(i as int).map_values(
                |row: (Seq<char>, nat)| row_line(row),
            ),
        decreases rows.len() - i,
    {
        let ghost held = texts(lines@);
        lines.push(row_text(rows[i].0, rows[i].1));
        assert(texts(lines@) =~= held.push(row_line(shown[i as int])));
        i += 1;
        assert(texts(lines@) =~= head + shown.take(i as int).map_values(
            |row: (Seq<char>, nat)| row_line(row),
        ));
    }
    assert(shown.take(i as int) =~= shown);
    assert(texts(lines@) =~= statistics_lines(shown));
    lines
}

} // verus!
