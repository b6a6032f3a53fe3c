//! Findings: their severity, rule code, message, range and suggested fixes.

use crate::syntax::TextRange;
use crate::text::digit;
use vstd::prelude::*;

verus! {

/// How serious a finding is.
#[derive(Clone, Copy, PartialEq, Eq, Structural, Debug)]
pub enum Severity {
    Error,
    Warning,
    Info,
    Hint,
}

/// The rules that findings are of: those of the migration pack, and those of other packs.
#[derive(Clone, Copy, PartialEq, Eq, Debug)]
pub enum RuleCode {
    Mg01,
    Mg02,
    Mg03,
    Mg04,
    Mg05,
    Mg06,
    Mg07,
    Mg08,
    Mg09,
    Mg10,
    Mg11,
    Mg12,
    Mg13,
    Mg14,
    Mg15,
    Mg16,
    Mg17,
    Mg18,
    Mg19,
    Mg20,
    Mg21,
    Mg22,
    Mg23,
    Mg24,
    /// A rule of another pack, by the text of its code.
    Other(&'static str),
}

/// The packs that rules belong to.
#[derive(Clone, Copy, PartialEq, Eq, Structural, Debug)]
pub enum BuiltinLintPack {
    Migration,
}

impl RuleCode {
    /// The number of a code of the migration pack: 1 for `MG01`, and so on.
    pub open spec fn number(self) -> nat {
        match self {
            RuleCode::Mg01 => 1,
            RuleCode::Mg02 => 2,
            RuleCode::Mg03 => 3,
            RuleCode::Mg04 => 4,
            RuleCode::Mg05 => 5,
            RuleCode::Mg06 => 6,
            RuleCode::Mg07 => 7,
            RuleCode::Mg08 => 8,
            RuleCode::Mg09 => 9,
            RuleCode::Mg10 => 10,
            RuleCode::Mg11 => 11,
            RuleCode::Mg12 => 12,
            RuleCode::Mg13 => 13,
            RuleCode::Mg14 => 14,
            RuleCode::Mg15 => 15,
            RuleCode::Mg16 => 16,
            RuleCode::Mg17 => 17,
            RuleCode::Mg18 => 18,
            RuleCode::Mg19 => 19,
            RuleCode::Mg20 => 20,
            RuleCode::Mg21 => 21,
            RuleCode::Mg22 => 22,
            RuleCode::Mg23 => 23,
            RuleCode::Mg24 => 24,
            RuleCode::Other(_) => 0,
        }
    }

    /// The text of a code: for the migration pack, `MG` and its number in two digits.
    pub open spec fn text(self) -> Seq<char> {
        match self {
            RuleCode::Other(text) => text@,
            _ => seq!['M', 'G', digit(self.number() / 10), digit(self.number() % 10)],
        }
    }

    /// The text of the code, such as `MG01`.
    pub fn as_str(self) -> (r: &'static str)
        ensures
            r@ == self.text(),
    {
        let r = match self {
            RuleCode::Mg01 => "MG01",
            RuleCode::Mg02 => "MG02",
            RuleCode::Mg03 => "MG03",
            RuleCode::Mg04 => "MG04",
            RuleCode::Mg05 => "MG05",
            RuleCode::Mg06 => "MG06",
            RuleCode::Mg07 => "MG07",
            RuleCode::Mg08 => "MG08",
            RuleCode::Mg09 => "MG09",
            RuleCode::Mg10 => "MG10",
            RuleCode::Mg11 => "MG11",
            RuleCode::Mg12 => "MG12",
            RuleCode::Mg13 => "MG13",
            RuleCode::Mg14 => "MG14",
            RuleCode::Mg15 => "MG15",
            RuleCode::Mg16 => "MG16",
            RuleCode::Mg17 => "MG17",
            RuleCode::Mg18 => "MG18",
            RuleCode::Mg19 => "MG19",
            RuleCode::Mg20 => "MG20",
            RuleCode::Mg21 => "MG21",
            RuleCode::Mg22 => "MG22",
            RuleCode::Mg23 => "MG23",
            RuleCode::Mg24 => "MG24",
            RuleCode::Other(text) => text,
        };
        proof {
            reveal_strlit("MG01");
            reveal_strlit("MG02");
            reveal_strlit("MG03");
            reveal_strlit("MG04");
            reveal_strlit("MG05");
            reveal_strlit("MG06");
            reveal_strlit("MG07");
            reveal_strlit("MG08");
            reveal_strlit("MG09");
            reveal_strlit("MG10");
            reveal_strlit("MG11");
            reveal_strlit("MG12");
            reveal_strlit("MG13");
            reveal_strlit("MG14");
            reveal_strlit("MG15");
            reveal_strlit("MG16");
            reveal_strlit("MG17");
            reveal_strlit("MG18");
            reveal_strlit("MG19");
            reveal_strlit("MG20");
            reveal_strlit("MG21");
            reveal_strlit("MG22");
            reveal_strlit("MG23");
            reveal_strlit("MG24");
        }
        assert(r@ =~= self.text());
        r
    }
}

/// A replacement of a range of the source by a text, as a mathematical value.
pub ghost struct EditView {
    pub range: TextRange,
    pub text: Seq<char>,
}

/// A fix as a mathematical value.
pub ghost struct FixView {
    pub title: Seq<char>,
    pub edits: Seq<EditView>,
}

/// A finding as a mathematical value.
pub ghost struct Finding {
    pub severity: Severity,
    pub code: Option<RuleCode>,
    pub message: Seq<char>,
    pub range: Option<TextRange>,
    pub fixes: Seq<FixView>,
}

/// A replacement of a range of the source by a text.
#[derive(Debug)]
pub struct TextEdit {
    pub range: TextRange,
    pub text: String,
}

/// A suggested fix: a title and the edits that make it.
#[derive(Debug)]
pub struct Fix {
    pub title: String,
    pub edits: Vec<TextEdit>,
}

/// A finding of a rule.
#[derive(Debug)]
pub struct Diagnostic {
    pub severity: Severity,
    pub code: Option<RuleCode>,
    pub message: String,
    pub range: Option<TextRange>,
    pub fixes: Vec<Fix>,
}

impl View for TextEdit {
    type V = EditView;

    open spec fn view(&self) -> EditView {
        EditView { range: self.range, text: self.text@ }
    }
}

impl View for Fix {
    type V = FixView;

    open spec fn view(&self) -> FixView {
        FixView { title: self.title@, edits: self.edits@.map_values(|e: TextEdit| e@) }
    }
}

impl View for Diagnostic {
    type V = Finding;

    open spec fn view(&self) -> Finding {
        Finding {
            severity: self.severity,
            code: self.code,
            message: self.message@,
            range: self.range,
            fixes: self.fixes@.map_values(|f: Fix| f@),
        }
    }
}

/// The finding of `code` with a message at a range, as a warning without fixes.
pub open spec fn warning_at(code: RuleCode, message: Seq<char>, range: TextRange) -> Finding {
    Finding {
        severity: Severity::Warning,
        code: Some(code),
        message,
        range: Some(range),
        fixes: seq![],
    }
}

/// A fix that makes one edit.
pub open spec fn one_edit(title: Seq<char>, range: TextRange, text: Seq<char>) -> FixView {
    FixView { title, edits: seq![EditView { range, text }] }
}

/// A finding with one more fix.
pub open spec fn with_fix(finding: Finding, fix: FixView) -> Finding {
    Finding { fixes: finding.fixes.push(fix), ..finding }
}

impl TextEdit {
    /// An edit that replaces `range` by `text`.
    pub fn replace(range: TextRange, text: &str) -> (r: TextEdit)
        ensures
            r@ == (EditView { range, text: text@ }),
    {
        TextEdit { range, text: text.to_owned() }
    }
}

impl Fix {
    /// A fix with a title and its edits.
    pub fn new(title: &str, edits: Vec<TextEdit>) -> (r: Fix)
        ensures
            r@ == (FixView { title: title@, edits: edits@.map_values(|e: TextEdit| e@) }),
    {
        Fix { title: title.to_owned(), edits }
    }
}

impl Diagnostic {
    /// A warning with a message and nothing else.
    pub fn warning(message: String) -> (r: Diagnostic)
        ensures
            r@ == (Finding {
                severity: Severity::Warning,
                code: None,
                message: message@,
                range: None,
                fixes: seq![],
            }),
    {
        let r = Diagnostic {
            severity: Severity::Warning,
            code: None,
            message,
            range: None,
            fixes: Vec::new(),
        };
        assert(r@.fixes =~= seq![]);
        r
    }

    /// The same finding, of the rule `code`.
    pub fn with_code(self, code: RuleCode) -> (r: Diagnostic)
        ensures
            r@ == (Finding { code: Some(code), ..self@ }),
    {
        Diagnostic { code: Some(code), ..self }
    }

    /// The same finding, at `range`.
    pub fn with_range(self, range: TextRange) -> (r: Diagnostic)
        ensures
            r@ == (Finding { range: Some(range), ..self@ }),
    {
        Diagnostic { range: Some(range), ..self }
    }

    /// The same finding with one more fix.
    pub fn with_fix(self, fix: Fix) -> (r: Diagnostic)
        ensures
            r@ == with_fix(self@, fix@),
    {
        let mut fixes = self.fixes;
        fixes.push(fix);
        let r = Diagnostic {
            severity: self.severity,
            code: self.code,
            message: self.message,
            range: self.range,
            fixes,
        };
        assert(r@.fixes =~= self@.fixes.push(fix@));
        r
    }
}

/// The empty range at an offset, from `text_size::TextRange::empty`: it starts and
/// ends there.
#[verifier::external_body]
fn empty_range(at: u32) -> (r: TextRange)
    ensures
        r.start == at,
        r.end == at,
{
    let range = text_size::TextRange::empty(text_size::TextSize::from(at));
    TextRange { start: u32::from(range.start()), end: u32::from(range.end()) }
}

/// A fix that inserts `text` at an offset.
pub fn insertion(title: &str, at: u32, text: &str) -> (r: Fix)
    ensures
        r@ == one_edit(title@, TextRange { start: at, end: at }, text@),
{
    replacement(title, empty_range(at), text)
}

/// A fix that replaces one range by `text`.
pub fn replacement(title: &str, range: TextRange, text: &str) -> (r: Fix)
    ensures
        r@ == one_edit(title@, range, text@),
{
    let mut edits: Vec<TextEdit> = Vec::new();
    edits.push(TextEdit::replace(range, text));
    let r = Fix::new(title, edits);
    assert(r@.edits =~= seq![EditView { range, text: text@ }]);
    r
}

/// A warning of `code` with a message at a range.
pub fn warn(code: RuleCode, message: &str, range: TextRange) -> (r: Diagnostic)
    ensures
        r@ == warning_at(code, message@, range),
{
    Diagnostic::warning(message.to_owned()).with_code(code).with_range(range)
}

} // verus!
