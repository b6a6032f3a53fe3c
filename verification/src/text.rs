//! Text functions: case folding, trimming, splitting, joining, quoting and decimal
//! numerals, each over the characters of a string.

use vstd::prelude::*;
use vstd::string::StringExecFns;

verus! {

/// `String::push` appends the character.
pub assume_specification[ String::push ](s: &mut String, c: char)
    ensures
        final(s)@ == old(s)@.push(c),
;

/// The texts of a sequence of strings.
pub open spec fn texts(strings: Seq<String>) -> Seq<Seq<char>> {
    strings.map_values(|s: String| s@)
}

/// The ASCII lower-case form of a character.
pub open spec fn lower_char(c: char) -> char {
    if 'A' <= c <= 'Z' {
        (c as u32 + 32) as char
    } else {
        c
    }
}

/// A text with its ASCII letters in lower case.
pub open spec fn lower(s: Seq<char>) -> Seq<char> {
    s.map_values(|c: char| lower_char(c))
}

/// Whether a character has the Unicode property `White_Space`.
pub open spec fn white_space(c: char) -> bool {
    ||| '\u{9}' <= c <= '\u{d}'
    ||| c == ' '
    ||| c == '\u{85}'
    ||| c == '\u{a0}'
    ||| c == '\u{1680}'
    ||| '\u{2000}' <= c <= '\u{200a}'
    ||| c == '\u{2028}'
    ||| c == '\u{2029}'
    ||| c == '\u{202f}'
    ||| c == '\u{205f}'
    ||| c == '\u{3000}'
}

/// A text without its leading white space.
pub open spec fn trim_start(s: Seq<char>) -> Seq<char>
    decreases s.len(),
{
    if s.len() > 0 && white_space(s[0]) {
        trim_start(s.skip(1))
    } else {
        s
    }
}

/// A text without its trailing white space.
pub open spec fn trim_end(s: Seq<char>) -> Seq<char>
    decreases s.len(),
{
    if s.len() > 0 && white_space(s.last()) {
        trim_end(s.drop_last())
    } else {
        s
    }
}

/// A text without its leading and trailing white space.
pub open spec fn trim(s: Seq<char>) -> Seq<char> {
    trim_end(trim_start(s))
}

/// Whether `run` stands in `items` as a row.
pub open spec fn in_row<T>(items: Seq<T>, run: Seq<T>) -> bool {
    exists|at: int|
        0 <= at && at + run.len() <= items.len() && #[trigger] items.subrange(at, at + run.len())
            == run
}

/// Whether a character stands between words: white space and brackets do.
pub open spec fn separates(c: char) -> bool {
    white_space(c) || c == '(' || c == ')' || c == '[' || c == ']'
}

/// The length of the word that a text begins with.
pub open spec fn word_length(s: Seq<char>) -> nat
    decreases s.len(),
{
    if s.len() == 0 || separates(s[0]) {
        0
    } else {
        1 + word_length(s.skip(1))
    }
}

proof fn lemma_word_length(s: Seq<char>)
    ensures
        word_length(s) <= s.len(),
    decreases s.len(),
{
    if s.len() > 0 && !separates(s[0]) {
        lemma_word_length(s.skip(1));
    }
}

/// The words of a text: what stands between white space and brackets.
pub open spec fn words(s: Seq<char>) -> Seq<Seq<char>>
    decreases s.len(),
    via words_decreases
{
    if s.len() == 0 {
        seq![]
    } else if separates(s[0]) {
        words(s.skip(1))
    } else {
        seq![s.take(word_length(s) as int)] + words(s.skip(word_length(s) as int))
    }
}

#[via_fn]
proof fn words_decreases(s: Seq<char>) {
    lemma_word_length(s);
}

/// Texts with a separator between them.
pub open spec fn join(parts: Seq<Seq<char>>, separator: Seq<char>) -> Seq<char>
    decreases parts.len(),
{
    if parts.len() == 0 {
        seq![]
    } else if parts.len() == 1 {
        parts[0]
    } else {
        join(parts.drop_last(), separator) + separator + parts.last()
    }
}

/// The decimal digit of a number below ten.
pub open spec fn digit(n: nat) -> char {
    (48 + n) as char
}

/// The decimal numeral of a number.
pub open spec fn decimal(n: nat) -> Seq<char>
    decreases n,
{
    if n < 10 {
        seq![digit(n)]
    } else {
        decimal(n / 10).push(digit(n % 10))
    }
}

/// A text with each pair of double quotes written as one, from left to right.
pub open spec fn collapse_quotes(s: Seq<char>) -> Seq<char>
    decreases s.len(),
{
    if s.len() == 0 {
        seq![]
    } else if s.len() > 1 && s[0] == '"' && s[1] == '"' {
        seq!['"'] + collapse_quotes(s.skip(2))
    } else {
        seq![s[0]] + collapse_quotes(s.skip(1))
    }
}

/// A quoted identifier without the two double quotes around it.
pub open spec fn without_delimiters(s: Seq<char>) -> Seq<char> {
    let rest = if s.len() > 0 && s[0] == '"' {
        s.skip(1)
    } else {
        s
    };
    if rest.len() > 0 && rest.last() == '"' {
        rest.drop_last()
    } else {
        rest
    }
}

/// The characters of a text.
pub fn chars_of(s: &str) -> (r: Vec<char>)
    ensures
        r@ == s@,
{
    let mut out: Vec<char> = Vec::new();
    for c in iter: s.chars()
        invariant
            out@ == s@.take(iter.index() as int),
            iter.seq() == s@,
    {
        assert(s@.take(iter.index() as int).push(c) =~= s@.take(iter.index() + 1));
        out.push(c);
    }
    assert(s@.take(s@.len() as int) =~= s@);
    out
}

/// The text made of the characters `from..to`.
pub fn text_of(chars: &Vec<char>, from: usize, to: usize) -> (r: String)
    requires
        from <= to <= chars.len(),
    ensures
        r@ == chars@.subrange(from as int, to as int),
{
    let mut out = String::new();
    let mut i: usize = from;
    while i < to
        invariant
            from <= i <= to <= chars.len(),
            out@ == chars@.subrange(from as int, i as int),
        decreases to - i,
    {
        out.push(chars[i]);
        i += 1;
        assert(out@ =~= chars@.subrange(from as int, i as int));
    }
    out
}

/// Whether two texts are the same.
pub fn same_text(a: &str, b: &str) -> (r: bool)
    ensures
        r == (a@ == b@),
{
    a.to_owned() == b.to_owned()
}

/// The text with its ASCII letters in lower case.
pub fn to_lower(s: &str) -> (r: String)
    ensures
        r@ == lower(s@),
{
    let mut out = String::new();
    for c in iter: s.chars()
        invariant
            out@ == lower(s@.take(iter.index() as int)),
            iter.seq() == s@,
    {
        if 'A' <= c && c <= 'Z' {
            out.push((c as u8 + 32) as char);
        } else {
            out.push(c);
        }
        assert(out@ =~= lower(s@.take(iter.index() + 1)));
    }
    assert(s@.take(s@.len() as int) =~= s@);
    out
}

/// Whether two texts differ at most in the case of ASCII letters.
pub fn same_ignoring_case(a: &str, b: &str) -> (r: bool)
    ensures
        r == (lower(a@) == lower(b@)),
{
    to_lower(a) == to_lower(b)
}

/// Whether a character has the Unicode property `White_Space`.
pub fn is_white_space(c: char) -> (r: bool)
    ensures
        r == white_space(c),
{
    ('\u{9}' <= c && c <= '\u{d}') || c == ' ' || c == '\u{85}' || c == '\u{a0}' || c == '\u{1680}'
        || ('\u{2000}' <= c && c <= '\u{200a}') || c == '\u{2028}' || c == '\u{2029}' || c
        == '\u{202f}' || c == '\u{205f}' || c == '\u{3000}'
}

/// Whether a character stands between words.
fn is_separator(c: char) -> (r: bool)
    ensures
        r == separates(c),
{
    is_white_space(c) || c == '(' || c == ')' || c == '[' || c == ']'
}

/// The text without its leading and trailing white space.
pub fn trimmed(s: &Vec<char>) -> (r: String)
    ensures
        r@ == trim(s@),
{
    let mut from: usize = 0;
    assert(s@.skip(0) =~= s@);
    while from < s.len() && is_white_space(s[from])
        invariant
            from <= s.len(),
            trim_start(s@) == trim_start(s@.skip(from as int)),
        decreases s.len() - from,
    {
        assert(s@.skip(from as int).skip(1) =~= s@.skip(from + 1));
        from += 1;
    }
    let mut to: usize = s.len();
    let ghost started = s@.skip(from as int);
    assert(s@.subrange(from as int, to as int) =~= started);
    while from < to && is_white_space(s[to - 1])
        invariant
            from <= to <= s.len(),
            trim_end(started) == trim_end(s@.subrange(from as int, to as int)),
        decreases to - from,
    {
        assert(s@.subrange(from as int, to as int).drop_last() =~= s@.subrange(
            from as int,
            to - 1,
        ));
        to -= 1;
    }
    text_of(s, from, to)
}

/// The words of a text.
pub fn words_of(s: &Vec<char>) -> (r: Vec<String>)
    ensures
        texts(r@) == words(s@),
{
    let mut out: Vec<String> = Vec::new();
    let mut i: usize = 0;
    assert(s@.skip(0) =~= s@);
    assert(texts(out@) + words(s@) =~= words(s@));
    while i < s.len()
        invariant
            i <= s.len(),
            texts(out@) + words(s@.skip(i as int)) == words(s@),
        decreases s.len() - i,
    {
        let ghost rest = s@.skip(i as int);
        if is_separator(s[i]) {
            assert(rest.skip(1) =~= s@.skip(i + 1));
            i += 1;
        } else {
            let mut end: usize = i;
            assert(rest.skip(0) =~= rest);
            while end < s.len() && !is_separator(s[end])
                invariant
                    i <= end <= s.len(),
                    rest == s@.skip(i as int),
                    word_length(rest) == end - i + word_length(s@.skip(end as int)),
                decreases s.len() - end,
            {
                assert(s@.skip(end as int).skip(1) =~= s@.skip(end + 1));
                end += 1;
            }
            assert(end - i == word_length(rest));
            let ghost held = texts(out@);
            out.push(text_of(s, i, end));
            assert(rest.take(end - i) =~= s@.subrange(i as int, end as int));
            assert(rest.skip(end - i) =~= s@.skip(end as int));
            assert(texts(out@) =~= held.push(rest.take(end - i)));
            assert(texts(out@) + words(s@.skip(end as int)) =~= held + words(rest));
            i = end;
        }
    }
    assert(s@.skip(i as int) =~= seq![]);
    assert(texts(out@) + words(s@.skip(i as int)) =~= texts(out@));
    out
}

/// The texts of a sequence of strings, joined.
pub fn join_texts(parts: &Vec<String>, separator: &str) -> (r: String)
    ensures
        r@ == join(texts(parts@), separator@),
{
    let ghost all = texts(parts@);
    let mut out = String::new();
    let mut i: usize = 0;
    assert(out@ =~= join(all.take(0), separator@));
    while i < parts.len()
        invariant
            i <= parts.len(),
            all == texts(parts@),
            out@ == join(all.take(i as int), separator@),
        decreases parts.len() - i,
    {
        assert(all.take(i + 1).drop_last() =~= all.take(i as int));
        assert(all.take(i + 1).last() == parts@[i as int]@);
        if i > 0 {
            out.append(separator);
        }
        let ghost held = out@;
        out.append(parts[i].as_str());
        if i == 0 {
            assert(all.take(0) =~= seq![]);
            assert(out@ =~= parts@[0]@);
        }
        i += 1;
    }
    assert(all.take(i as int) =~= all);
    out
}

/// The decimal numeral of a number.
pub fn to_decimal(n: usize) -> (r: String)
    ensures
        r@ == decimal(n as nat),
    decreases n,
{
    let low: u8 = (n % 10) as u8;
    if n < 10 {
        let mut out = String::new();
        out.push((48 + low) as char);
        assert(out@ =~= seq![digit(n as nat)]);
        out
    } else {
        let mut out = to_decimal(n / 10);
        out.push((48 + low) as char);
        out
    }
}

/// The name that a quoted identifier stands for: without the two double quotes around it,
/// and with each pair of double quotes in between written as one.
pub fn unquoted(s: &str) -> (r: String)
    ensures
        r@ == collapse_quotes(without_delimiters(s@)),
{
    let chars = chars_of(s);
    let mut from: usize = 0;
    if chars.len() > 0 && chars[0] == '"' {
        from = 1;
    }
    let mut to: usize = chars.len();
    if from < to && chars[to - 1] == '"' {
        to -= 1;
    }
    assert(without_delimiters(s@) =~= s@.subrange(from as int, to as int));
    collapsed(&chars, from, to)
}

/// The characters `from..to` with each pair of double quotes written as one.
pub fn collapsed(chars: &Vec<char>, from: usize, to: usize) -> (r: String)
    requires
        from <= to <= chars.len(),
    ensures
        r@ == collapse_quotes(chars@.subrange(from as int, to as int)),
{
    let ghost all = chars@.subrange(from as int, to as int);
    let mut out = String::new();
    let mut i: usize = from;
    assert(out@ + collapse_quotes(all) =~= collapse_quotes(all));
    while i < to
        invariant
            from <= i <= to <= chars.len(),
            out@ + collapse_quotes(chars@.subrange(i as int, to as int)) == collapse_quotes(all),
        decreases to - i,
    {
        let ghost rest = chars@.subrange(i as int, to as int);
        let ghost before = out@;
        out.push(chars[i]);
        if to - i > 1 && chars[i] == '"' && chars[i + 1] == '"' {
            assert(rest.skip(2) =~= chars@.subrange(i + 2, to as int));
            i += 2;
        } else {
            assert(rest.skip(1) =~= chars@.subrange(i + 1, to as int));
            i += 1;
        }
        assert(out@ + collapse_quotes(chars@.subrange(i as int, to as int)) =~= before
            + collapse_quotes(rest));
    }
    assert(collapse_quotes(chars@.subrange(i as int, to as int)) =~= seq![]);
    assert(out@ + Seq::<char>::empty() =~= out@);
    out
}

} // verus!
