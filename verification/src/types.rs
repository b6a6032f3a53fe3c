//! Column types: the base type of a type text, and the type changes that are
//! provably safe.

use crate::text::{
    chars_of, join, join_texts, lower, same_text, text_of, to_lower, trim, trimmed, words, words_of,
};
use vstd::prelude::*;

verus! {

/// The largest length that Postgres accepts for a `varchar`.
pub const MAX_VARCHAR_LENGTH: u64 = 10_485_760;

/// The offset of the first modifier of a type, `(…)` or `[…]`, or the length of the
/// text if it has none.
pub open spec fn modifier_start(s: Seq<char>) -> int
    decreases s.len(),
{
    if s.len() == 0 || s[0] == '(' || s[0] == '[' {
        0
    } else {
        1 + modifier_start(s.skip(1))
    }
}

/// The words of a type in lower case, without any modifier and with one blank between them.
pub open spec fn base_words(text: Seq<char>) -> Seq<char> {
    join(words(lower(text).take(modifier_start(lower(text)))), " "@)
}

/// The modifiers of a type in lower case.
pub open spec fn modifiers(text: Seq<char>) -> Seq<char> {
    trim(lower(text).skip(modifier_start(lower(text))))
}

/// Whether a text is made of decimal digits.
pub open spec fn all_digits(s: Seq<char>) -> bool {
    forall|i: int| 0 <= i < s.len() ==> '0' <= #[trigger] s[i] <= '9'
}

/// The number that a decimal numeral stands for.
pub open spec fn numeral(s: Seq<char>) -> nat
    decreases s.len(),
{
    if s.len() == 0 {
        0
    } else {
        (numeral(s.drop_last()) * 10 + (s.last() as u32 - 48)) as nat
    }
}

/// What stands between the parentheses of a modifier `(…)`.
pub open spec fn argument(modifier: Seq<char>) -> Option<Seq<char>> {
    if modifier.len() >= 2 && modifier[0] == '(' && modifier.last() == ')' {
        Some(trim(modifier.subrange(1, modifier.len() - 1)))
    } else {
        None
    }
}

/// The number `n` of a type `varchar(n)`.
pub open spec fn varchar_length(text: Seq<char>) -> Option<nat> {
    if base_words(text) == "varchar"@ || base_words(text) == "character varying"@ {
        match argument(modifiers(text)) {
            Some(inner) => if inner.len() > 0 && all_digits(inner) && numeral(inner)
                <= MAX_VARCHAR_LENGTH {
                Some(numeral(inner))
            } else {
                None
            },
            None => None,
        }
    } else {
        None
    }
}

/// Whether a type is one of the plain types named, without modifiers.
pub open spec fn plain_type(text: Seq<char>, name: Seq<char>) -> bool {
    base_words(text) == name && modifiers(text).len() == 0
}

pub open spec fn is_int(text: Seq<char>) -> bool {
    plain_type(text, "int"@) || plain_type(text, "integer"@) || plain_type(text, "int4"@)
}

pub open spec fn is_bigint(text: Seq<char>) -> bool {
    plain_type(text, "bigint"@) || plain_type(text, "int8"@)
}

pub open spec fn is_real(text: Seq<char>) -> bool {
    plain_type(text, "real"@) || plain_type(text, "float4"@)
}

pub open spec fn is_double(text: Seq<char>) -> bool {
    plain_type(text, "double precision"@) || plain_type(text, "float8"@)
}

/// Whether every value of the type `from` is kept by a change to the type `to`:
/// `int` to `bigint`, `real` to `double precision`, `varchar(n)` to `text`, and
/// `varchar(n)` to `varchar(m)` with `m >= n`.
pub open spec fn safe_widening(from: Seq<char>, to: Seq<char>) -> bool {
    ||| is_int(from) && is_bigint(to)
    ||| is_real(from) && is_double(to)
    ||| (varchar_length(from) matches Some(n) && (plain_type(to, "text"@) || (varchar_length(
        to,
    ) matches Some(m) && m >= n)))
}

proof fn lemma_numeral_prefix(s: Seq<char>, n: int)
    requires
        all_digits(s),
        0 <= n <= s.len(),
    ensures
        numeral(s.take(n)) <= numeral(s),
    decreases s.len(),
{
    if n < s.len() {
        assert('0' <= s[s.len() - 1] <= '9');
        lemma_numeral_prefix(s.drop_last(), n);
        assert(s.drop_last().take(n) =~= s.take(n));
    } else {
        assert(s.take(n) =~= s);
    }
}

/// The offset of the first modifier.
fn find_modifier(s: &Vec<char>) -> (r: usize)
    ensures
        r as int == modifier_start(s@),
        r <= s.len(),
{
    let mut i: usize = 0;
    assert(s@.skip(0) =~= s@);
    while i < s.len() && s[i] != '(' && s[i] != '['
        invariant
            i <= s.len(),
            modifier_start(s@) == i + modifier_start(s@.skip(i as int)),
        decreases s.len() - i,
    {
        assert(s@.skip(i as int).skip(1) =~= s@.skip(i + 1));
        i += 1;
    }
    i
}

/// The base type words of a column type, in lower case, without any modifier and with one
/// blank between them: `varchar` for `varchar(255)`.
pub fn base_type(text: &str) -> (r: String)
    ensures
        r@ == base_words(text@),
{
    let chars = chars_of(to_lower(text).as_str());
    let cut = find_modifier(&chars);
    let head = chars_of(text_of(&chars, 0, cut).as_str());
    assert(head@ =~= lower(text@).take(cut as int));
    join_texts(&words_of(&head), " ")
}

/// The modifiers of a column type, in lower case: `(255)` for `varchar(255)`.
fn modifiers_of(text: &str) -> (r: String)
    ensures
        r@ == modifiers(text@),
{
    let chars = chars_of(to_lower(text).as_str());
    let cut = find_modifier(&chars);
    let tail = chars_of(text_of(&chars, cut, chars.len()).as_str());
    assert(tail@ =~= lower(text@).skip(cut as int));
    trimmed(&tail)
}

/// The number that a text of digits stands for, if it is at most
/// `MAX_VARCHAR_LENGTH`.
fn parse_length(s: &Vec<char>) -> (r: Option<u64>)
    ensures
        match r {
            Some(n) => s.len() > 0 && all_digits(s@) && n as nat == numeral(s@) && n
                <= MAX_VARCHAR_LENGTH,
            None => s.len() == 0 || !all_digits(s@) || numeral(s@) > MAX_VARCHAR_LENGTH,
        },
{
    if s.len() == 0 {
        return None;
    }
    let mut i: usize = 0;
    while i < s.len()
        invariant
            i <= s.len(),
            forall|k: int| 0 <= k < i ==> '0' <= #[trigger] s@[k] <= '9',
        decreases s.len() - i,
    {
        if s[i] < '0' || s[i] > '9' {
            assert(!('0' <= s@[i as int] <= '9'));
            return None;
        }
        i += 1;
    }
    let mut value: u64 = 0;
    let mut k: usize = 0;
    while k < s.len()
        invariant
            k <= s.len(),
            all_digits(s@),
            value as nat == numeral(s@.take(k as int)),
            value <= MAX_VARCHAR_LENGTH,
        decreases s.len() - k,
    {
        let c = s[k];
        assert('0' <= s@[k as int] <= '9');
        assert(s@.take(k + 1).drop_last() =~= s@.take(k as int));
        value = value * 10 + (c as u64 - 48);
        k += 1;
        if value > MAX_VARCHAR_LENGTH {
            proof {
                lemma_numeral_prefix(s@, k as int);
            }
            return None;
        }
    }
    assert(s@.take(k as int) =~= s@);
    Some(value)
}

/// The number `n` of a type `varchar(n)`.
pub fn varchar_length_of(text: &str) -> (r: Option<u64>)
    ensures
        match r {
            Some(n) => varchar_length(text@) == Some(n as nat),
            None => varchar_length(text@) is None,
        },
{
    let base = base_type(text);
    if !same_text(base.as_str(), "varchar") && !same_text(base.as_str(), "character varying") {
        return None;
    }
    let modifier = chars_of(modifiers_of(text).as_str());
    if modifier.len() < 2 || modifier[0] != '(' || modifier[modifier.len() - 1] != ')' {
        return None;
    }
    let inner = chars_of(text_of(&modifier, 1, modifier.len() - 1).as_str());
    let number = chars_of(trimmed(&inner).as_str());
    parse_length(&number)
}

/// Whether a type is the plain type named, without modifiers.
fn is_plain(text: &str, name: &str) -> (r: bool)
    ensures
        r == plain_type(text@, name@),
{
    same_text(base_type(text).as_str(), name) && modifiers_of(text).as_str().is_empty()
}

/// Whether a change from one column type to another is provably a safe widening.
pub fn is_safe_widening(from: &str, to: &str) -> (r: bool)
    ensures
        r == safe_widening(from@, to@),
{
    if (is_plain(from, "int") || is_plain(from, "integer") || is_plain(from, "int4")) && (is_plain(
        to,
        "bigint",
    ) || is_plain(to, "int8")) {
        return true;
    }
    if (is_plain(from, "real") || is_plain(from, "float4")) && (is_plain(to, "double precision")
        || is_plain(to, "float8")) {
        return true;
    }
    match varchar_length_of(from) {
        None => false,
        Some(n) => is_plain(to, "text") || match varchar_length_of(to) {
            Some(m) => m >= n,
            None => false,
        },
    }
}

} // verus!
