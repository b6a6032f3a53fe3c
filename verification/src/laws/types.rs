//! What holds of column types and of the changes between them that are safe.

use crate::diagnostic::{Finding, RuleCode, Severity};
use crate::fresh::temporary_before;
use crate::history::{column_history, file_events, type_text, EventView};
use crate::laws::texts::{
    decimal_numeral_stands_for_its_number, joined_parts_have_one_separator_between,
    lower_case_is_final, trimming_takes_white_space_at_both_ends, unbroken_text_is_one_word,
    words_are_unbroken, words_of_two_parts,
};
use crate::migration::destructive::AlterColumnType;
use crate::names::{fold, table_key};
use crate::rule::NodeRule;
use crate::syntax::{descendant_tokens, descendants, NodeClass, SyntaxNode};
use crate::text::{
    decimal, join, lower, separates, trim, trim_end, trim_start, white_space, words,
};
use crate::types::{
    all_digits, argument, base_words, modifier_start, modifiers, numeral, safe_widening,
    varchar_length,
};
use vstd::prelude::*;

verus! {

proof fn lemma_modifier_at(s: Seq<char>, n: int)
    requires
        0 <= n <= s.len(),
        forall|k: int| 0 <= k < n ==> #[trigger] s[k] != '(' && s[k] != '[',
        n < s.len() ==> s[n] == '(' || s[n] == '[',
    ensures
        modifier_start(s) == n,
    decreases s.len(),
{
    if n > 0 {
        assert(s[0] != '(' && s[0] != '[');
        assert forall|k: int| 0 <= k < n - 1 implies #[trigger] s.skip(1)[k] != '(' && s.skip(1)[k]
            != '[' by {
            assert(s.skip(1)[k] == s[k + 1]);
        }
        lemma_modifier_at(s.skip(1), n - 1);
    }
}

proof fn lemma_modifier_bounds(s: Seq<char>)
    ensures
        0 <= modifier_start(s) <= s.len(),
        forall|k: int| 0 <= k < modifier_start(s) ==> #[trigger] s[k] != '(' && s[k] != '[',
        modifier_start(s) < s.len() ==> s[modifier_start(s)] == '(' || s[modifier_start(s)] == '[',
    decreases s.len(),
{
    if s.len() > 0 && s[0] != '(' && s[0] != '[' {
        lemma_modifier_bounds(s.skip(1));
        assert forall|k: int| 0 <= k < modifier_start(s) implies #[trigger] s[k] != '(' && s[k]
            != '[' by {
            if k > 0 {
                assert(s.skip(1)[k - 1] == s[k]);
            }
        }
    }
}

proof fn lemma_lower_bracket(s: Seq<char>, k: int)
    requires
        0 <= k < s.len(),
    ensures
        lower(s)[k] == '(' <==> s[k] == '(',
        lower(s)[k] == '[' <==> s[k] == '[',
        lower(s)[k] == ')' <==> s[k] == ')',
{
}

/// The base words of a lower-case name are the name itself.
pub proof fn name_of_a_type_is_its_base(name: Seq<char>)
    requires
        name.len() > 0,
        forall|k: int|
            0 <= k < name.len() ==> ('a' <= #[trigger] name[k] <= 'z') || ('0' <= name[k] <= '9')
                || name[k] == '_',
    ensures
        base_words(name) == name,
{
    assert(lower(name) =~= name);
    assert forall|k: int| 0 <= k < name.len() implies !separates(#[trigger] name[k]) by {}
    lemma_modifier_at(name, name.len() as int);
    assert(name.take(name.len() as int) =~= name);
    unbroken_text_is_one_word(name);
    assert(join(seq![name], " "@) == name);
}

/// The case of the letters of a type text does not matter.
pub proof fn case_of_a_type_does_not_matter(a: Seq<char>, b: Seq<char>)
    requires
        lower(a) == lower(b),
    ensures
        base_words(a) == base_words(b),
        modifiers(a) == modifiers(b),
        varchar_length(a) == varchar_length(b),
{
}

/// A modifier behind a type text does not change its base words.
pub proof fn modifier_is_not_part_of_the_base(text: Seq<char>, modifier: Seq<char>)
    requires
        modifier.len() > 0,
        modifier[0] == '(' || modifier[0] == '[',
    ensures
        base_words(text + modifier) == base_words(text),
{
    let t = lower(text);
    let n = modifier_start(t);
    lemma_modifier_bounds(t);
    lower_case_is_final(text, modifier);
    lemma_lower_bracket(modifier, 0);
    let s = t + lower(modifier);
    assert forall|k: int| 0 <= k < n implies #[trigger] s[k] != '(' && s[k] != '[' by {
        assert(s[k] == t[k]);
    }
    if n < t.len() {
        assert(s[n] == t[n]);
    } else {
        assert(s[n] == lower(modifier)[0]);
    }
    lemma_modifier_at(s, n);
    assert(s.take(n) =~= t.take(n));
}

proof fn lemma_join_empty(parts: Seq<Seq<char>>)
    requires
        forall|w: int| 0 <= w < parts.len() ==> (#[trigger] parts[w]).len() > 0,
    ensures
        join(parts, " "@).len() == 0 <==> parts.len() == 0,
{
    if parts.len() > 1 {
        assert(join(parts, " "@).len() >= parts.last().len());
    } else if parts.len() == 1 {
        assert(join(parts, " "@) == parts[0]);
    }
}

/// The base words of a type of two parts with white space between them are those of the first
/// part, one blank, and those of the second. White space before and behind does not matter.
pub proof fn base_words_of_two_parts(a: Seq<char>, c: char, b: Seq<char>)
    requires
        white_space(c),
        forall|k: int| 0 <= k < a.len() ==> #[trigger] a[k] != '(' && a[k] != '[',
    ensures
        base_words(a + seq![c] + b) == if base_words(a).len() == 0 {
            base_words(b)
        } else if base_words(b).len() == 0 {
            base_words(a)
        } else {
            base_words(a) + " "@ + base_words(b)
        },
{
    let s = a + seq![c] + b;
    let la = lower(a);
    let lb = lower(b);
    let n = modifier_start(lb);
    lower_case_is_final(a + seq![c], b);
    lower_case_is_final(a, seq![c]);
    assert(lower(seq![c]) =~= seq![c]);
    assert(lower(s) =~= la + seq![c] + lb);
    lemma_modifier_bounds(lb);
    let end = a.len() + 1 + n;
    assert forall|k: int| 0 <= k < end implies #[trigger] lower(s)[k] != '(' && lower(s)[k]
        != '[' by {
        if k < a.len() {
            lemma_lower_bracket(a, k);
            assert(lower(s)[k] == la[k]);
            assert(a[k] != '(' && a[k] != '[');
        } else if k == a.len() {
            assert(lower(s)[k] == c);
        } else {
            assert(lower(s)[k] == lb[k - a.len() - 1]);
        }
    }
    if end < lower(s).len() {
        assert(lower(s)[end] == lb[n]);
    }
    lemma_modifier_at(lower(s), end);
    assert(lower(s).take(end) =~= la + seq![c] + lb.take(n));
    words_of_two_parts(la, c, lb.take(n));
    assert forall|k: int| 0 <= k < la.len() implies #[trigger] la[k] != '(' && la[k] != '[' by {
        lemma_lower_bracket(a, k);
        assert(a[k] != '(' && a[k] != '[');
    }
    lemma_modifier_at(la, la.len() as int);
    assert(la.take(la.len() as int) =~= la);
    words_are_unbroken(la);
    words_are_unbroken(lb.take(n));
    lemma_join_empty(words(la));
    lemma_join_empty(words(lb.take(n)));
    joined_parts_have_one_separator_between(words(la), words(lb.take(n)), " "@);
    if words(la).len() == 0 {
        assert(words(la) + words(lb.take(n)) =~= words(lb.take(n)));
    }
    if words(lb.take(n)).len() == 0 {
        assert(words(la) + words(lb.take(n)) =~= words(la));
    }
}

proof fn lemma_trim_keeps(s: Seq<char>, k: int)
    requires
        0 <= k < s.len(),
        !white_space(s[k]),
    ensures
        trim(s).contains(s[k]),
    decreases s.len(),
{
    if white_space(s[0]) {
        assert(s.skip(1)[k - 1] == s[k]);
        lemma_trim_keeps(s.skip(1), k - 1);
        assert(trim_start(s) == trim_start(s.skip(1)));
    } else {
        lemma_trim_end_keeps(s, k);
    }
}

proof fn lemma_trim_end_keeps(s: Seq<char>, k: int)
    requires
        0 <= k < s.len(),
        !white_space(s[k]),
    ensures
        trim_end(s).contains(s[k]),
    decreases s.len(),
{
    if white_space(s.last()) {
        assert(s.drop_last()[k] == s[k]);
        lemma_trim_end_keeps(s.drop_last(), k);
    } else {
        assert(trim_end(s)[k] == s[k]);
    }
}

proof fn lemma_trim_empty(s: Seq<char>)
    requires
        s.len() == 0,
    ensures
        trim(s).len() == 0,
{
}

/// A type has no modifiers exactly if no bracket opens in it.
pub proof fn modifiers_begin_with_a_bracket(text: Seq<char>)
    ensures
        modifiers(text).len() == 0 <==> forall|k: int|
            0 <= k < text.len() ==> #[trigger] text[k] != '(' && text[k] != '[',
{
    let t = lower(text);
    let n = modifier_start(t);
    lemma_modifier_bounds(t);
    if n < t.len() {
        lemma_lower_bracket(text, n);
        assert(t.skip(n)[0] == t[n]);
        lemma_trim_keeps(t.skip(n), 0);
        assert(!(text[n] != '(' && text[n] != '['));
    } else {
        lemma_trim_empty(t.skip(n));
        assert forall|k: int| 0 <= k < text.len() implies #[trigger] text[k] != '(' && text[k]
            != '[' by {
            lemma_lower_bracket(text, k);
            assert(t[k] != '(' && t[k] != '[');
        }
    }
}

/// A type change is a safe widening exactly between these types, in any case of their letters
/// and with any white space between and around their words: from `int`, `integer` or `int4` to
/// `bigint` or `int8`, from `real` or `float4` to `double precision` or `float8`, each without
/// modifiers, and from `varchar(n)` to `text` without modifiers or to `varchar(m)` where `m` is at
/// least `n`. A change from any other type, or to any other type, is none.
pub proof fn safe_widenings_are_these(from: Seq<char>, to: Seq<char>)
    ensures
        safe_widening(from, to) <==> {
            let bare_from = forall|k: int|
                0 <= k < from.len() ==> #[trigger] from[k] != '(' && from[k] != '[';
            let bare_to = forall|k: int|
                0 <= k < to.len() ==> #[trigger] to[k] != '(' && to[k] != '[';
            ||| bare_from && bare_to && (base_words(from) == "int"@ || base_words(from)
                == "integer"@ || base_words(from) == "int4"@) && (base_words(to) == "bigint"@
                || base_words(to) == "int8"@)
            ||| bare_from && bare_to && (base_words(from) == "real"@ || base_words(from)
                == "float4"@) && (base_words(to) == "double precision"@ || base_words(to)
                == "float8"@)
            ||| varchar_length(from) is Some && bare_to && base_words(to) == "text"@
            ||| varchar_length(from) is Some && varchar_length(to) is Some && varchar_length(to)->0
                >= varchar_length(from)->0
        },
{
    modifiers_begin_with_a_bracket(from);
    modifiers_begin_with_a_bracket(to);
}

/// A value of a column: a whole number, a binary fraction, or a text by its length.
pub ghost enum ColumnValue {
    Whole(int),
    Fraction { significand: int, exponent: int },
    Chars(nat),
}

/// Whether a column of a type can hold a value, for the types between which there are safe
/// widenings.
pub open spec fn holds(text: Seq<char>, value: ColumnValue) -> bool {
    let bare = forall|k: int| 0 <= k < text.len() ==> #[trigger] text[k] != '(' && text[k] != '[';
    let base = base_words(text);
    match value {
        ColumnValue::Whole(n) => {
            ||| bare && (base == "int"@ || base == "integer"@ || base == "int4"@)
                && -0x8000_0000 <= n < 0x8000_0000
            ||| bare && (base == "bigint"@ || base == "int8"@) && -0x8000_0000_0000_0000 <= n
                < 0x8000_0000_0000_0000
        },
        ColumnValue::Fraction { significand, exponent } => {
            ||| bare && (base == "real"@ || base == "float4"@) && -0x100_0000 < significand
                < 0x100_0000 && -149 <= exponent <= 104
            ||| bare && (base == "double precision"@ || base == "float8"@) && -0x20_0000_0000_0000
                < significand < 0x20_0000_0000_0000 && -1074 <= exponent <= 971
        },
        ColumnValue::Chars(n) => {
            ||| varchar_length(text) matches Some(limit) && n <= limit
            ||| bare && base == "text"@
        },
    }
}

proof fn lemma_bases_differ()
    ensures
        "int"@ != "text"@,
        "integer"@ != "text"@,
        "int4"@ != "text"@,
        "real"@ != "text"@,
        "float4"@ != "text"@,
        "int"@ != "real"@,
        "int"@ != "float4"@,
        "integer"@ != "real"@,
        "integer"@ != "float4"@,
        "int4"@ != "real"@,
        "int4"@ != "float4"@,
        "int"@ != "double precision"@,
        "int"@ != "float8"@,
        "integer"@ != "double precision"@,
        "integer"@ != "float8"@,
        "int4"@ != "double precision"@,
        "int4"@ != "float8"@,
        "real"@ != "bigint"@,
        "real"@ != "int8"@,
        "float4"@ != "bigint"@,
        "float4"@ != "int8"@,
{
    reveal_strlit("int");
    reveal_strlit("integer");
    reveal_strlit("int4");
    reveal_strlit("bigint");
    reveal_strlit("int8");
    reveal_strlit("real");
    reveal_strlit("float4");
    reveal_strlit("double precision");
    reveal_strlit("float8");
    reveal_strlit("text");
    assert("int"@.len() == 3);
    assert("integer"@.len() == 7);
    assert("int4"@.len() == 4);
    assert("bigint"@.len() == 6);
    assert("int8"@.len() == 4);
    assert("real"@.len() == 4);
    assert("float4"@.len() == 6);
    assert("double precision"@.len() == 16);
    assert("float8"@.len() == 6);
    assert("text"@.len() == 4);
    assert("int4"@[0] != "text"@[0]);
    assert("real"@[0] != "text"@[0]);
    assert("int4"@[0] != "real"@[0]);
    assert("real"@[0] != "int8"@[0]);
    assert("float4"@[0] != "bigint"@[0]);
    assert("float4"@[0] != "int8"@[0]);
}

/// A safe widening keeps every value: what a column of the old type can hold, one of the new type
/// can hold too. Nothing is a safe widening from a type of which no values are known.
pub proof fn safe_widening_keeps_every_value(from: Seq<char>, to: Seq<char>, value: ColumnValue)
    requires
        safe_widening(from, to),
    ensures
        holds(from, value) ==> holds(to, value),
        holds(from, ColumnValue::Whole(0)) || holds(
            from,
            (ColumnValue::Fraction { significand: 0, exponent: 0 }),
        ) || holds(from, ColumnValue::Chars(0)),
{
    safe_widenings_are_these(from, to);
    modifiers_begin_with_a_bracket(from);
    lemma_bases_differ();
    lemma_limit_has_a_bracket(from);
}

proof fn lemma_limit_has_a_bracket(text: Seq<char>)
    ensures
        varchar_length(text) is Some ==> modifiers(text).len() > 0 && base_words(text) != "int"@
            && base_words(text) != "integer"@ && base_words(text) != "int4"@ && base_words(text)
            != "real"@ && base_words(text) != "float4"@,
{
    reveal_strlit("varchar");
    reveal_strlit("character varying");
    reveal_strlit("int");
    reveal_strlit("integer");
    reveal_strlit("int4");
    reveal_strlit("real");
    reveal_strlit("float4");
    assert("varchar"@.len() == 7);
    assert("character varying"@.len() == 17);
    assert("int"@.len() == 3);
    assert("integer"@.len() == 7);
    assert("int4"@.len() == 4);
    assert("real"@.len() == 4);
    assert("float4"@.len() == 6);
    assert("varchar"@[0] != "integer"@[0]);
}

proof fn lemma_digits_trim(s: Seq<char>)
    requires
        all_digits(s),
    ensures
        trim(s) == s,
{
    if s.len() > 0 {
        assert('0' <= s[0] <= '9');
        assert('0' <= s[s.len() - 1] <= '9');
    }
}

proof fn lemma_argument(name: Seq<char>, inner: Seq<char>)
    requires
        forall|k: int| 0 <= k < name.len() ==> #[trigger] name[k] != '(' && name[k] != '[',
    ensures
        base_words(name + seq!['('] + inner + seq![')']) == base_words(name),
        argument(modifiers(name + seq!['('] + inner + seq![')'])) == Some(trim(lower(inner))),
{
    let modifier = seq!['('] + inner + seq![')'];
    let text = name + modifier;
    assert(name + seq!['('] + inner + seq![')'] =~= text);
    modifier_is_not_part_of_the_base(name, modifier);
    lower_case_is_final(name, modifier);
    let m = lower(modifier);
    assert(m =~= seq!['('] + lower(inner) + seq![')']);
    assert forall|k: int| 0 <= k < name.len() implies #[trigger] lower(text)[k] != '(' && lower(
        text,
    )[k] != '[' by {
        assert(text[k] == name[k]);
        lemma_lower_bracket(text, k);
    }
    assert(lower(text)[name.len() as int] == m[0]);
    lemma_modifier_at(lower(text), name.len() as int);
    assert(lower(text).skip(name.len() as int) =~= m);
    assert(m[0] == '(' && m.last() == ')');
    assert(trim_start(m) == m && trim_end(m) == m);
    assert(m.subrange(1, m.len() - 1) =~= lower(inner));
}

/// White space behind a type does not matter.
pub proof fn white_space_behind_a_type_does_not_matter(text: Seq<char>, c: char)
    requires
        white_space(c),
    ensures
        base_words(text.push(c)) == base_words(text),
        modifiers(text.push(c)) == modifiers(text),
        varchar_length(text.push(c)) == varchar_length(text),
{
    let t = lower(text);
    let n = modifier_start(t);
    lemma_modifier_bounds(t);
    assert(lower(text.push(c)) =~= t.push(c));
    assert forall|k: int| 0 <= k < n implies #[trigger] t.push(c)[k] != '(' && t.push(c)[k]
        != '[' by {
        assert(t.push(c)[k] == t[k]);
    }
    if n < t.len() {
        assert(t.push(c)[n] == t[n]);
        lemma_modifier_at(t.push(c), n);
        assert(t.push(c).take(n) =~= t.take(n));
        assert(t.push(c).skip(n) =~= t.skip(n).push(c));
        trimming_takes_white_space_at_both_ends(t.skip(n), c);
    } else {
        assert forall|k: int| 0 <= k < n + 1 implies #[trigger] t.push(c)[k] != '(' && t.push(c)[k]
            != '[' by {
            if k < n {
                assert(t.push(c)[k] == t[k]);
            }
        }
        lemma_modifier_at(t.push(c), n + 1);
        assert(t.push(c).take(n + 1) =~= t + seq![c] + Seq::<char>::empty());
        assert(t.take(n) =~= t);
        words_of_two_parts(t, c, seq![]);
        assert(words(Seq::<char>::empty()) =~= seq![]);
        assert(words(t) + words(Seq::<char>::empty()) =~= words(t));
        assert(t.push(c).skip(n + 1) =~= seq![]);
        assert(t.skip(n) =~= seq![]);
    }
}

/// A `varchar` or `character varying` with a numeral between round brackets, and nothing else but
/// white space there, has the number of the numeral for its length limit, up to the largest one
/// that there is. With anything else between the brackets, or behind them, it has none, and it
/// has none without brackets.
pub proof fn varchar_limit_is_the_number_in_brackets(
    name: Seq<char>,
    inner: Seq<char>,
    digits: Seq<char>,
    tail: Seq<char>,
)
    requires
        base_words(name) == "varchar"@ || base_words(name) == "character varying"@,
        forall|k: int| 0 <= k < name.len() ==> #[trigger] name[k] != '(' && name[k] != '[',
    ensures
        trim(inner) == digits && digits.len() > 0 && (forall|k: int|
            0 <= k < digits.len() ==> '0' <= #[trigger] digits[k] <= '9') ==> varchar_length(
            name + seq!['('] + inner + seq![')'],
        ) == if numeral(digits) <= 10_485_760 {
            Some(numeral(digits))
        } else {
            None
        },
        (exists|k: int|
            0 <= k < inner.len() && !('0' <= #[trigger] inner[k] <= '9') && !white_space(inner[k]))
            ==> varchar_length(name + seq!['('] + inner + seq![')']) is None,
        trim(inner).len() == 0 ==> varchar_length(name + seq!['('] + inner + seq![')']) is None,
        tail.len() > 0 && !white_space(tail.last()) && tail.last() != ')' ==> varchar_length(
            name + seq!['('] + inner + tail,
        ) is None,
        varchar_length(name) is None,
{
    lemma_argument(name, inner);
    lemma_trim_lower(inner);
    let l = lower(inner);
    if trim(inner) == digits && all_digits(digits) {
        assert(lower(digits) =~= digits);
    }
    if exists|k: int|
        0 <= k < inner.len() && !('0' <= #[trigger] inner[k] <= '9') && !white_space(inner[k]) {
        let k = choose|k: int|
            0 <= k < inner.len() && !('0' <= #[trigger] inner[k] <= '9') && !white_space(inner[k]);
        assert(!white_space(l[k]) && !('0' <= l[k] <= '9'));
        lemma_trim_keeps(l, k);
        let m = choose|m: int| 0 <= m < trim(l).len() && trim(l)[m] == l[k];
        assert(!('0' <= trim(l)[m] <= '9'));
    }
    if tail.len() > 0 && !white_space(tail.last()) && tail.last() != ')' {
        let modifier = seq!['('] + inner + tail;
        let text = name + modifier;
        assert(name + seq!['('] + inner + tail =~= text);
        lower_case_is_final(name, modifier);
        let m = lower(modifier);
        assert forall|k: int| 0 <= k < name.len() implies #[trigger] lower(text)[k] != '('
            && lower(text)[k] != '[' by {
            assert(text[k] == name[k]);
            lemma_lower_bracket(text, k);
        }
        assert(lower(text)[name.len() as int] == m[0]);
        lemma_modifier_at(lower(text), name.len() as int);
        assert(lower(text).skip(name.len() as int) =~= m);
        assert(modifier.last() == tail.last());
        lemma_lower_bracket(modifier, modifier.len() - 1);
        assert(m[0] == '(');
        assert(!white_space(m.last()));
        assert(trim_start(m) == m && trim_end(m) == m);
    }
    modifiers_begin_with_a_bracket(name);
}

proof fn lemma_trim_lower(s: Seq<char>)
    ensures
        trim(lower(s)) == lower(trim(s)),
    decreases s.len(),
{
    if s.len() > 0 && white_space(s[0]) {
        assert(lower(s)[0] == s[0]);
        assert(lower(s).skip(1) =~= lower(s.skip(1)));
        lemma_trim_lower(s.skip(1));
    } else {
        assert(s.len() > 0 ==> !white_space(lower(s)[0]));
        assert(trim_start(lower(s)) == lower(s));
        lemma_trim_end_lower(s);
    }
}

proof fn lemma_trim_end_lower(s: Seq<char>)
    ensures
        trim_end(lower(s)) == lower(trim_end(s)),
    decreases s.len(),
{
    if s.len() > 0 {
        assert(lower(s).last() == lower(s)[s.len() - 1]);
        if white_space(s.last()) {
            assert(lower(s).drop_last() =~= lower(s.drop_last()));
            lemma_trim_end_lower(s.drop_last());
        } else {
            assert(!white_space(lower(s).last()));
        }
    }
}

/// The length limit that is written as the numeral of a number is that number.
pub proof fn varchar_limit_is_the_number_written(name: Seq<char>, n: nat)
    requires
        base_words(name) == "varchar"@ || base_words(name) == "character varying"@,
        forall|k: int| 0 <= k < name.len() ==> #[trigger] name[k] != '(' && name[k] != '[',
        n <= 10_485_760,
    ensures
        varchar_length(name + seq!['('] + decimal(n) + seq![')']) == Some(n),
{
    decimal_numeral_stands_for_its_number(n);
    lemma_digits_trim(decimal(n));
    varchar_limit_is_the_number_in_brackets(name, decimal(n), decimal(n), seq![]);
}

/// Only a `varchar` or `character varying` has a length limit, and one that is at most the
/// largest one that there is.
pub proof fn only_varchar_has_a_limit(text: Seq<char>)
    requires
        varchar_length(text) is Some,
    ensures
        base_words(text) == "varchar"@ || base_words(text) == "character varying"@,
        varchar_length(text)->0 <= 10_485_760,
        argument(modifiers(text)) is Some,
        varchar_length(text)->0 == numeral(argument(modifiers(text))->0),
{
}

/// A type change that is not flagged has a declared type for which it is safe: the history of the
/// column, from the migration set or, for a temporary table of the file, from the file, is
/// exactly one declaration and the change itself, the change has no word `USING`, and the
/// declared type and the new type are one of the pairs of types between which every value is
/// kept. The change of a column with any other declared type is flagged.
pub proof fn type_change_that_is_not_flagged_is_safe(
    root: SyntaxNode,
    columns: Seq<EventView>,
    i: int,
) -> (from: Seq<char>)
    requires
        0 <= i < descendants(root).len(),
        descendants(root)[i].class matches NodeClass::AlterTableAction { changes_type: true, .. },
        AlterColumnType.found_at(root, columns, i).len() == 0,
    ensures
        descendants(root)[i].class matches NodeClass::AlterTableAction {
            table: Some(table),
            column: Some(column),
            ..
        } && {
            let events = if temporary_before(descendants(root), i, table_key(table)) {
                file_events(descendants(root), true)
            } else {
                columns
            };
            let history = column_history(events, table_key(table), fold(column@));
            &&& history.len() == 2
            &&& history[0] is Declared && history[0]->Declared_table == table_key(table)
                && history[0]->Declared_ty == from
            &&& history[1] is Retyped && history[1]->Retyped_table == table_key(table)
                && history[1]->Retyped_ty == type_text(descendants(root)[i])
        },
        forall|t: int|
            0 <= t < descendant_tokens(descendants(root)[i]).len() ==> !((
            #[trigger] descendant_tokens(descendants(root)[i])[t]).kind is UsingKw),
        ({
            let to = type_text(descendants(root)[i]);
            let bare_from = forall|k: int|
                0 <= k < from.len() ==> #[trigger] from[k] != '(' && from[k] != '[';
            let bare_to = forall|k: int|
                0 <= k < to.len() ==> #[trigger] to[k] != '(' && to[k] != '[';
            ||| bare_from && bare_to && (base_words(from) == "int"@ || base_words(from)
                == "integer"@ || base_words(from) == "int4"@) && (base_words(to) == "bigint"@
                || base_words(to) == "int8"@)
            ||| bare_from && bare_to && (base_words(from) == "real"@ || base_words(from)
                == "float4"@) && (base_words(to) == "double precision"@ || base_words(to)
                == "float8"@)
            ||| varchar_length(from) is Some && bare_to && base_words(to) == "text"@
            ||| varchar_length(from) is Some && varchar_length(to) is Some && varchar_length(to)->0
                >= varchar_length(from)->0
        }),
{
    let nodes = descendants(root);
    match nodes[i].class {
        NodeClass::AlterTableAction { table: Some(table), column: Some(column), .. } => {
            let events = if temporary_before(nodes, i, table_key(table)) {
                file_events(nodes, true)
            } else {
                columns
            };
            let history = column_history(events, table_key(table), fold(column@));
            let from = history[0]->Declared_ty;
            safe_widenings_are_these(from, type_text(nodes[i]));
            from
        },
        _ => seq![],
    }
}

/// A type change is not flagged if the history of the column is exactly one declaration and the
/// change itself, both under the name of the altered table, the change has no word `USING` and is
/// a safe widening of the declared type. Any other one is flagged, once and at itself.
pub proof fn safe_type_change_is_not_flagged(
    root: SyntaxNode,
    columns: Seq<EventView>,
    i: int,
    events: Seq<EventView>,
)
    requires
        0 <= i < descendants(root).len(),
        descendants(root)[i].class matches NodeClass::AlterTableAction {
            table: Some(table),
            column: Some(column),
            changes_type: true,
            ..
        } && events == if temporary_before(descendants(root), i, table_key(table)) {
            file_events(descendants(root), true)
        } else {
            columns
        },
    ensures
        ({
            let table = table_key(descendants(root)[i].class->AlterTableAction_table->0);
            let column = fold(descendants(root)[i].class->AlterTableAction_column->0@);
            let to = type_text(descendants(root)[i]);
            let history = column_history(events, table, column);
            let safe = history.len() == 2 && history[0] is Declared && history[0]->Declared_table
                == table && safe_widening(history[0]->Declared_ty, to) && history[1] is Retyped
                && history[1]->Retyped_table == table && history[1]->Retyped_ty == to && forall|
                t: int,
            |
                0 <= t < descendant_tokens(descendants(root)[i]).len() ==> !((
                #[trigger] descendant_tokens(descendants(root)[i])[t]).kind is UsingKw);
            AlterColumnType.found_at(root, columns, i) == if safe {
                seq![]
            } else {
                seq![
                    (Finding {
                        severity: Severity::Warning,
                        code: Some(RuleCode::Mg06),
                        message: "ALTER COLUMN TYPE rewrites the table under an exclusive lock"@,
                        range: Some(descendants(root)[i].range),
                        fixes: seq![],
                    }),
                ]
            }
        }),
{
}

/// A type change without a table or a column is flagged, once and at itself.
pub proof fn type_change_of_no_known_column_is_flagged(
    root: SyntaxNode,
    columns: Seq<EventView>,
    i: int,
)
    requires
        0 <= i < descendants(root).len(),
        descendants(root)[i].class matches NodeClass::AlterTableAction {
            table,
            column,
            changes_type: true,
            ..
        } && (table is None || column is None),
    ensures
        AlterColumnType.found_at(root, columns, i) == seq![
            (Finding {
                severity: Severity::Warning,
                code: Some(RuleCode::Mg06),
                message: "ALTER COLUMN TYPE rewrites the table under an exclusive lock"@,
                range: Some(descendants(root)[i].range),
                fixes: seq![],
            }),
        ],
{
}

} // verus!
