//! What holds of texts: of letter case, words, numerals and quotes.

use crate::text::{
    collapse_quotes, decimal, digit, join, lower, separates, trim, trim_end, trim_start,
    white_space, without_delimiters, word_length, words,
};
use crate::types::numeral;
use vstd::prelude::*;

verus! {

/// A text in lower case has the same characters, but for the letters from `A` to `Z`, which are
/// moved by the distance between `A` and `a`.
pub proof fn lower_case_changes_only_capitals(s: Seq<char>, i: int)
    requires
        0 <= i < s.len(),
    ensures
        lower(s).len() == s.len(),
        65 <= s[i] as u32 <= 90 ==> lower(s)[i] as u32 == s[i] as u32 + 32,
        !(65 <= s[i] as u32 <= 90) ==> lower(s)[i] == s[i],
{
}

/// A text is the same in lower case whether or not it has been put in lower case before, and the
/// lower case of two texts behind each other is that of the first and then that of the second.
pub proof fn lower_case_is_final(s: Seq<char>, t: Seq<char>)
    ensures
        lower(lower(s)) == lower(s),
        lower(s + t) == lower(s) + lower(t),
{
    assert(lower(lower(s)) =~= lower(s));
    assert(lower(s + t) =~= lower(s) + lower(t));
}

/// White space and the brackets `(`, `)`, `[` and `]` stand between words. Letters, digits,
/// underscores, double quotes, dots and commas do not.
pub proof fn words_stand_between_blanks_and_brackets(c: char)
    ensures
        c == ' ' || c == '\t' || c == '\n' || c == '\r' || c == '\u{b}' || c == '\u{c}' || c
            == '\u{85}' || c == '\u{a0}' || c == '\u{1680}' || ('\u{2000}' <= c <= '\u{200a}') || c
            == '\u{2028}' || c == '\u{2029}' || c == '\u{202f}' || c == '\u{205f}' || c
            == '\u{3000}' <==> white_space(c),
        separates(c) <==> white_space(c) || c == '(' || c == ')' || c == '[' || c == ']',
{
}

proof fn lemma_word_length(s: Seq<char>, n: int)
    requires
        0 <= n <= s.len(),
        forall|k: int| 0 <= k < n ==> !separates(#[trigger] s[k]),
        n < s.len() ==> separates(s[n]),
    ensures
        word_length(s) == n,
    decreases s.len(),
{
    if n > 0 {
        assert(!separates(s[0]));
        assert(forall|k: int| 0 <= k < n - 1 ==> #[trigger] s.skip(1)[k] == s[k + 1]);
        lemma_word_length(s.skip(1), n - 1);
    }
}

proof fn lemma_word_bound(s: Seq<char>)
    ensures
        word_length(s) <= s.len(),
        forall|k: int| 0 <= k < word_length(s) ==> !separates(#[trigger] s[k]),
        word_length(s) < s.len() ==> separates(s[word_length(s) as int]),
    decreases s.len(),
{
    if s.len() > 0 && !separates(s[0]) {
        lemma_word_bound(s.skip(1));
        assert forall|k: int| 0 <= k < word_length(s) implies !separates(#[trigger] s[k]) by {
            if k > 0 {
                assert(s.skip(1)[k - 1] == s[k]);
            }
        }
    }
}

/// A text that is not empty and has nothing that stands between words is one word, and an empty
/// text has none.
pub proof fn unbroken_text_is_one_word(s: Seq<char>)
    requires
        forall|k: int| 0 <= k < s.len() ==> !separates(#[trigger] s[k]),
    ensures
        words(s) == if s.len() == 0 {
            seq![]
        } else {
            seq![s]
        },
{
    if s.len() > 0 {
        assert(!separates(s[0]));
        lemma_word_length(s, s.len() as int);
        assert(s.take(s.len() as int) =~= s);
        assert(words(s.skip(s.len() as int)) =~= seq![]);
        assert(words(s) =~= seq![s]);
    }
}

/// The words of two texts with something between them that stands between words are those of the
/// first and then those of the second.
pub proof fn words_of_two_parts(a: Seq<char>, c: char, b: Seq<char>)
    requires
        separates(c),
    ensures
        words(a + seq![c] + b) == words(a) + words(b),
    decreases a.len(),
{
    let s = a + seq![c] + b;
    if a.len() == 0 {
        assert(s[0] == c);
        assert(s.skip(1) =~= b);
        assert(words(a) =~= seq![]);
        assert(words(s) =~= words(a) + words(b));
    } else if separates(a[0]) {
        assert(s[0] == a[0]);
        assert(s.skip(1) =~= a.skip(1) + seq![c] + b);
        words_of_two_parts(a.skip(1), c, b);
    } else {
        lemma_word_bound(a);
        let n = word_length(a) as int;
        assert(s[0] == a[0]);
        assert forall|k: int| 0 <= k < n implies !separates(#[trigger] s[k]) by {
            assert(s[k] == a[k]);
        }
        if n < a.len() {
            assert(s[n] == a[n]);
        } else {
            assert(s[n] == c);
        }
        lemma_word_length(s, n);
        assert(s.take(n) =~= a.take(n));
        assert(s.skip(n) =~= a.skip(n) + seq![c] + b);
        assert(n > 0) by {
            lemma_word_length(a, n);
        }
        words_of_two_parts(a.skip(n), c, b);
        assert(words(s) =~= words(a) + words(b));
    }
}

/// Nothing that stands between words is in a word, and no word is empty.
pub proof fn words_are_unbroken(s: Seq<char>)
    ensures
        forall|w: int, k: int|
            0 <= w < words(s).len() && 0 <= k < words(s)[w].len() ==> !separates(
                #[trigger] words(s)[w][k],
            ),
        forall|w: int| 0 <= w < words(s).len() ==> (#[trigger] words(s)[w]).len() > 0,
    decreases s.len(),
{
    if s.len() > 0 {
        if separates(s[0]) {
            words_are_unbroken(s.skip(1));
            assert(words(s) == words(s.skip(1)));
        } else {
            lemma_word_bound(s);
            let n = word_length(s) as int;
            words_are_unbroken(s.skip(n));
            assert(words(s) == seq![s.take(n)] + words(s.skip(n)));
            assert forall|w: int, k: int|
                0 <= w < words(s).len() && 0 <= k < words(s)[w].len() implies !separates(
                #[trigger] words(s)[w][k],
            ) by {
                if w > 0 {
                    assert(words(s)[w] == words(s.skip(n))[w - 1]);
                    assert(!separates(words(s.skip(n))[w - 1][k]));
                } else {
                    assert(words(s)[w][k] == s[k]);
                }
            }
            assert forall|w: int| 0 <= w < words(s).len() implies (#[trigger] words(s)[w]).len()
                > 0 by {
                if w > 0 {
                    assert(words(s)[w] == words(s.skip(n))[w - 1]);
                }
            }
        }
    } else {
        assert(words(s) =~= seq![]);
    }
}

/// Joining texts one behind the other is joining the first ones, the separator, and joining the
/// rest. One text alone is joined without a separator.
pub proof fn joined_parts_have_one_separator_between(
    a: Seq<Seq<char>>,
    b: Seq<Seq<char>>,
    separator: Seq<char>,
)
    ensures
        a.len() == 0 ==> join(a, separator).len() == 0,
        a.len() == 1 ==> join(a, separator) == a[0],
        a.len() > 0 && b.len() > 0 ==> join(a + b, separator) == join(a, separator) + separator
            + join(b, separator),
    decreases b.len(),
{
    if a.len() > 0 && b.len() > 0 {
        assert((a + b).drop_last() =~= a + b.drop_last());
        if b.len() == 1 {
            assert(a + b.drop_last() =~= a);
        } else {
            joined_parts_have_one_separator_between(a, b.drop_last(), separator);
        }
        assert(join(a + b, separator) =~= join(a, separator) + separator + join(b, separator));
    }
}

/// White space before or behind a text is trimmed away, and a text with none there is not
/// changed.
pub proof fn trimming_takes_white_space_at_both_ends(s: Seq<char>, c: char)
    requires
        white_space(c),
    ensures
        trim(seq![c] + s) == trim(s),
        trim(s.push(c)) == trim(s),
        s.len() > 0 && !white_space(s[0]) && !white_space(s.last()) ==> trim(s) == s,
        trim(Seq::<char>::empty()).len() == 0,
{
    assert((seq![c] + s).skip(1) =~= s);
    lemma_trim_behind(s, c);
}

proof fn lemma_trim_behind(s: Seq<char>, c: char)
    requires
        white_space(c),
    ensures
        trim(s.push(c)) == trim(s),
    decreases s.len(),
{
    if s.len() == 0 {
        assert(s.push(c).skip(1) =~= s);
        assert(trim_start(s.push(c)) == trim_start(s));
    } else if white_space(s[0]) {
        assert(s.push(c)[0] == s[0]);
        assert(s.push(c).skip(1) =~= s.skip(1).push(c));
        lemma_trim_behind(s.skip(1), c);
        assert(trim_start(s.push(c)) == trim_start(s.skip(1).push(c)));
    } else {
        assert(s.push(c)[0] == s[0]);
        assert(trim_start(s.push(c)) == s.push(c));
        assert(trim_start(s) == s);
        assert(s.push(c).drop_last() =~= s);
        assert(trim_end(s.push(c)) == trim_end(s));
    }
}

/// One more digit behind a numeral is ten times its number and the digit.
pub proof fn one_more_digit_is_ten_times_as_much(s: Seq<char>, c: char)
    requires
        '0' <= c <= '9',
    ensures
        numeral(s.push(c)) == 10 * numeral(s) + (c as u32 - '0' as u32),
        numeral(Seq::<char>::empty()) == 0,
{
    assert(s.push(c).drop_last() =~= s);
}

/// The decimal numeral of a number is made of digits, stands for that number, and has no leading
/// zero unless it is that of zero.
pub proof fn decimal_numeral_stands_for_its_number(n: nat)
    ensures
        numeral(decimal(n)) == n,
        decimal(n).len() > 0,
        forall|k: int| 0 <= k < decimal(n).len() ==> '0' <= #[trigger] decimal(n)[k] <= '9',
        n > 0 ==> decimal(n)[0] != '0',
        n == 0 ==> decimal(n) == seq!['0'],
    decreases n,
{
    if n < 10 {
        assert(digit(n) as u32 == 48 + n);
        assert(seq![digit(n)].drop_last() =~= seq![]);
        assert(seq![digit(n)].last() == digit(n));
        reveal_with_fuel(numeral, 2);
        assert(numeral(seq![digit(n)]) == n);
    } else {
        let tens = n / 10;
        decimal_numeral_stands_for_its_number(tens);
        let last = digit(n % 10);
        assert(last as u32 == 48 + n % 10);
        one_more_digit_is_ten_times_as_much(decimal(tens), last);
        assert(decimal(n) == decimal(tens).push(last));
        assert(decimal(n)[0] == decimal(tens)[0]);
    }
}

/// In a quoted identifier a pair of double quotes stands for one, and all other characters, a
/// single double quote too, stand for themselves.
pub proof fn pairs_of_quotes_stand_for_one(a: Seq<char>, b: Seq<char>)
    requires
        forall|k: int| 0 <= k < a.len() ==> #[trigger] a[k] != '"',
    ensures
        collapse_quotes(a) == a,
        collapse_quotes(a + seq!['"', '"'] + b) == a + seq!['"'] + collapse_quotes(b),
        b.len() == 0 || b[0] != '"' ==> collapse_quotes(a + seq!['"'] + b) == a + seq!['"']
            + collapse_quotes(b),
    decreases a.len(),
{
    let pair = seq!['"', '"'];
    let one = seq!['"'];
    if a.len() == 0 {
        assert(a + pair + b =~= pair + b);
        assert((pair + b).skip(2) =~= b);
        assert(a + one + b =~= one + b);
        assert((one + b).skip(1) =~= b);
        assert(collapse_quotes(a) =~= a);
        assert(collapse_quotes(a + pair + b) =~= a + one + collapse_quotes(b));
        if b.len() == 0 || b[0] != '"' {
            assert(one + b.skip(0) =~= one + b);
            assert((one + b)[0] == '"');
            assert(b.len() > 0 ==> (one + b)[1] == b[0]);
            assert(collapse_quotes(one + b) == seq!['"'] + collapse_quotes((one + b).skip(1)));
            assert(collapse_quotes(a + one + b) =~= a + one + collapse_quotes(b));
        }
    } else {
        let rest = a.skip(1);
        assert forall|k: int| 0 <= k < rest.len() implies #[trigger] rest[k] != '"' by {
            assert(rest[k] == a[k + 1]);
        }
        pairs_of_quotes_stand_for_one(rest, b);
        assert(a[0] != '"');
        assert((a + pair + b).skip(1) =~= rest + pair + b);
        assert((a + one + b).skip(1) =~= rest + one + b);
        assert((a + pair + b)[0] == a[0]);
        assert((a + one + b)[0] == a[0]);
        assert(seq![a[0]] + rest =~= a);
        assert(seq![a[0]] + (rest + one + collapse_quotes(b)) =~= a + one + collapse_quotes(b));
    }
}

/// A quoted identifier without its delimiters is what is between the first and the last double
/// quote. Where one of the two is missing, only the other one is taken away.
pub proof fn delimiters_are_the_outer_quotes(inner: Seq<char>)
    ensures
        without_delimiters(seq!['"'] + inner + seq!['"']) == inner,
        inner.len() == 0 || inner.last() != '"' ==> without_delimiters(seq!['"'] + inner) == inner,
        inner.len() == 0 || inner[0] != '"' ==> without_delimiters(inner.push('"')) == inner,
        inner.len() > 0 && inner[0] != '"' && inner.last() != '"' ==> without_delimiters(inner)
            == inner,
{
    assert((seq!['"'] + inner).skip(1) =~= inner);
    assert(inner.push('"').drop_last() =~= inner);
    if inner.len() == 0 {
        assert(inner.push('"').skip(1) =~= inner);
    }
    let s = seq!['"'] + inner + seq!['"'];
    assert(s[0] == '"');
    assert(s.skip(1) =~= inner + seq!['"']);
    assert((inner + seq!['"']).last() == '"');
    assert((inner + seq!['"']).drop_last() =~= inner);
}

} // verus!
