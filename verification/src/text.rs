//! Texts: words, dotted paths, and numbers in decimal digits.

use vstd::prelude::*;

verus! {

/// Whether `c` is white space: one of the characters with Unicode's
/// `White_Space` property, which are the tab, the line feed, the vertical
/// tab, the form feed, the carriage return, the space, the next line, the
/// no-break space, the Ogham space mark, the spaces from the en quad to the
/// hair space, the line and the paragraph separator, the narrow no-break
/// space, the medium mathematical space and the ideographic space.
pub open spec fn is_white_space(c: char) -> bool {
    let code = c as u32;
    ||| 0x0009 <= code <= 0x000D
    ||| code == 0x0020
    ||| code == 0x0085
    ||| code == 0x00A0
    ||| code == 0x1680
    ||| 0x2000 <= code <= 0x200A
    ||| code == 0x2028
    ||| code == 0x2029
    ||| code == 0x202F
    ||| code == 0x205F
    ||| code == 0x3000
}

/// `char::is_whitespace` of std: whether the character has Unicode's
/// `White_Space` property.
#[verifier::external_body]
pub(crate) fn char_is_whitespace(c: char) -> (white: bool)
    ensures
        white == is_white_space(c),
{
    c.is_whitespace()
}

/// `==` on string slices (`str::eq` of std): two slices are equal exactly
/// when they hold the same characters.
#[verifier::external_body]
pub(crate) fn str_eq(a: &str, b: &str) -> (same: bool)
    ensures
        same == (a@ == b@),
{
    a == b
}

/// `str::split_once` of std with a `char` delimiter: the parts before and
/// after the first occurrence of the delimiter, or `None` where the string
/// does not hold it.
#[verifier::external_body]
pub(crate) fn split_once_char<'a>(s: &'a str, delimiter: char) -> (parts: Option<(&'a str, &'a str)>)
    ensures
        parts is None <==> !s@.contains(delimiter),
        parts matches Some((before, after)) ==> s@ == before@ + seq![delimiter] + after@
            && !before@.contains(delimiter),
{
    s.split_once(delimiter)
}

/// `str::strip_prefix` of std with a `char` prefix: the string without its
/// first character where that is `prefix`, `None` where the string does not
/// start with it.
#[verifier::external_body]
pub(crate) fn strip_prefix_char<'a>(s: &'a str, prefix: char) -> (rest: Option<&'a str>)
    ensures
        rest is Some <==> (s@.len() > 0 && s@[0] == prefix),
        rest matches Some(r) ==> r@ == s@.skip(1),
{
    s.strip_prefix(prefix)
}

/// The number of characters at the start of `s` that are not white space.
pub open spec fn word_len(s: Seq<char>) -> nat
    decreases s.len(),
{
    if s.len() == 0 || is_white_space(s[0]) {
        0
    } else {
        1 + word_len(s.skip(1))
    }
}

/// The words of `s`: its maximal runs of characters that are not white
/// space, in their order.
pub open spec fn words_of(s: Seq<char>) -> Seq<Seq<char>>
    decreases s.len(),
{
    if s.len() == 0 {
        seq![]
    } else if is_white_space(s[0]) {
        words_of(s.skip(1))
    } else {
        proof {
            lemma_word_len_bound(s);
        }
        let n = word_len(s) as int;
        seq![s.take(n)] + words_of(s.skip(n))
    }
}

/// The characters of each string of `v`.
pub open spec fn views_of(v: Seq<&str>) -> Seq<Seq<char>> {
    Seq::new(v.len(), |i: int| v[i]@)
}

/// A word is never longer than the text it starts.
pub proof fn lemma_word_len_bound(s: Seq<char>)
    ensures
        word_len(s) <= s.len(),
    decreases s.len(),
{
    if s.len() > 0 && !is_white_space(s[0]) {
        lemma_word_len_bound(s.skip(1));
    }
}

/// A run of `n` characters that are not white space, ended by white space or
/// by the end of the text, is the word at the start of the text.
pub proof fn lemma_word_len_is(s: Seq<char>, n: int)
    requires
        0 <= n <= s.len(),
        forall|k: int| 0 <= k < n ==> !is_white_space(#[trigger] s[k]),
        n == s.len() || is_white_space(s[n]),
    ensures
        word_len(s) == n,
    decreases n,
{
    if n > 0 {
        let t = s.skip(1);
        assert forall|k: int| 0 <= k < n - 1 implies !is_white_space(#[trigger] t[k]) by {
            assert(t[k] == s[k + 1]);
        }
        if n < s.len() {
            assert(t[n - 1] == s[n]);
        }
        lemma_word_len_is(t, n - 1);
    }
}

/// Splits a string into its words, as `str::split_whitespace` does.
pub fn split_words<'a>(s: &'a str) -> (words: Vec<&'a str>)
    ensures
        views_of(words@) == words_of(s@),
{
    let n = s.unicode_len();
    let mut words: Vec<&'a str> = Vec::new();
    let mut i: usize = 0;
    proof {
        assert(s@.skip(0) =~= s@);
        assert(views_of(words@) =~= Seq::<Seq<char>>::empty());
    }
    while i < n
        invariant
            n == s@.len(),
            i <= n,
            views_of(words@) + words_of(s@.skip(i as int)) == words_of(s@),
        decreases n - i,
    {
        let c = s.get_char(i);
        let ghost rest = s@.skip(i as int);
        proof {
            assert(rest[0] == s@[i as int]);
        }
        if char_is_whitespace(c) {
            proof {
                assert(rest.skip(1) =~= s@.skip(i + 1));
            }
            i += 1;
        } else {
            let mut j: usize = i + 1;
            while j < n && !char_is_whitespace(s.get_char(j))
                invariant
                    n == s@.len(),
                    i < j <= n,
                    forall|k: int| i <= k < j ==> !is_white_space(#[trigger] s@[k]),
                decreases n - j,
            {
                j += 1;
            }
            let word = s.substring_char(i, j);
            proof {
                let len = j - i;
                assert forall|k: int| 0 <= k < len implies !is_white_space(#[trigger] rest[k]) by {
                    assert(rest[k] == s@[i + k]);
                }
                if len < rest.len() {
                    assert(rest[len] == s@[j as int]);
                }
                lemma_word_len_is(rest, len);
                assert(rest.take(len) =~= s@.subrange(i as int, j as int));
                assert(rest.skip(len) =~= s@.skip(j as int));
                assert(views_of(words@.push(word)) =~= views_of(words@) + seq![word@]);
            }
            words.push(word);
            i = j;
        }
    }
    proof {
        assert(s@.skip(n as int) =~= Seq::<char>::empty());
    }
    words
}

/// The character of a decimal digit.
pub open spec fn digit_char(d: int) -> char {
    if d == 0 {
        '0'
    } else if d == 1 {
        '1'
    } else if d == 2 {
        '2'
    } else if d == 3 {
        '3'
    } else if d == 4 {
        '4'
    } else if d == 5 {
        '5'
    } else if d == 6 {
        '6'
    } else if d == 7 {
        '7'
    } else if d == 8 {
        '8'
    } else {
        '9'
    }
}

/// The digit that a character stands for; none for any other character.
pub open spec fn digit_of(c: char) -> Option<int> {
    if c == '0' {
        Some(0int)
    } else if c == '1' {
        Some(1int)
    } else if c == '2' {
        Some(2int)
    } else if c == '3' {
        Some(3int)
    } else if c == '4' {
        Some(4int)
    } else if c == '5' {
        Some(5int)
    } else if c == '6' {
        Some(6int)
    } else if c == '7' {
        Some(7int)
    } else if c == '8' {
        Some(8int)
    } else if c == '9' {
        Some(9int)
    } else {
        None
    }
}

/// A number in decimal digits, without leading zeros.
pub open spec fn decimal(n: nat) -> Seq<char>
    decreases n,
{
    if n < 10 {
        seq![digit_char(n as int)]
    } else {
        decimal(n / 10).push(digit_char((n % 10) as int))
    }
}

/// The number that a text of decimal digits stands for; none for an empty
/// text and for a text that holds anything but digits.
pub open spec fn digits_value(s: Seq<char>) -> Option<nat>
    decreases s.len(),
{
    if s.len() == 0 {
        None
    } else if s.len() == 1 {
        match digit_of(s[0]) {
            Some(d) => Some(d as nat),
            None => None,
        }
    } else {
        match (digits_value(s.drop_last()), digit_of(s.last())) {
            (Some(n), Some(d)) => Some((n * 10 + d) as nat),
            _ => None,
        }
    }
}

/// The number that a text stands for: decimal digits, which a single plus
/// sign may precede; none for any other text.
pub open spec fn number_of(s: Seq<char>) -> Option<nat> {
    if s.len() > 0 && s[0] == '+' {
        digits_value(s.skip(1))
    } else {
        digits_value(s)
    }
}

/// A number written in decimal digits is read back as itself.
pub proof fn lemma_decimal_round_trip(n: nat)
    ensures
        number_of(decimal(n)) == Some(n),
        digits_value(decimal(n)) == Some(n),
        decimal(n).len() > 0,
        decimal(n)[0] != '+',
        !decimal(n).contains('.'),
    decreases n,
{
    if n < 10 {
        assert(decimal(n)[0] == digit_char(n as int));
    } else {
        lemma_decimal_round_trip(n / 10);
        let s = decimal(n);
        let front = decimal(n / 10);
        assert(s.drop_last() =~= front);
        assert(s.last() == digit_char((n % 10) as int));
        assert(s.len() > 1);
        assert(s[0] == front[0]);
        assert forall|k: int| 0 <= k < s.len() implies s[k] != '.' by {
            if k < front.len() {
                assert(s[k] == front[k]);
                assert(front.contains(front[k]));
            }
        }
    }
}

/// The text of one decimal digit.
fn digit_text(d: usize) -> (text: &'static str)
    requires
        d < 10,
    ensures
        text@ == seq![digit_char(d as int)],
{
    proof {
        reveal_strlit("0");
        reveal_strlit("1");
        reveal_strlit("2");
        reveal_strlit("3");
        reveal_strlit("4");
        reveal_strlit("5");
        reveal_strlit("6");
        reveal_strlit("7");
        reveal_strlit("8");
        reveal_strlit("9");
    }
    let text = if d == 0 {
        "0"
    } else if d == 1 {
        "1"
    } else if d == 2 {
        "2"
    } else if d == 3 {
        "3"
    } else if d == 4 {
        "4"
    } else if d == 5 {
        "5"
    } else if d == 6 {
        "6"
    } else if d == 7 {
        "7"
    } else if d == 8 {
        "8"
    } else {
        "9"
    };
    proof {
        assert(text@ =~= seq![digit_char(d as int)]);
    }
    text
}

/// Writes a place of a list in decimal digits.
pub fn index_text(n: usize) -> (text: String)
    ensures
        text@ == decimal(n as nat),
    decreases n,
{
    if n < 10 {
        digit_text(n).to_owned()
    } else {
        let front = index_text(n / 10);
        let text = front.concat(digit_text(n % 10));
        proof {
            assert(text@ =~= decimal((n / 10) as nat).push(digit_char((n % 10) as int)));
        }
        text
    }
}

/// The digit that a character stands for.
fn digit_value(c: char) -> (d: Option<usize>)
    ensures
        match d {
            Some(v) => digit_of(c) == Some(v as int),
            None => digit_of(c) is None,
        },
{
    if c == '0' {
        Some(0)
    } else if c == '1' {
        Some(1)
    } else if c == '2' {
        Some(2)
    } else if c == '3' {
        Some(3)
    } else if c == '4' {
        Some(4)
    } else if c == '5' {
        Some(5)
    } else if c == '6' {
        Some(6)
    } else if c == '7' {
        Some(7)
    } else if c == '8' {
        Some(8)
    } else if c == '9' {
        Some(9)
    } else {
        None
    }
}

/// Reads the decimal digits that a text holds from the place `from` on. A
/// text that holds nothing from there on, or anything but digits, or that
/// stands for a number above the largest place, gives `None`.
fn parse_digits(s: &str, from: usize) -> (value: Option<usize>)
    requires
        from <= s@.len(),
    ensures
        match value {
            Some(i) => digits_value(s@.skip(from as int)) == Some(i as nat),
            None => match digits_value(s@.skip(from as int)) {
                Some(n) => n > usize::MAX,
                None => true,
            },
        },
{
    let n = s.unicode_len();
    let ghost digits = s@.skip(from as int);
    if n == from {
        return None;
    }
    let mut value: usize = match digit_value(s.get_char(from)) {
        Some(d) => d,
        None => {
            proof {
                assert(digits.take(1).len() == 1);
                assert(digits.take(1)[0] == s@[from as int]);
                lemma_digits_value_none(digits, 1);
            }
            return None;
        },
    };
    let mut i: usize = from + 1;
    proof {
        assert(digits.take(1).len() == 1);
        assert(digits.take(1)[0] == s@[from as int]);
    }
    while i < n
        invariant
            n == s@.len(),
            digits == s@.skip(from as int),
            from + 1 <= i <= n,
            digits_value(digits.take(i - from)) == Some(value as nat),
        decreases n - i,
    {
        let ghost k = i - from;
        let digit = match digit_value(s.get_char(i)) {
            Some(d) => d,
            None => {
                proof {
                    assert(digits.take(k + 1).drop_last() =~= digits.take(k));
                    assert(digits.take(k + 1).last() == s@[i as int]);
                    assert(digits_value(digits.take(k + 1)) is None);
                    lemma_digits_value_none(digits, k + 1);
                }
                return None;
            },
        };
        proof {
            assert(digits.take(k + 1).drop_last() =~= digits.take(k));
            assert(digits.take(k + 1).last() == s@[i as int]);
            assert(digits_value(digits.take(k + 1)) == Some((value * 10 + digit) as nat));
        }
        if value > (usize::MAX - digit) / 10 {
            proof {
                lemma_digits_value_large(digits, k + 1);
            }
            return None;
        }
        value = value * 10 + digit;
        i += 1;
    }
    proof {
        assert(digits.take(n - from) =~= digits);
    }
    Some(value)
}

/// Reads a place of a list from a text: decimal digits, which a single plus
/// sign may precede. A text that is empty, holds anything else, or stands
/// for a number above the largest place gives `None`.
pub fn parse_index(s: &str) -> (index: Option<usize>)
    ensures
        match index {
            Some(i) => number_of(s@) == Some(i as nat),
            None => match number_of(s@) {
                Some(n) => n > usize::MAX,
                None => true,
            },
        },
{
    if s.unicode_len() > 0 && s.get_char(0) == '+' {
        parse_digits(s, 1)
    } else {
        proof {
            assert(s@.skip(0) =~= s@);
        }
        parse_digits(s, 0)
    }
}

/// A text whose front part is not a number in digits is not one either.
pub proof fn lemma_digits_value_none(s: Seq<char>, k: int)
    requires
        1 <= k <= s.len(),
        digits_value(s.take(k)) is None,
    ensures
        digits_value(s) is None,
    decreases s.len() - k,
{
    if k < s.len() {
        assert(s.take(k + 1).drop_last() =~= s.take(k));
        assert(s.take(k + 1).len() > 1);
        assert(digits_value(s.take(k + 1)) is None);
        lemma_digits_value_none(s, k + 1);
    } else {
        assert(s.take(k) =~= s);
    }
}

/// A text in digits is not a smaller number than its front part.
pub proof fn lemma_digits_value_large(s: Seq<char>, k: int)
    requires
        1 <= k <= s.len(),
    ensures
        digits_value(s) is Some ==> digits_value(s.take(k)) is Some && digits_value(s)->0
            >= digits_value(s.take(k))->0,
    decreases s.len() - k,
{
    if k < s.len() {
        assert(s.take(k + 1).drop_last() =~= s.take(k));
        assert(s.take(k + 1).len() > 1);
        lemma_digits_value_large(s, k + 1);
    } else {
        assert(s.take(k) =~= s);
    }
}

} // verus!
