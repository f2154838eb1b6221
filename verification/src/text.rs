//! Text as sequences of characters: equality, decimal numerals, quoting.

use vstd::prelude::*;
use vstd::string::*;

verus! {

/// Whether two texts are the same.
///
/// Calls std's `str` equality, which compares the two texts character by
/// character.
#[verifier::external_body]
pub(crate) fn same_text(a: &str, b: &str) -> (r: bool)
    ensures
        r == (a@ == b@),
{
    a == b
}

/// The text of `s` as its `Debug` form shows it: in double quotes, with
/// the characters that need it escaped.
pub uninterp spec fn debug_quoted(s: Seq<char>) -> Seq<char>;

/// The `Debug` form of a text.
///
/// Calls std's `Debug` formatting of `str`; the result is a function of
/// the text alone, and is named rather than spelled out because the set
/// of characters it escapes is a Unicode table.
#[verifier::external_body]
pub(crate) fn debug_text(s: &str) -> (r: String)
    ensures
        r@ == debug_quoted(s@),
{
    format!("{:?}", s)
}

/// The character of one decimal digit.
pub open spec fn digit_char(d: nat) -> char {
    if d == 0 {
        '0'
    } else if d == 1 {
        '1'
    } else if d == 2 {
        '2'
    } else if d == 3 {
        '3'
    } else if d == 4 {
        '4'
    } else if d == 5 {
        '5'
    } else if d == 6 {
        '6'
    } else if d == 7 {
        '7'
    } else if d == 8 {
        '8'
    } else {
        '9'
    }
}

/// The decimal numeral of `n`, without leading zeros.
pub open spec fn decimal(n: nat) -> Seq<char>
    decreases n,
{
    if n < 10 {
        seq![digit_char(n)]
    } else {
        decimal(n / 10).push(digit_char(n % 10))
    }
}

fn digit_text(d: u64) -> (r: &'static str)
    requires
        d < 10,
    ensures
        r@ == seq![digit_char(d as nat)],
{
    proof {
        reveal_strlit("0");
        reveal_strlit("1");
        reveal_strlit("2");
        reveal_strlit("3");
        reveal_strlit("4");
        reveal_strlit("5");
        reveal_strlit("6");
        reveal_strlit("7");
        reveal_strlit("8");
        reveal_strlit("9");
    }
    if d == 0 {
        "0"
    } else if d == 1 {
        "1"
    } else if d == 2 {
        "2"
    } else if d == 3 {
        "3"
    } else if d == 4 {
        "4"
    } else if d == 5 {
        "5"
    } else if d == 6 {
        "6"
    } else if d == 7 {
        "7"
    } else if d == 8 {
        "8"
    } else {
        "9"
    }
}

/// Writes `n` as a decimal numeral.
pub fn decimal_text(n: u64) -> (r: String)
    ensures
        r@ == decimal(n as nat),
    decreases n,
{
    if n < 10 {
        digit_text(n).to_owned()
    } else {
        let mut out = decimal_text(n / 10);
        out.append(digit_text(n % 10));
        assert(out@ =~= decimal((n / 10) as nat).push(digit_char((n % 10) as nat)));
        out
    }
}

/// Texts with a separator between each two.
pub open spec fn texts_joined(parts: Seq<Seq<char>>, sep: Seq<char>) -> Seq<char>
    decreases parts.len(),
{
    if parts.len() == 0 {
        Seq::empty()
    } else if parts.len() == 1 {
        parts[0]
    } else {
        texts_joined(parts.drop_last(), sep) + sep + parts.last()
    }
}

/// Joins texts, with a separator between each two.
pub fn join_texts(parts: &Vec<String>, sep: &str) -> (r: String)
    ensures
        r@ == texts_joined(parts.deep_view(), sep@),
{
    let ghost texts = parts.deep_view();
    let mut out = String::new();
    let mut i: usize = 0;
    while i < parts.len()
        invariant
            i <= parts@.len(),
            texts == parts.deep_view(),
            out@ == texts_joined(texts.take(i as int), sep@),
        decreases parts@.len() - i,
    {
        assert(texts.take(i + 1).drop_last() =~= texts.take(i as int));
        if i > 0 {
            out.append(sep);
            out.append(parts[i].as_str());
        } else {
            out = parts[i].clone();
        }
        i = i + 1;
    }
    assert(texts.take(i as int) =~= texts);
    out
}

/// Where `sep` first stands at or after `from`, or past the end of `s` if
/// it does so nowhere.
pub open spec fn separator_at(s: Seq<char>, sep: Seq<char>, from: int) -> int
    decreases s.len() - from,
{
    if from >= s.len() || from + sep.len() > s.len() {
        s.len() as int + 1
    } else if s.subrange(from, from + sep.len()) == sep {
        from
    } else {
        separator_at(s, sep, from + 1)
    }
}

/// The pieces of a text between the places where a separator stands in
/// it, from the left.
pub open spec fn pieces(s: Seq<char>, sep: Seq<char>) -> Seq<Seq<char>>
    decreases s.len(),
{
    let at = separator_at(s, sep, 0);
    if 0 <= at && at + sep.len() <= s.len() && sep.len() > 0 {
        seq![s.take(at)] + pieces(s.skip((at + sep.len()) as int), sep)
    } else {
        seq![s]
    }
}

proof fn lemma_separator_at(s: Seq<char>, sep: Seq<char>, from: int, end: int)
    requires
        0 <= from <= end,
        sep.len() > 0,
        end <= s.len(),
        forall|k: int| from <= k < end ==> #[trigger] s[k] != sep[0],
    ensures
        end + sep.len() <= s.len() && s.subrange(end, end + sep.len()) == sep ==> separator_at(
            s,
            sep,
            from,
        ) == end,
        end == s.len() ==> separator_at(s, sep, from) == s.len() + 1,
    decreases end - from,
{
    if from < end {
        if from + sep.len() <= s.len() && s.subrange(from, from + sep.len()) == sep {
            assert(s.subrange(from, from + sep.len())[0] == s[from]);
        }
        if from + sep.len() <= s.len() {
            lemma_separator_at(s, sep, from + 1, end);
        }
    }
}

proof fn lemma_joined_front(parts: Seq<Seq<char>>, sep: Seq<char>)
    requires
        parts.len() > 1,
    ensures
        texts_joined(parts, sep) == parts[0] + sep + texts_joined(parts.skip(1), sep),
    decreases parts.len(),
{
    let rest = parts.skip(1);
    if parts.len() == 2 {
        assert(parts.drop_last() =~= seq![parts[0]]);
        assert(rest =~= seq![parts[1]]);
        assert(texts_joined(parts.drop_last(), sep) == parts[0]);
        assert(texts_joined(rest, sep) == parts[1]);
    } else {
        lemma_joined_front(parts.drop_last(), sep);
        assert(parts.drop_last().skip(1) =~= rest.drop_last());
        assert(parts[0] + sep + texts_joined(rest.drop_last(), sep) + sep + parts.last()
            =~= parts[0] + sep + (texts_joined(rest.drop_last(), sep) + sep + parts.last()));
    }
}

/// Joined texts come apart again, where none of them holds the character
/// that the separator starts with.
pub proof fn law_joined_texts_come_apart(parts: Seq<Seq<char>>, sep: Seq<char>)
    requires
        parts.len() > 0,
        sep.len() > 0,
        forall|i: int, k: int|
            0 <= i < parts.len() && 0 <= k < parts[i].len() ==> #[trigger] parts[i][k] != sep[0],
    ensures
        pieces(texts_joined(parts, sep), sep) == parts,
    decreases parts.len(),
{
    let whole = texts_joined(parts, sep);
    if parts.len() == 1 {
        lemma_separator_at(whole, sep, 0, whole.len() as int);
        assert(pieces(whole, sep) =~= parts);
    } else {
        let rest = parts.skip(1);
        let n = parts[0].len() as int;
        lemma_joined_front(parts, sep);
        assert forall|k: int| 0 <= k < n implies #[trigger] whole[k] != sep[0] by {
            assert(whole[k] == parts[0][k]);
        }
        assert(whole.subrange(n, n + sep.len()) =~= sep);
        lemma_separator_at(whole, sep, 0, n);
        assert(whole.take(n) =~= parts[0]);
        assert(whole.skip((n + sep.len()) as int) =~= texts_joined(rest, sep));
        assert forall|i: int, k: int| 0 <= i < rest.len() && 0 <= k < rest[i].len() implies
            #[trigger] rest[i][k] != sep[0] by {
            assert(parts[i + 1][k] != sep[0]);
        }
        law_joined_texts_come_apart(rest, sep);
        assert(pieces(whole, sep) =~= parts);
    }
}

/// Whether `c` is one of the ten ASCII digits.
pub open spec fn is_digit(c: char) -> bool {
    '0' <= c && c <= '9'
}

/// The number a text of digits stands for, most significant first.
pub open spec fn digits_value(s: Seq<char>) -> nat
    decreases s.len(),
{
    if s.len() == 0 {
        0
    } else {
        digits_value(s.drop_last()) * 10 + (s.last() as u32 - '0' as u32) as nat
    }
}

/// The digits of a numeral: what follows its optional leading `+`.
pub open spec fn numeral_digits(s: Seq<char>) -> Seq<char> {
    if s.len() > 0 && s[0] == '+' {
        s.skip(1)
    } else {
        s
    }
}

/// The value of a decimal numeral: an optional `+`, then at least one
/// digit and nothing else, when that value fits in a `u64`.
pub open spec fn numeral_value(s: Seq<char>) -> Option<u64> {
    let digits = numeral_digits(s);
    if digits.len() > 0 && (forall|i: int| 0 <= i < digits.len() ==> is_digit(#[trigger] digits[i]))
        && digits_value(digits) <= u64::MAX {
        Some(digits_value(digits) as u64)
    } else {
        None
    }
}

proof fn lemma_digits_value_grows(s: Seq<char>, i: int)
    requires
        0 <= i <= s.len(),
        forall|k: int| 0 <= k < s.len() ==> is_digit(#[trigger] s[k]),
    ensures
        digits_value(s.take(i)) <= digits_value(s),
    decreases s.len(),
{
    if i == s.len() {
        assert(s.take(i) =~= s);
    } else {
        lemma_digits_value_grows(s.drop_last(), i);
        assert(s.drop_last().take(i) =~= s.take(i));
    }
}

/// The characters of a text, one by one.
pub fn chars_of(s: &str) -> (r: Vec<char>)
    ensures
        r@ == s@,
{
    let mut out: Vec<char> = Vec::new();
    for c in it: s.chars()
        invariant
            out@ == it.seq().take(it.index() as int),
            it.seq() == s@,
    {
        out.push(c);
    }
    out
}

/// Reads a decimal numeral.
pub fn parse_number(s: &str) -> (r: Option<u64>)
    ensures
        r == numeral_value(s@),
{
    let chars = chars_of(s);
    let start: usize = if chars.len() > 0 && chars[0] == '+' {
        1
    } else {
        0
    };
    let ghost digits = numeral_digits(s@);
    assert(digits =~= chars@.skip(start as int));
    if start == chars.len() {
        return None;
    }
    let mut value: u64 = 0;
    let mut i: usize = start;
    while i < chars.len()
        invariant
            start <= i <= chars.len(),
            start < chars.len(),
            chars@ == s@,
            digits == numeral_digits(s@),
            digits == chars@.skip(start as int),
            forall|k: int| 0 <= k < i - start ==> is_digit(#[trigger] digits[k]),
            value == digits_value(digits.take(i - start)),
        decreases chars.len() - i,
    {
        let c = chars[i];
        assert(digits[i - start] == c);
        if !('0' <= c && c <= '9') {
            return None;
        }
        let d: u64 = (c as u32 - '0' as u32) as u64;
        proof {
            let next = digits.take(i + 1 - start);
            assert(next.drop_last() =~= digits.take(i - start));
            assert(next.last() == c);
            if value * 10 + d > u64::MAX {
                assert(digits_value(next) == value * 10 + d);
                if forall|k: int| 0 <= k < digits.len() ==> is_digit(#[trigger] digits[k]) {
                    lemma_digits_value_grows(digits, i + 1 - start);
                }
            }
        }
        if value > u64::MAX / 10 {
            return None;
        }
        let scaled: u64 = value * 10;
        if scaled > u64::MAX - d {
            return None;
        }
        value = scaled + d;
        i = i + 1;
    }
    assert(digits.take(i - start) =~= digits);
    Some(value)
}

/// The numeral written for a number is digits only, and stands for that
/// number.
pub proof fn law_numerals_round_trip(n: nat)
    ensures
        decimal(n).len() > 0,
        forall|i: int| 0 <= i < decimal(n).len() ==> is_digit(#[trigger] decimal(n)[i]),
        digits_value(decimal(n)) == n,
        n <= u64::MAX ==> numeral_value(decimal(n)) == Some(n as u64),
    decreases n,
{
    let d = n % 10;
    let c = digit_char(d);
    assert(is_digit(c) && (c as u32 - '0' as u32) as nat == d);
    if n < 10 {
        assert(decimal(n) =~= seq![c]);
        assert(decimal(n).drop_last() =~= Seq::empty());
        reveal_with_fuel(digits_value, 2);
    } else {
        law_numerals_round_trip(n / 10);
        assert(decimal(n) =~= decimal(n / 10).push(c));
        assert(decimal(n).drop_last() =~= decimal(n / 10));
        assert forall|i: int| 0 <= i < decimal(n).len() implies is_digit(
            #[trigger] decimal(n)[i],
        ) by {
            if i < decimal(n / 10).len() {
                assert(decimal(n)[i] == decimal(n / 10)[i]);
            }
        }
    }
    assert(decimal(n)[0] != '+') by {
        assert(is_digit(decimal(n)[0]));
    }
}

/// A digit more at the end of a numeral is ten times the value and the
/// digit's own; a text with anything but digits behind an optional plus
/// sign is no numeral.
pub proof fn law_numerals_read_from_the_left(s: Seq<char>, d: nat)
    requires
        d < 10,
        s.len() > 0,
    ensures
        digits_value(s.push(digit_char(d))) == digits_value(s) * 10 + d,
        numeral_value(s) is Some ==> forall|i: int|
            1 <= i < s.len() ==> '0' <= #[trigger] s[i] && s[i] <= '9',
        numeral_value(Seq::empty()) is None,
{
    assert(s.push(digit_char(d)).drop_last() =~= s);
    let c = digit_char(d);
    assert((c as u32 - '0' as u32) as nat == d);
    if numeral_value(s) is Some {
        let digits = numeral_digits(s);
        assert forall|i: int| 1 <= i < s.len() implies '0' <= #[trigger] s[i] && s[i] <= '9' by {
            if s[0] == '+' {
                assert(digits[i - 1] == s[i]);
            } else {
                assert(digits[i] == s[i]);
            }
        }
    }
}

} // verus!
