//! Decimal numbers and fixed words, as the messages write them on the wire.
//!
//! The spec functions say how a number is written and how the start of a
//! text is read back. The executable functions append to a `String` and read
//! from a `Vec<char>` at a cursor.

use vstd::prelude::*;
use vstd::string::*;

verus! {

/// Whether `c` is one of `'0'` to `'9'`.
pub open spec fn is_digit(c: char) -> bool {
    48 <= c as u32 && c as u32 <= 57
}

/// The character that writes the digit `d`.
pub open spec fn digit_char(d: nat) -> char
    recommends
        d < 10,
{
    ((48 + d) as u8) as char
}

/// The digit that `c` writes.
pub open spec fn digit_of(c: char) -> nat
    recommends
        is_digit(c),
{
    (c as u32 - 48) as nat
}

/// `n` in decimal: no sign, no leading zero, `"0"` for zero.
pub open spec fn decimal(n: nat) -> Seq<char>
    decreases n,
{
    if n < 10 {
        seq![digit_char(n)]
    } else {
        decimal(n / 10).push(digit_char(n % 10))
    }
}

/// `n` in decimal, with a leading `'-'` exactly when it is negative.
pub open spec fn signed_decimal(n: int) -> Seq<char> {
    if n < 0 {
        seq!['-'] + decimal((-n) as nat)
    } else {
        decimal(n as nat)
    }
}

/// Whether every character of `s` is a digit.
pub open spec fn all_digits(s: Seq<char>) -> bool {
    forall|i: int| 0 <= i < s.len() ==> is_digit(#[trigger] s[i])
}

/// The number that the digits `s` write, most significant first.
pub open spec fn digits_value(s: Seq<char>) -> nat
    decreases s.len(),
{
    if s.len() == 0 {
        0
    } else {
        digits_value(s.drop_last()) * 10 + digit_of(s.last())
    }
}

/// How many digits `s` starts with.
pub open spec fn leading_digits(s: Seq<char>) -> nat
    decreases s.len(),
{
    if s.len() > 0 && is_digit(s[0]) {
        1 + leading_digits(s.drop_first())
    } else {
        0
    }
}

/// What follows `word` in `s`, if `s` starts with `word`.
pub open spec fn after_word(s: Seq<char>, word: Seq<char>) -> Option<Seq<char>> {
    if word.len() <= s.len() && s.take(word.len() as int) == word {
        Some(s.skip(word.len() as int))
    } else {
        None
    }
}

/// The number written by the digits that `s` starts with, and what follows
/// them; `None` if `s` starts with no digit.
pub open spec fn leading_number(s: Seq<char>) -> Option<(nat, Seq<char>)> {
    let run = leading_digits(s) as int;
    if run == 0 {
        None
    } else {
        Some((digits_value(s.take(run)), s.skip(run)))
    }
}

/// A decimal is never empty and holds digits only.
pub proof fn lemma_decimal_is_digits(n: nat)
    ensures
        decimal(n).len() >= 1,
        all_digits(decimal(n)),
    decreases n,
{
    if n >= 10 {
        lemma_decimal_is_digits(n / 10);
    }
}

/// Reading a decimal gives back the number it was written from.
pub proof fn lemma_decimal_value(n: nat)
    ensures
        digits_value(decimal(n)) == n,
    decreases n,
{
    if n < 10 {
        assert(decimal(n).drop_last() =~= Seq::<char>::empty());
        assert(digits_value(decimal(n).drop_last()) == 0);
    } else {
        lemma_decimal_value(n / 10);
        assert(decimal(n).drop_last() =~= decimal(n / 10));
    }
}

/// A text that holds digits up to `k`, and none at `k`, starts with exactly
/// `k` digits.
pub proof fn lemma_leading_digits_run(s: Seq<char>, k: int)
    requires
        0 <= k <= s.len(),
        forall|i: int| 0 <= i < k ==> is_digit(#[trigger] s[i]),
        k == s.len() || !is_digit(s[k]),
    ensures
        leading_digits(s) == k,
    decreases k,
{
    if k > 0 {
        let tail = s.drop_first();
        assert forall|i: int| 0 <= i < k - 1 implies is_digit(#[trigger] tail[i]) by {
            assert(tail[i] == s[i + 1]);
        }
        lemma_leading_digits_run(tail, k - 1);
    }
}

/// A longer run of digits writes no smaller a number than a shorter run
/// from the same start.
pub proof fn lemma_value_grows_with_length(s: Seq<char>, j: int, k: int)
    requires
        0 <= j <= k <= s.len(),
    ensures
        digits_value(s.take(j)) <= digits_value(s.take(k)),
    decreases k - j,
{
    if j < k {
        lemma_value_grows_with_length(s, j, k - 1);
        assert(s.take(k).drop_last() =~= s.take(k - 1));
    }
}

/// A decimal, followed by something that does not go on with a digit, reads
/// back as its number and what followed.
pub proof fn lemma_leading_number_of_decimal(n: nat, rest: Seq<char>)
    requires
        rest.len() == 0 || !is_digit(rest[0]),
    ensures
        leading_number(decimal(n) + rest) == Some((n, rest)),
{
    let text = decimal(n) + rest;
    let run = decimal(n).len() as int;
    lemma_decimal_is_digits(n);
    assert forall|i: int| 0 <= i < run implies is_digit(#[trigger] text[i]) by {
        assert(text[i] == decimal(n)[i]);
    }
    assert(run < text.len() ==> text[run] == rest[0]);
    lemma_leading_digits_run(text, run);
    assert(text.take(run) =~= decimal(n));
    assert(text.skip(run) =~= rest);
    lemma_decimal_value(n);
}

/// A word, followed by anything, reads back as what followed.
pub proof fn lemma_after_word_of_concat(word: Seq<char>, rest: Seq<char>)
    ensures
        after_word(word + rest, word) == Some(rest),
{
    let text = word + rest;
    assert(text.take(word.len() as int) =~= word);
    assert(text.skip(word.len() as int) =~= rest);
}

/// Whether `c` is one of `'0'` to `'9'`.
fn holds_digit(c: char) -> (digit: bool)
    ensures
        digit == is_digit(c),
{
    '0' <= c && c <= '9'
}

/// The one-character text of a digit.
fn digit_str(d: u32) -> (s: &'static str)
    requires
        d < 10,
    ensures
        s@ == seq![digit_char(d as nat)],
{
    proof {
        reveal_strlit("0");
        reveal_strlit("1");
        reveal_strlit("2");
        reveal_strlit("3");
        reveal_strlit("4");
        reveal_strlit("5");
        reveal_strlit("6");
        reveal_strlit("7");
        reveal_strlit("8");
        reveal_strlit("9");
    }
    let s = match d {
        0 => "0",
        1 => "1",
        2 => "2",
        3 => "3",
        4 => "4",
        5 => "5",
        6 => "6",
        7 => "7",
        8 => "8",
        _ => "9",
    };
    assert(s@ =~= seq![digit_char(d as nat)]);
    s
}

/// Appends `n` in decimal.
pub(crate) fn push_decimal(out: &mut String, n: u32)
    ensures
        final(out)@ == old(out)@ + decimal(n as nat),
    decreases n,
{
    if n >= 10 {
        push_decimal(out, n / 10);
    }
    out.append(digit_str(n % 10));
    assert(out@ =~= old(out)@ + decimal(n as nat));
}

/// Appends `n` in decimal, with its sign if it is negative.
pub(crate) fn push_signed_decimal(out: &mut String, n: i32)
    ensures
        final(out)@ == old(out)@ + signed_decimal(n as int),
{
    if n < 0 {
        proof {
            reveal_strlit("-");
        }
        out.append("-");
        let magnitude: u32 = (-(n as i64)) as u32;
        push_decimal(out, magnitude);
        assert("-"@ =~= seq!['-']);
        assert(out@ =~= old(out)@ + signed_decimal(n as int));
    } else {
        push_decimal(out, n as u32);
    }
}

/// The characters of `text`.
pub(crate) fn chars_of(text: &str) -> (chars: Vec<char>)
    ensures
        chars@ == text@,
{
    let mut chars: Vec<char> = Vec::new();
    for c in it: text.chars()
        invariant
            chars@ == it.seq().take(it.index() as int),
            it.seq() == text@,
    {
        chars.push(c);
    }
    chars
}

/// Reads `word` at the cursor `at`, and gives the cursor behind it.
pub(crate) fn skip_word(text: &Vec<char>, at: usize, word: &str) -> (next: Option<usize>)
    requires
        at <= text.len(),
    ensures
        match after_word(text@.skip(at as int), word@) {
            Some(rest) => next matches Some(k) && at <= k <= text.len() && text@.skip(k as int)
                == rest,
            None => next is None,
        },
{
    let letters = chars_of(word);
    let n = letters.len();
    if n > text.len() - at {
        return None;
    }
    let ghost tail = text@.skip(at as int);
    let mut i: usize = 0;
    while i < n
        invariant
            i <= n,
            n == letters.len(),
            letters@ == word@,
            at + n <= text.len(),
            tail == text@.skip(at as int),
            forall|j: int| 0 <= j < i ==> text[at + j] == letters[j],
        decreases n - i,
    {
        if text[at + i] != letters[i] {
            proof {
                assert(tail.take(n as int)[i as int] == text[at + i]);
            }
            return None;
        }
        i += 1;
    }
    proof {
        assert(tail.take(n as int) =~= word@);
        assert(tail.skip(n as int) =~= text@.skip(at + n));
    }
    Some(at + n)
}

/// Reads the digits at the cursor `at`, and gives the number they write and
/// the cursor behind them. Gives nothing where no digit stands at the
/// cursor, or where the number is beyond `u32`.
pub(crate) fn read_number(text: &Vec<char>, at: usize) -> (r: Option<(u32, usize)>)
    requires
        at <= text.len(),
    ensures
        match leading_number(text@.skip(at as int)) {
            Some((value, rest)) => if value <= u32::MAX {
                r matches Some((v, next)) && v == value && at < next <= text.len() && text@.skip(
                    next as int,
                ) == rest
            } else {
                r is None
            },
            None => r is None,
        },
{
    let ghost tail = text@.skip(at as int);
    let mut end: usize = at;
    let mut scanning = true;
    while scanning
        invariant
            at <= end <= text.len(),
            forall|j: int| at <= j < end ==> is_digit(#[trigger] text[j]),
            !scanning ==> end == text.len() || !is_digit(text[end as int]),
        decreases text.len() - end + if scanning { 1int } else { 0int },
    {
        if end < text.len() {
            let c = text[end];
            if holds_digit(c) {
                end += 1;
            } else {
                scanning = false;
            }
        } else {
            scanning = false;
        }
    }
    let ghost run = end - at;
    proof {
        assert forall|j: int| 0 <= j < run implies is_digit(#[trigger] tail[j]) by {
            assert(tail[j] == text[at + j]);
        }
        if run < tail.len() {
            assert(tail[run] == text[end as int]);
        }
        lemma_leading_digits_run(tail, run);
    }
    if end == at {
        return None;
    }
    let ghost digits = tail.take(run);
    let mut value: u32 = 0;
    let mut i: usize = at;
    while i < end
        invariant
            at <= i <= end <= text.len(),
            run == end - at,
            tail == text@.skip(at as int),
            digits == tail.take(run),
            leading_digits(tail) == run,
            value == digits_value(digits.take(i - at)),
            forall|j: int| at <= j < end ==> is_digit(#[trigger] text[j]),
        decreases end - i,
    {
        let c = text[i];
        assert(is_digit(text[i as int]));
        let d: u32 = c as u32 - 48;
        let ghost longer = digits.take(i + 1 - at);
        proof {
            assert(longer.drop_last() =~= digits.take(i - at));
            assert(longer.last() == c);
            assert(digits_value(longer) == value * 10 + d);
            lemma_value_grows_with_length(digits, i + 1 - at, run);
            assert(digits.take(run) =~= digits);
        }
        if value > (u32::MAX - d) / 10 {
            assert(digits_value(digits) > u32::MAX);
            return None;
        }
        value = value * 10 + d;
        i += 1;
    }
    proof {
        assert(digits.take(run) =~= digits);
        assert(tail.skip(run) =~= text@.skip(end as int));
    }
    Some((value, end))
}

} // verus!
