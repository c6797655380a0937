//! Decimal numerals: the text of a natural number and the number a text denotes.

use vstd::prelude::*;

verus! {

/// Whether `c` is one of the ten ASCII digits.
pub open spec fn is_ascii_digit(c: char) -> bool {
    '0' <= c && c <= '9'
}

/// The digit character that writes `d`, for `d < 10`.
pub open spec fn digit_char(d: nat) -> char {
    (d + 48) as char
}

/// The number that an ASCII digit writes; zero for any other character.
pub open spec fn digit_value(c: char) -> nat {
    if is_ascii_digit(c) {
        (c as u32 - 48) as nat
    } else {
        0
    }
}

/// The decimal text of `n`, without sign and without leading zeros.
pub open spec fn numeral(n: nat) -> Seq<char>
    decreases n,
{
    if n < 10 {
        seq![digit_char(n)]
    } else {
        numeral(n / 10).push(digit_char(n % 10))
    }
}

/// Whether `s` is a non-empty run of ASCII digits.
pub open spec fn is_numeral(s: Seq<char>) -> bool {
    s.len() > 0 && forall|i: int| 0 <= i < s.len() ==> is_ascii_digit(#[trigger] s[i])
}

/// The number that a run of digits denotes, read in base ten.
pub open spec fn numeral_value(s: Seq<char>) -> nat
    decreases s.len(),
{
    if s.len() == 0 {
        0
    } else {
        numeral_value(s.drop_last()) * 10 + digit_value(s.last())
    }
}

/// A digit character is an ASCII digit and writes the digit it was made from.
pub proof fn lemma_digit_roundtrip(d: nat)
    requires
        d < 10,
    ensures
        is_ascii_digit(digit_char(d)),
        digit_value(digit_char(d)) == d,
{
}

/// The text of a number is a run of ASCII digits, and denotes that number.
pub proof fn lemma_numeral_roundtrip(n: nat)
    ensures
        is_numeral(numeral(n)),
        numeral_value(numeral(n)) == n,
    decreases n,
{
    if n < 10 {
        let s = numeral(n);
        lemma_digit_roundtrip(n);
        assert(s.drop_last() =~= Seq::<char>::empty());
        assert(numeral_value(s.drop_last()) == 0);
    } else {
        let head = numeral(n / 10);
        let s = numeral(n);
        lemma_numeral_roundtrip(n / 10);
        lemma_digit_roundtrip(n % 10);
        assert(s.drop_last() =~= head);
        assert(s.last() == digit_char(n % 10));
        assert forall|i: int| 0 <= i < s.len() implies is_ascii_digit(#[trigger] s[i]) by {
            if i < head.len() {
                assert(s[i] == head[i]);
            }
        }
    }
}

/// The text of a number has at least one character, and no more than the text of a larger one.
pub proof fn lemma_numeral_len_monotonic(n: nat, m: nat)
    requires
        n <= m,
    ensures
        1 <= numeral(n).len() <= numeral(m).len(),
    decreases m,
{
    if n >= 10 {
        lemma_numeral_len_monotonic(n / 10, m / 10);
    } else if m >= 10 {
        lemma_numeral_len_monotonic(0, m / 10);
    }
}

/// What a prefix of a run of digits denotes is no more than what the run denotes.
pub proof fn lemma_numeral_value_prefix(s: Seq<char>, k: int)
    requires
        0 <= k <= s.len(),
    ensures
        numeral_value(s.take(k)) <= numeral_value(s),
    decreases s.len() - k,
{
    if k == s.len() {
        assert(s.take(k) =~= s);
    } else {
        lemma_numeral_value_prefix(s, k + 1);
        assert(s.take(k + 1).drop_last() =~= s.take(k));
    }
}

/// Where the run of ASCII digits at the end of `s` begins.
pub open spec fn last_run_start(s: Seq<char>) -> int
    decreases s.len(),
{
    if s.len() > 0 && is_ascii_digit(s.last()) {
        last_run_start(s.drop_last())
    } else {
        s.len() as int
    }
}

/// The number that a line of text shows at its end: what its last run of ASCII digits
/// denotes.
pub open spec fn shown_number(s: Seq<char>) -> nat {
    numeral_value(s.subrange(last_run_start(s), s.len() as int))
}

/// Digits behind a text that does not itself end in a digit are the last run of digits of
/// the whole.
pub proof fn lemma_last_run_start(before: Seq<char>, digits: Seq<char>)
    requires
        before.len() == 0 || !is_ascii_digit(before.last()),
        forall|i: int| 0 <= i < digits.len() ==> is_ascii_digit(#[trigger] digits[i]),
    ensures
        last_run_start(before + digits) == before.len(),
    decreases digits.len(),
{
    let s = before + digits;
    if digits.len() == 0 {
        assert(s =~= before);
    } else {
        assert(s.last() == digits[digits.len() - 1]);
        assert(s.drop_last() =~= before + digits.drop_last());
        lemma_last_run_start(before, digits.drop_last());
    }
}

/// A line that ends in the text of `n`, behind something that does not end in a digit,
/// shows the number `n`.
pub proof fn lemma_shown_number(before: Seq<char>, n: nat)
    requires
        before.len() == 0 || !is_ascii_digit(before.last()),
    ensures
        shown_number(before + numeral(n)) == n,
{
    let s = before + numeral(n);
    lemma_numeral_roundtrip(n);
    lemma_last_run_start(before, numeral(n));
    assert(s.subrange(before.len() as int, s.len() as int) =~= numeral(n));
}

/// The one-character text of the digit `d`.
fn digit_text(d: u8) -> (t: &'static str)
    requires
        d < 10,
    ensures
        t@ == seq![digit_char(d as nat)],
{
    proof {
        reveal_strlit("0");
        reveal_strlit("1");
        reveal_strlit("2");
        reveal_strlit("3");
        reveal_strlit("4");
        reveal_strlit("5");
        reveal_strlit("6");
        reveal_strlit("7");
        reveal_strlit("8");
        reveal_strlit("9");
    }
    let t = match d {
        0 => "0",
        1 => "1",
        2 => "2",
        3 => "3",
        4 => "4",
        5 => "5",
        6 => "6",
        7 => "7",
        8 => "8",
        _ => "9",
    };
    assert(t@ =~= seq![digit_char(d as nat)]);
    t
}

/// Appends the decimal text of `n` to `out`.
pub fn push_numeral(out: &mut String, n: u128)
    ensures
        final(out)@ == old(out)@ + numeral(n as nat),
    decreases n,
{
    if n >= 10 {
        push_numeral(out, n / 10);
    }
    let d: u8 = (n % 10) as u8;
    out.append(digit_text(d));
    assert(out@ =~= old(out)@ + numeral(n as nat));
}

/// The decimal text of `n`.
pub fn to_numeral(n: u128) -> (text: String)
    ensures
        text@ == numeral(n as nat),
{
    let mut text = String::new();
    push_numeral(&mut text, n);
    assert(text@ =~= numeral(n as nat));
    text
}

/// What `numeral_value` gives for a text that `usize` can hold, and nothing for any other text.
pub open spec fn parsed(s: Seq<char>) -> Option<usize> {
    if is_numeral(s) && numeral_value(s) <= usize::MAX {
        Some(numeral_value(s) as usize)
    } else {
        None
    }
}

/// Reads `s` as a decimal number: a non-empty run of ASCII digits whose value fits in `usize`.
pub fn parse_numeral(s: &str) -> (r: Option<usize>)
    ensures
        r == parsed(s@),
{
    let mut acc: usize = 0;
    let mut empty = true;
    for c in it: s.chars()
        invariant
            it.seq() == s@,
            empty <==> it.index() == 0,
            forall|i: int| 0 <= i < it.index() ==> is_ascii_digit(#[trigger] s@[i]),
            acc == numeral_value(s@.take(it.index() as int)),
    {
        let ghost k = it.index() as int;
        proof {
            assert(s@.take(k + 1).drop_last() =~= s@.take(k));
            lemma_numeral_value_prefix(s@, k + 1);
        }
        if c < '0' || c > '9' {
            return None;
        }
        let d: usize = (c as u32 - 48) as usize;
        let shifted = match acc.checked_mul(10) {
            Some(v) => v,
            None => { return None; },
        };
        acc = match shifted.checked_add(d) {
            Some(v) => v,
            None => { return None; },
        };
        empty = false;
    }
    assert(s@.take(s@.len() as int) =~= s@);
    if empty {
        None
    } else {
        Some(acc)
    }
}

} // verus!
