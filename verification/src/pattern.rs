//! The shape of a dice expression inside a token: digits, the letter `d`, digits.

use crate::decimal::is_ascii_digit;
use vstd::prelude::*;

verus! {

/// What `regex::Regex::captures` finds in a token for the pattern `(\d+)d(\d+)`: the text of
/// the two groups of the match, or nothing where the pattern matches nowhere.
pub uninterp spec fn regex_groups(token: Seq<char>) -> Option<(Seq<char>, Seq<char>)>;

/// Whether `c` is a digit to the pattern. Within ASCII these are the ten digits `0` to `9`.
/// Beyond ASCII the pattern's class `\d` is a table of the `regex` crate (the Unicode decimal
/// numbers); `c` is in it exactly if the pattern matches the three characters `c`, `d`, `c`.
pub open spec fn is_digit(c: char) -> bool {
    if c <= '\u{7f}' {
        is_ascii_digit(c)
    } else {
        regex_groups(seq![c, 'd', c]) is Some
    }
}

/// Where the longest run of digits that begins at `i` ends: the first position from `i` on
/// that holds no digit, or the length of `s`.
pub open spec fn run_end(s: Seq<char>, i: int) -> int
    decreases s.len() - i,
{
    if 0 <= i < s.len() && is_digit(s[i]) {
        run_end(s, i + 1)
    } else {
        i
    }
}

/// Whether a dice expression begins at `i`: a run of at least one digit, then `d`, then a
/// digit.
pub open spec fn begins_at(s: Seq<char>, i: int) -> bool {
    let mid = run_end(s, i);
    0 <= i < mid && mid + 1 < s.len() && s[mid] == 'd' && is_digit(s[mid + 1])
}

/// The first position from `from` on at which a dice expression begins.
pub open spec fn first_from(s: Seq<char>, from: int) -> Option<int>
    decreases s.len() - from,
{
    if from < 0 || from >= s.len() {
        None
    } else if begins_at(s, from) {
        Some(from)
    } else {
        first_from(s, from + 1)
    }
}

/// The two runs of digits of the first dice expression in `s`: the run before the `d`, taken
/// from where the expression begins, and the whole run after the `d`.
pub open spec fn captured(s: Seq<char>) -> Option<(Seq<char>, Seq<char>)> {
    match first_from(s, 0) {
        None => None,
        Some(start) => {
            let mid = run_end(s, start);
            Some((s.subrange(start, mid), s.subrange(mid + 1, run_end(s, mid + 1))))
        },
    }
}

/// A run of digits ends within the text, holds digits only, and stops at a character that
/// is no digit or at the end of the text.
pub proof fn lemma_run_end(s: Seq<char>, i: int)
    requires
        0 <= i <= s.len(),
    ensures
        i <= run_end(s, i) <= s.len(),
        forall|k: int| i <= k < run_end(s, i) ==> is_digit(#[trigger] s[k]),
        run_end(s, i) < s.len() ==> !is_digit(s[run_end(s, i)]),
    decreases s.len() - i,
{
    if i < s.len() && is_digit(s[i]) {
        lemma_run_end(s, i + 1);
    }
}

/// A stretch of digits that stops at `j` is the run of digits that begins at `i`.
pub proof fn lemma_run_end_is(s: Seq<char>, i: int, j: int)
    requires
        0 <= i <= j <= s.len(),
        forall|k: int| i <= k < j ==> is_digit(#[trigger] s[k]),
        j < s.len() ==> !is_digit(s[j]),
    ensures
        run_end(s, i) == j,
    decreases j - i,
{
    if i < j {
        lemma_run_end_is(s, i + 1, j);
    }
}

/// Where the search finds a position, an expression begins there and at no position
/// between `from` and it; where it finds none, no expression begins from `from` on.
pub proof fn lemma_first_from(s: Seq<char>, from: int)
    requires
        0 <= from,
    ensures
        match first_from(s, from) {
            Some(start) => from <= start < s.len() && begins_at(s, start) && forall|i: int|
                from <= i < start ==> !begins_at(s, i),
            None => forall|i: int| from <= i ==> !begins_at(s, i),
        },
    decreases s.len() - from,
{
    if from >= s.len() {
        assert forall|i: int| from <= i implies !begins_at(s, i) by {
            if i < s.len() {
                lemma_run_end(s, i);
            }
        }
    } else if !begins_at(s, from) {
        lemma_first_from(s, from + 1);
    }
}

/// The views of a pair of captured texts.
pub open spec fn groups_view(groups: Option<(String, String)>) -> Option<(Seq<char>, Seq<char>)> {
    match groups {
        Some((count, sides)) => Some((count@, sides@)),
        None => None,
    }
}

/// Searches `token` with `regex::Regex::captures` for the pattern `(\d+)d(\d+)` and hands out
/// the text of its two groups.
///
/// Believed of the `regex` crate: the search reports the leftmost match; `\d+` takes as
/// many digits as it can; within ASCII `\d` holds the digits `0` to `9` and nothing else;
/// both groups take part in every match. So the groups are those of `captured`, and there
/// are none exactly where no expression begins anywhere in the token.
#[verifier::external_body]
pub(crate) fn captures(token: &str) -> (groups: Option<(String, String)>)
    ensures
        groups_view(groups) == regex_groups(token@),
        groups_view(groups) == captured(token@),
{
    let pattern = regex::Regex::new(r"(\d+)d(\d+)").ok()?;
    let found = pattern.captures(token)?;
    Some((found.get(1)?.as_str().to_string(), found.get(2)?.as_str().to_string()))
}

} // verus!
