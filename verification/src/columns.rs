//! Display columns: how wide a text stands in a terminal of fixed pitch.

use vstd::prelude::*;

verus! {

/// The number of columns that `unicode_width::UnicodeWidthStr::width` gives for a text.
pub uninterp spec fn str_width(s: Seq<char>) -> nat;

/// Whether `c` is a printable ASCII character, the space included.
pub open spec fn is_plain(c: char) -> bool {
    ' ' <= c && c <= '~'
}

/// Whether `s` holds printable ASCII characters only.
pub open spec fn is_plain_text(s: Seq<char>) -> bool {
    forall|i: int| 0 <= i < s.len() ==> is_plain(#[trigger] s[i])
}

/// The display columns of a text. Each printable ASCII character at its end takes one
/// column; what stands before them, up to a last character of another kind, takes what
/// `str_width` gives for it.
pub open spec fn columns(s: Seq<char>) -> nat
    decreases s.len(),
{
    if s.len() == 0 {
        0
    } else if is_plain(s.last()) {
        columns(s.drop_last()) + 1
    } else {
        str_width(s)
    }
}

/// A text of printable ASCII characters takes one column for each.
pub proof fn lemma_columns_plain(s: Seq<char>)
    requires
        is_plain_text(s),
    ensures
        columns(s) == s.len(),
    decreases s.len(),
{
    if s.len() > 0 {
        lemma_columns_plain(s.drop_last());
    }
}

/// Printable ASCII characters behind a text add one column each to it.
pub proof fn lemma_columns_append(s: Seq<char>, t: Seq<char>)
    requires
        is_plain_text(t),
    ensures
        columns(s + t) == columns(s) + t.len(),
    decreases t.len(),
{
    if t.len() == 0 {
        assert(s + t =~= s);
    } else {
        lemma_columns_append(s, t.drop_last());
        assert((s + t).drop_last() =~= s + t.drop_last());
    }
}

/// Measures `s` with `unicode_width::UnicodeWidthStr::width`.
///
/// Believed of the `unicode-width` crate: the width of a text is a function of its
/// characters; the empty text has width zero; and a printable ASCII character at the end of
/// a text adds one column to the width of what stands before it.
#[verifier::external_body]
pub(crate) fn measure(s: &str) -> (w: usize)
    ensures
        w == str_width(s@),
        w == columns(s@),
{
    unicode_width::UnicodeWidthStr::width(s)
}

} // verus!
