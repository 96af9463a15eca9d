//! Verified text scanning: literal substring search, capture of character
//! runs, placeholder replacement, and escaped-newline normalization.

use vstd::prelude::*;
use vstd::string::StrSliceExecFns;
use vstd::string::StringExecFns;

verus! {

/// True when `pat` occurs in `text` starting exactly at index `i`.
pub open spec fn spec_match_at(text: Seq<char>, pat: Seq<char>, i: int) -> bool {
    &&& 0 <= i
    &&& i + pat.len() <= text.len()
    &&& text.subrange(i, i + pat.len()) == pat
}

/// Index of the first occurrence of `pat` in `text` at or after `from`,
/// or `None` when there is none.
pub open spec fn spec_find(text: Seq<char>, pat: Seq<char>, from: int) -> Option<int>
    recommends
        0 <= from,
    decreases text.len() - from + 1,
{
    if from + pat.len() > text.len() {
        None
    } else if text.subrange(from, from + pat.len()) == pat {
        Some(from)
    } else {
        spec_find(text, pat, from + 1)
    }
}

/// A one-character class that a scraped field is made of.
#[derive(Clone, Copy, Debug)]
pub enum CharClass {
    /// A decimal digit.
    Digit,
    /// Any character but a double quote.
    NotQuote,
}

/// Whether `c` belongs to `class`.
pub open spec fn spec_in_class(class: CharClass, c: char) -> bool {
    match class {
        CharClass::Digit => '0' <= c && c <= '9',
        CharClass::NotQuote => c != '"',
    }
}

/// Index of the first occurrence of `marker` at or after `from` that is
/// immediately followed by at least one character of `class`.
pub open spec fn spec_find_field(
    text: Seq<char>,
    marker: Seq<char>,
    class: CharClass,
    from: int,
) -> Option<int>
    recommends
        0 <= from,
    decreases text.len() - from,
{
    if from + marker.len() + 1 > text.len() {
        None
    } else if text.subrange(from, from + marker.len()) == marker && spec_in_class(
        class,
        text[from + marker.len()],
    ) {
        Some(from)
    } else {
        spec_find_field(text, marker, class, from + 1)
    }
}

/// The end (exclusive) of the maximal run of characters of `class` that
/// starts at index `i`.
pub open spec fn spec_run_end(text: Seq<char>, class: CharClass, i: int) -> int
    recommends
        0 <= i <= text.len(),
    decreases text.len() - i,
{
    if 0 <= i < text.len() && spec_in_class(class, text[i]) {
        spec_run_end(text, class, i + 1)
    } else {
        i
    }
}

/// `s` with every occurrence of `pat` replaced by `rep`, leftmost first and
/// without overlap, as `str::replace` does it.
pub open spec fn spec_replace(s: Seq<char>, pat: Seq<char>, rep: Seq<char>) -> Seq<char>
    recommends
        pat.len() > 0,
    decreases s.len(),
    when pat.len() > 0
{
    if s.len() < pat.len() {
        s
    } else if s.subrange(0, pat.len() as int) == pat {
        rep + spec_replace(s.skip(pat.len() as int), pat, rep)
    } else {
        seq![s[0]] + spec_replace(s.skip(1), pat, rep)
    }
}

/// `s` with every two-character backslash-n sequence turned into an actual
/// newline character, leftmost first and without overlap.
pub open spec fn spec_normalize(s: Seq<char>) -> Seq<char>
    decreases s.len(),
{
    if s.len() == 0 {
        Seq::empty()
    } else if s.len() >= 2 && s[0] == '\\' && s[1] == 'n' {
        seq!['\n'] + spec_normalize(s.skip(2))
    } else {
        seq![s[0]] + spec_normalize(s.skip(1))
    }
}

/// Whether `pat` occurs in `text` at index `i`.
pub(crate) fn match_at(text: &str, pat: &str, i: usize) -> (r: bool)
    ensures
        r == spec_match_at(text@, pat@, i as int),
{
    let n = text.unicode_len();
    let m = pat.unicode_len();
    if i > n || m > n - i {
        return false;
    }
    let mut j: usize = 0;
    while j < m
        invariant
            j <= m,
            i + m <= n,
            n == text@.len(),
            m == pat@.len(),
            forall|k: int| 0 <= k < j ==> text@[i + k] == pat@[k],
        decreases m - j,
    {
        let tc = text.get_char(i + j);
        let pc = pat.get_char(j);
        if tc != pc {
            proof {
                assert(text@.subrange(i as int, i + m)[j as int] == text@[i + j]);
            }
            return false;
        }
        j = j + 1;
    }
    proof {
        assert(text@.subrange(i as int, i + m) =~= pat@);
    }
    true
}

/// First occurrence of `pat` in `text` at or after `from`.
pub(crate) fn find_from(text: &str, pat: &str, from: usize) -> (r: Option<usize>)
    ensures
        match r {
            Some(i) => {
                &&& spec_find(text@, pat@, from as int) == Some(i as int)
                &&& from <= i
                &&& spec_match_at(text@, pat@, i as int)
            },
            None => spec_find(text@, pat@, from as int) is None,
        },
{
    let n = text.unicode_len();
    let m = pat.unicode_len();
    if from > n {
        return None;
    }
    if m == 0 {
        proof {
            assert(text@.subrange(from as int, from as int) =~= pat@);
        }
        return Some(from);
    }
    if m > n - from {
        return None;
    }
    let mut i = from;
    while m <= n - i
        invariant
            from <= i,
            i <= n,
            n == text@.len(),
            m == pat@.len(),
            m >= 1,
            spec_find(text@, pat@, from as int) == spec_find(text@, pat@, i as int),
        decreases n - i,
    {
        if match_at(text, pat, i) {
            return Some(i);
        }
        i = i + 1;
    }
    None
}

/// Whether index `i` is inside `text` and holds a character of `class`.
fn class_char_at(text: &str, class: CharClass, i: usize) -> (r: bool)
    requires
        i <= text@.len(),
    ensures
        r == (i < text@.len() && spec_in_class(class, text@[i as int])),
{
    let n = text.unicode_len();
    if i >= n {
        return false;
    }
    let c = text.get_char(i);
    match class {
        CharClass::Digit => '0' <= c && c <= '9',
        CharClass::NotQuote => c != '"',
    }
}

/// End of the maximal run of characters of `class` starting at `start`.
pub(crate) fn run_end(text: &str, class: CharClass, start: usize) -> (r: usize)
    requires
        start <= text@.len(),
    ensures
        r as int == spec_run_end(text@, class, start as int),
        start <= r <= text@.len(),
        forall|k: int| start <= k < r ==> spec_in_class(class, text@[k]),
        r < text@.len() ==> !spec_in_class(class, text@[r as int]),
{
    let n = text.unicode_len();
    let mut i = start;
    while class_char_at(text, class, i)
        invariant
            n == text@.len(),
            start <= i <= n,
            spec_run_end(text@, class, start as int) == spec_run_end(text@, class, i as int),
            forall|k: int| start <= k < i ==> spec_in_class(class, text@[k]),
        decreases text@.len() - i,
    {
        i = i + 1;
    }
    i
}

/// First occurrence of `marker` in `text` followed by a character of
/// `class`, searching from the start of `text`.
pub(crate) fn find_field(text: &str, marker: &str, class: CharClass) -> (r: Option<usize>)
    ensures
        match r {
            Some(i) => {
                &&& spec_find_field(text@, marker@, class, 0) == Some(i as int)
                &&& spec_match_at(text@, marker@, i as int)
                &&& i + marker@.len() + 1 <= text@.len()
                &&& spec_in_class(class, text@[i + marker@.len()])
            },
            None => spec_find_field(text@, marker@, class, 0) is None,
        },
{
    let n = text.unicode_len();
    let m = marker.unicode_len();
    if n == 0 || m > n - 1 {
        return None;
    }
    let mut i: usize = 0;
    while n - i > m
        invariant
            i <= n,
            n == text@.len(),
            m == marker@.len(),
            spec_find_field(text@, marker@, class, 0) == spec_find_field(
                text@,
                marker@,
                class,
                i as int,
            ),
        decreases n - i,
    {
        if match_at(text, marker, i) && class_char_at(text, class, i + m) {
            return Some(i);
        }
        i = i + 1;
    }
    None
}

/// `text` with every occurrence of `pat` replaced by `rep`, leftmost first
/// and without overlap.
pub(crate) fn replace_all(text: &str, pat: &str, rep: &str) -> (r: String)
    requires
        pat@.len() > 0,
    ensures
        r@ == spec_replace(text@, pat@, rep@),
{
    let n = text.unicode_len();
    let m = pat.unicode_len();
    let mut out = String::new();
    let mut i: usize = 0;
    proof {
        assert(text@.skip(0) =~= text@);
        assert(out@ + spec_replace(text@, pat@, rep@) =~= spec_replace(text@, pat@, rep@));
    }
    while m <= n - i && i < n
        invariant
            i <= n,
            n == text@.len(),
            m == pat@.len(),
            m > 0,
            spec_replace(text@, pat@, rep@) == out@ + spec_replace(text@.skip(i as int), pat@, rep@),
        decreases n - i,
    {
        proof {
            assert(text@.skip(i as int).len() == n - i);
        }
        if match_at(text, pat, i) {
            proof {
                assert(text@.skip(i as int).subrange(0, m as int) =~= text@.subrange(
                    i as int,
                    i + m,
                ));
                assert(text@.skip(i as int).skip(m as int) =~= text@.skip(i + m));
            }
            out.append(rep);
            i = i + m;
        } else {
            proof {
                assert(text@.skip(i as int).subrange(0, m as int) =~= text@.subrange(
                    i as int,
                    i + m,
                ));
                assert(text@.skip(i as int)[0] == text@[i as int]);
                assert(text@.skip(i as int).skip(1) =~= text@.skip(i + 1));
                assert(text@.subrange(i as int, i + 1) =~= seq![text@[i as int]]);
            }
            out.append(text.substring_char(i, i + 1));
            i = i + 1;
        }
    }
    proof {
        assert(text@.skip(i as int).len() == n - i);
        assert(spec_replace(text@.skip(i as int), pat@, rep@) == text@.skip(i as int));
        assert(text@.subrange(i as int, n as int) =~= text@.skip(i as int));
    }
    let tail = text.substring_char(i, n);
    out.append(tail);
    out
}

/// `text` with every two-character backslash-n sequence turned into an
/// actual newline.
pub(crate) fn normalize_newlines(text: &str) -> (r: String)
    ensures
        r@ == spec_normalize(text@),
{
    proof {
        reveal_strlit("\n");
    }
    let n = text.unicode_len();
    let mut out = String::new();
    let mut i: usize = 0;
    proof {
        assert(text@.skip(0) =~= text@);
        assert(out@ + spec_normalize(text@) =~= spec_normalize(text@));
    }
    while i < n
        invariant
            i <= n,
            n == text@.len(),
            spec_normalize(text@) == out@ + spec_normalize(text@.skip(i as int)),
        decreases n - i,
    {
        proof {
            reveal_strlit("\n");
            assert(text@.skip(i as int).len() == n - i);
            assert(text@.skip(i as int)[0] == text@[i as int]);
        }
        let c = text.get_char(i);
        if c == '\\' && i + 1 < n && text.get_char(i + 1) == 'n' {
            proof {
                assert(text@.skip(i as int)[1] == text@[i + 1]);
                assert(text@.skip(i as int).skip(2) =~= text@.skip(i + 2));
            }
            out.append("\n");
            i = i + 2;
        } else {
            proof {
                if text@.skip(i as int).len() >= 2 {
                    assert(text@.skip(i as int)[1] == text@[i + 1]);
                }
                assert(text@.skip(i as int).skip(1) =~= text@.skip(i + 1));
                assert(text@.subrange(i as int, i + 1) =~= seq![text@[i as int]]);
            }
            out.append(text.substring_char(i, i + 1));
            i = i + 1;
        }
    }
    proof {
        assert(text@.skip(i as int).len() == 0);
        assert(text@.skip(i as int) =~= Seq::<char>::empty());
    }
    out
}

/// A nonempty text normalizes to a nonempty text, and its first character is
/// either a newline or the text's own first character.
pub(crate) proof fn lemma_normalize_first(s: Seq<char>)
    requires
        s.len() > 0,
    ensures
        spec_normalize(s).len() > 0,
        spec_normalize(s)[0] == '\n' || spec_normalize(s)[0] == s[0],
{
}

/// At no position does the normalized text hold a backslash followed by the
/// letter `n`: every such pair of the source was turned into a newline.
proof fn lemma_normalize_no_pair_at(s: Seq<char>, i: int)
    requires
        0 <= i,
        i + 1 < spec_normalize(s).len(),
    ensures
        !(spec_normalize(s)[i] == '\\' && spec_normalize(s)[i + 1] == 'n'),
    decreases s.len(),
{
    let r = spec_normalize(s);
    if s.len() == 0 {
        // r is empty; the bounds are impossible
    } else if s.len() >= 2 && s[0] == '\\' && s[1] == 'n' {
        let rest = s.skip(2);
        assert(r == seq!['\n'] + spec_normalize(rest));
        if i == 0 {
            assert(r[0] == '\n');
        } else {
            assert(r[i] == spec_normalize(rest)[i - 1]);
            assert(r[i + 1] == spec_normalize(rest)[i]);
            lemma_normalize_no_pair_at(rest, i - 1);
        }
    } else {
        let rest = s.skip(1);
        assert(r == seq![s[0]] + spec_normalize(rest));
        if i == 0 {
            if s[0] == '\\' {
                // the next source character is not 'n', and normalization
                // keeps it or turns a pair into a newline
                assert(rest.len() > 0);
                lemma_normalize_first(rest);
                assert(r[1] == spec_normalize(rest)[0]);
                if spec_normalize(rest)[0] == 'n' {
                    assert(spec_normalize(rest)[0] == rest[0]);
                    assert(rest[0] == s[1]);
                    assert(!(s.len() >= 2 && s[0] == '\\' && s[1] == 'n'));
                    assert(false);
                }
            }
        } else {
            assert(r[i] == spec_normalize(rest)[i - 1]);
            assert(r[i + 1] == spec_normalize(rest)[i]);
            lemma_normalize_no_pair_at(rest, i - 1);
        }
    }
}

/// Newline normalization leaves no literal backslash-n pair behind: in the
/// normalized text, no backslash is immediately followed by the letter `n`.
pub proof fn lemma_normalize_no_escaped_newline(s: Seq<char>)
    ensures
        forall|i: int|
            0 <= i && i + 1 < spec_normalize(s).len() ==> !(#[trigger] spec_normalize(s)[i]
                == '\\' && spec_normalize(s)[i + 1] == 'n'),
{
    assert forall|i: int|
        0 <= i && i + 1 < spec_normalize(s).len() implies !(#[trigger] spec_normalize(s)[i]
        == '\\' && spec_normalize(s)[i + 1] == 'n') by {
        lemma_normalize_no_pair_at(s, i);
    }
}

} // verus!
