//! Scraping the four problem attributes out of a fetched page's raw markup.
//!
//! Each field is anchored to a textual marker of the page's embedded
//! JSON-like payload; the first occurrence in document order wins.
//! Extraction is all-or-nothing: if any field is absent the whole run fails.

use vstd::prelude::*;
use vstd::string::StrSliceExecFns;

use crate::attrs::TaskAttrs;
use crate::text::find_field;
use crate::text::find_from;
use crate::text::lemma_normalize_first;
use crate::text::lemma_normalize_no_escaped_newline;
use crate::text::normalize_newlines;
use crate::text::run_end;
use crate::text::spec_find;
use crate::text::spec_find_field;
use crate::text::spec_normalize;
use crate::text::spec_run_end;
use crate::text::CharClass;

verus! {

/// The marker that anchors the question id: digits follow it.
pub open spec fn qid_marker() -> Seq<char> {
    "questionId\":\""@
}

/// The marker that anchors the slug: a quoted string follows it.
pub open spec fn slug_marker() -> Seq<char> {
    "titleSlug\":\""@
}

/// The marker that anchors the display title: a quoted string follows it.
pub open spec fn title_marker() -> Seq<char> {
    "title\":\""@
}

/// The marker that opens the Java code entry.
pub open spec fn java_marker() -> Seq<char> {
    "{\"lang\":\"Java\""@
}

/// The marker that opens the quoted code body inside a code entry.
pub open spec fn code_marker() -> Seq<char> {
    "\"code\":\""@
}

/// The marker that closes the Java code body and opens the next language
/// entry.
pub open spec fn python_marker() -> Seq<char> {
    "\"},{\"lang\":\"Python\""@
}

/// The maximal run of characters of `class` that follows the first
/// occurrence of `marker`, or `None` when no occurrence is followed by at
/// least one such character.
pub open spec fn spec_field(text: Seq<char>, marker: Seq<char>, class: CharClass) -> Option<
    Seq<char>,
> {
    match spec_find_field(text, marker, class, 0) {
        Some(i) => Some(
            text.subrange(i + marker.len(), spec_run_end(text, class, i + marker.len())),
        ),
        None => None,
    }
}

/// The question id scraped from `text`: the digits after the id marker.
pub open spec fn spec_question_id(text: Seq<char>) -> Option<Seq<char>> {
    spec_field(text, qid_marker(), CharClass::Digit)
}

/// The slug scraped from `text`: the quoted string after the slug marker.
pub open spec fn spec_slug(text: Seq<char>) -> Option<Seq<char>> {
    spec_field(text, slug_marker(), CharClass::NotQuote)
}

/// The title scraped from `text`: the quoted string after the title marker.
pub open spec fn spec_title(text: Seq<char>) -> Option<Seq<char>> {
    spec_field(text, title_marker(), CharClass::NotQuote)
}

/// The raw code snippet scraped from `text`: everything between the quoted
/// code body of the first Java entry and the following Python entry.
pub open spec fn spec_snippet_raw(text: Seq<char>) -> Option<Seq<char>> {
    match spec_find(text, java_marker(), 0) {
        None => None,
        Some(j) => match spec_find(text, code_marker(), j + java_marker().len()) {
            None => None,
            Some(c) => {
                let start = c + code_marker().len();
                match spec_find(text, python_marker(), start + 1) {
                    None => None,
                    Some(p) => Some(text.subrange(start, p)),
                }
            },
        },
    }
}

/// The code snippet scraped from `text`, with escaped newlines turned into
/// actual line breaks.
pub open spec fn spec_snippet(text: Seq<char>) -> Option<Seq<char>> {
    match spec_snippet_raw(text) {
        Some(raw) => Some(spec_normalize(raw)),
        None => None,
    }
}

/// An extracted snippet never retains a literal backslash-n pair: newline
/// normalization turned every such pair of the page text into an actual
/// line break.
pub proof fn lemma_snippet_has_no_escaped_newline(text: Seq<char>, s: Seq<char>)
    requires
        spec_snippet(text) == Some(s),
    ensures
        forall|i: int|
            0 <= i && i + 1 < s.len() ==> !(#[trigger] s[i] == '\\' && s[i + 1] == 'n'),
{
    let raw = spec_snippet_raw(text)->Some_0;
    assert(s == spec_normalize(raw));
    lemma_normalize_no_escaped_newline(raw);
}

/// Which required field was not found in the fetched text.
#[derive(Clone, Copy, Debug, PartialEq, Eq, Structural)]
pub enum ExtractError {
    MissingQuestionId,
    MissingSlug,
    MissingTitle,
    MissingSnippet,
}

/// The field of `class` after the first occurrence of `marker`, as an owned
/// string; `None` when the pattern is absent.
fn capture_field(text: &str, marker: &str, class: CharClass) -> (r: Option<String>)
    ensures
        match r {
            Some(s) => spec_field(text@, marker@, class) == Some(s@) && s@.len() > 0,
            None => spec_field(text@, marker@, class) is None,
        },
{
    match find_field(text, marker, class) {
        None => None,
        Some(i) => {
            let n = text.unicode_len();
            let m = marker.unicode_len();
            let start = i + m;
            let end = run_end(text, class, start);
            proof {
                // the character at `start` is in the class, so the run is
                // nonempty
                assert(end > start);
            }
            Some(text.substring_char(start, end).to_owned())
        },
    }
}

/// Scrapes the four problem attributes from the fetched page text.
///
/// Succeeds exactly when all four patterns are present, and then every field
/// is nonempty; otherwise reports the first missing field, in the order
/// question id, slug, title, snippet.
pub fn parse_task_attributes(input: String) -> (r: Result<TaskAttrs, ExtractError>)
    ensures
        match r {
            Ok(attrs) => {
                &&& spec_question_id(input@) == Some(attrs.question_id@)
                &&& spec_slug(input@) == Some(attrs.slug@)
                &&& spec_title(input@) == Some(attrs.title@)
                &&& spec_snippet(input@) == Some(attrs.snippet@)
                &&& attrs.question_id@.len() > 0
                &&& attrs.slug@.len() > 0
                &&& attrs.title@.len() > 0
                &&& attrs.snippet@.len() > 0
            },
            Err(e) => match e {
                ExtractError::MissingQuestionId => spec_question_id(input@) is None,
                ExtractError::MissingSlug => spec_question_id(input@) is Some && spec_slug(input@)
                    is None,
                ExtractError::MissingTitle => spec_question_id(input@) is Some && spec_slug(input@)
                    is Some && spec_title(input@) is None,
                ExtractError::MissingSnippet => spec_question_id(input@) is Some && spec_slug(
                    input@,
                ) is Some && spec_title(input@) is Some && spec_snippet(input@) is None,
            },
        },
{
    let text = input.as_str();
    let question_id = match capture_field(text, "questionId\":\"", CharClass::Digit) {
        Some(s) => s,
        None => {
            return Err(ExtractError::MissingQuestionId);
        },
    };
    let slug = match capture_field(text, "titleSlug\":\"", CharClass::NotQuote) {
        Some(s) => s,
        None => {
            return Err(ExtractError::MissingSlug);
        },
    };
    let title = match capture_field(text, "title\":\"", CharClass::NotQuote) {
        Some(s) => s,
        None => {
            return Err(ExtractError::MissingTitle);
        },
    };
    let snippet = match capture_snippet(text) {
        Some(s) => s,
        None => {
            return Err(ExtractError::MissingSnippet);
        },
    };
    Ok(TaskAttrs { question_id, slug, title, snippet })
}

/// The normalized code snippet of the first Java entry of `text`, or `None`
/// when the entry or its delimiters are absent.
fn capture_snippet(text: &str) -> (r: Option<String>)
    ensures
        match r {
            Some(s) => spec_snippet(text@) == Some(s@) && s@.len() > 0,
            None => spec_snippet(text@) is None,
        },
{
    let n = text.unicode_len();
    let j = match find_from(text, "{\"lang\":\"Java\"", 0) {
        Some(j) => j,
        None => {
            return None;
        },
    };
    let jm = "{\"lang\":\"Java\"".unicode_len();
    let c = match find_from(text, "\"code\":\"", j + jm) {
        Some(c) => c,
        None => {
            return None;
        },
    };
    let cm = "\"code\":\"".unicode_len();
    let start = c + cm;
    if start >= n {
        proof {
            reveal_strlit("\"},{\"lang\":\"Python\"");
            assert(python_marker().len() > 0);
        }
        return None;
    }
    let p = match find_from(text, "\"},{\"lang\":\"Python\"", start + 1) {
        Some(p) => p,
        None => {
            return None;
        },
    };
    let raw = text.substring_char(start, p);
    proof {
        lemma_normalize_first(raw@);
    }
    Some(normalize_newlines(raw))
}

} // verus!
