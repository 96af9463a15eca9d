use leetgen::attrs::TaskAttrs;
use leetgen::extract::parse_task_attributes;
use leetgen::extract::ExtractError;

#[test]
fn test_package_name() {
    let task_attrs = TaskAttrs::new(
        "345",
        "Some examplary title",
        "some-examplary-title",
        "java code (ignored)",
    );

    assert_eq!("_0345_some_examplary_title", task_attrs.package_name())
}

#[test]
fn test_package_name_is_pure() {
    let task_attrs = TaskAttrs::new(
        "345",
        "Some examplary title",
        "some-examplary-title",
        "java code (ignored)",
    );

    assert_eq!(task_attrs.package_name(), task_attrs.package_name());
    assert_eq!("_0345_some_examplary_title", task_attrs.package_name());
}

#[test]
fn test_package_name_long_id_kept() {
    let task_attrs = TaskAttrs::new("12345", "A Title", "a-title", "snippet");
    assert_eq!("_12345_a_title", task_attrs.package_name());
}

#[test]
fn test_package_name_width_four_id() {
    let task_attrs = TaskAttrs::new("1234", "A Title", "a-title", "snippet");
    assert_eq!("_1234_a_title", task_attrs.package_name());
}

#[test]
fn test_parse_task_attributes() {
    let text_input: String = String::from(
        "<html><head><title>page</title></head><body><script>var pageData = {\"data\":{\"question\":{\"questionId\":\"83\",\"questionFrontendId\":\"83\",\"boundTopicId\":null,\"title\":\"Remove Duplicates from Sorted List\",\"titleSlug\":\"remove-duplicates-from-sorted-list\",\"content\":\"<p>Given the head of a sorted linked list.</p>\",\"codeSnippets\":[{\"lang\":\"C++\",\"langSlug\":\"cpp\",\"code\":\"class Solution: cpp\"},{\"lang\":\"Java\",\"langSlug\":\"java\",\"code\":\"class Solution {\\n    public ListNode deleteDuplicates(ListNode head) {\\n        \\n    }\\n}\"},{\"lang\":\"Python\",\"langSlug\":\"python\",\"code\":\"class Solution: py\"}]}}};</script></body></html>",
    );
    let actual_task_attrs = parse_task_attributes(text_input).unwrap();
    let expected_task_attrs = TaskAttrs::new(
        "83",
        "Remove Duplicates from Sorted List",
        "remove-duplicates-from-sorted-list",
        "java code (ignored)",
    );
    assert_eq!(
        expected_task_attrs.question_id,
        actual_task_attrs.question_id
    );
    assert_eq!(expected_task_attrs.title, actual_task_attrs.title);
    assert_eq!(expected_task_attrs.slug, actual_task_attrs.slug);
    assert!(actual_task_attrs.snippet.len() > 0);
}

#[test]
fn test_extract_is_all_or_nothing_without_title() {
    let text_input: String = String::from(
        "{\"questionId\":\"83\",\"titleSlug\":\"remove-duplicates-from-sorted-list\",\"codeSnippets\":[{\"lang\":\"Java\",\"langSlug\":\"java\",\"code\":\"class Solution {}\"},{\"lang\":\"Python\",\"code\":\"pass\"}]}",
    );
    let result = parse_task_attributes(text_input);
    assert_eq!(result, Err(ExtractError::MissingTitle));
}

#[test]
fn test_extract_missing_question_id() {
    let text_input: String = String::from(
        "{\"title\":\"Two Sum\",\"titleSlug\":\"two-sum\",\"codeSnippets\":[{\"lang\":\"Java\",\"code\":\"x\"},{\"lang\":\"Python\",\"code\":\"y\"}]}",
    );
    let result = parse_task_attributes(text_input);
    assert_eq!(result, Err(ExtractError::MissingQuestionId));
}

#[test]
fn test_extract_missing_slug() {
    let text_input: String = String::from(
        "{\"questionId\":\"1\",\"title\":\"Two Sum\",\"codeSnippets\":[{\"lang\":\"Java\",\"code\":\"x\"},{\"lang\":\"Python\",\"code\":\"y\"}]}",
    );
    let result = parse_task_attributes(text_input);
    assert_eq!(result, Err(ExtractError::MissingSlug));
}

#[test]
fn test_extract_missing_snippet() {
    let text_input: String = String::from(
        "{\"questionId\":\"1\",\"title\":\"Two Sum\",\"titleSlug\":\"two-sum\",\"codeSnippets\":[{\"lang\":\"C\",\"code\":\"x\"}]}",
    );
    let result = parse_task_attributes(text_input);
    assert_eq!(result, Err(ExtractError::MissingSnippet));
}

#[test]
fn test_extract_empty_input() {
    let result = parse_task_attributes(String::new());
    assert_eq!(result, Err(ExtractError::MissingQuestionId));
}

#[test]
fn test_extract_empty_field_is_missing() {
    // the id marker is present but followed by no digit: the pattern does
    // not match there
    let text_input: String = String::from("{\"questionId\":\"\",\"title\":\"T\"}");
    let result = parse_task_attributes(text_input);
    assert_eq!(result, Err(ExtractError::MissingQuestionId));
}

#[test]
fn test_snippet_newline_normalization() {
    let text_input: String = String::from(
        "{\"questionId\":\"1\",\"title\":\"Two Sum\",\"titleSlug\":\"two-sum\",\"codeSnippets\":[{\"lang\":\"Java\",\"langSlug\":\"java\",\"code\":\"line one\\nline two\"},{\"lang\":\"Python\",\"code\":\"pass\"}]}",
    );
    let attrs = parse_task_attributes(text_input).unwrap();
    assert_eq!(attrs.snippet, "line one\nline two");
    assert!(!attrs.snippet.contains("\\n"));
}

#[test]
fn test_first_match_wins() {
    let text_input: String = String::from(
        "{\"questionId\":\"7\",\"questionId\":\"8\",\"title\":\"First\",\"title\":\"Second\",\"titleSlug\":\"first\",\"titleSlug\":\"second\",\"codeSnippets\":[{\"lang\":\"Java\",\"code\":\"a\"},{\"lang\":\"Python\",\"code\":\"b\"}]}",
    );
    let attrs = parse_task_attributes(text_input).unwrap();
    assert_eq!(attrs.question_id, "7");
    assert_eq!(attrs.title, "First");
    assert_eq!(attrs.slug, "first");
}
