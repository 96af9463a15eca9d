use leetgen::attrs::TaskAttrs;
use leetgen::generate::generate;
use leetgen::generate::output_path;
use leetgen::generate::render;
use leetgen::generate::FileKind;
use leetgen::generate::GenerateError;

#[test]
fn test_solution_path_construction() {
    let attrs = TaskAttrs::new(
        "345",
        "Some examplary title",
        "some-examplary-title",
        "snippet",
    );
    let path = output_path(FileKind::Solution, &attrs, "R");
    assert_eq!(
        path,
        "R/src/main/java/_0345_some_examplary_title/Solution.java"
    );
}

#[test]
fn test_test_path_construction() {
    let attrs = TaskAttrs::new(
        "345",
        "Some examplary title",
        "some-examplary-title",
        "snippet",
    );
    let path = output_path(FileKind::Test, &attrs, "R");
    assert_eq!(
        path,
        "R/src/test/java/_0345_some_examplary_title/SolutionTest.java"
    );
}

#[test]
fn test_path_with_empty_root() {
    let attrs = TaskAttrs::new("1", "Two Sum", "two-sum", "snippet");
    let path = output_path(FileKind::Solution, &attrs, "");
    assert_eq!(path, "src/main/java/_0001_two_sum/Solution.java");
}

#[test]
fn test_path_with_trailing_separator_root() {
    let attrs = TaskAttrs::new("1", "Two Sum", "two-sum", "snippet");
    let path = output_path(FileKind::Solution, &attrs, "R/");
    assert_eq!(path, "R/src/main/java/_0001_two_sum/Solution.java");
}

#[test]
fn test_render_solution_exact() {
    let attrs = TaskAttrs::new("1", "Two Sum", "two-sum", "class Solution {}");
    let rendered = render(FileKind::Solution, &attrs, "https://example.com/problems/two-sum");
    assert_eq!(
        rendered,
        "package _0001_two_sum;\n\n// 1. Two Sum\n// https://example.com/problems/two-sum\n\nclass Solution {}\n"
    );
}

#[test]
fn test_render_test_exact() {
    let attrs = TaskAttrs::new("1", "Two Sum", "two-sum", "class Solution {}");
    let rendered = render(FileKind::Test, &attrs, "https://example.com/problems/two-sum");
    assert_eq!(
        rendered,
        "package _0001_two_sum;\n\nimport org.junit.Test;\nimport static org.junit.Assert.*;\n\n// Tests for 1. Two Sum\n// https://example.com/problems/two-sum\n\npublic class SolutionTest {\n\n    @Test\n    public void testSolution() {\n        Solution solution = new Solution();\n        assertNotNull(solution);\n    }\n}\n"
    );
}

#[test]
fn test_generate_force_is_idempotent() {
    let attrs = TaskAttrs::new("1", "Two Sum", "two-sum", "class Solution {}");
    let url = "https://example.com/problems/two-sum";
    let first = generate(FileKind::Solution, &attrs, "R", url, true, false).unwrap();
    let second = generate(FileKind::Solution, &attrs, "R", url, true, true).unwrap();
    assert_eq!(first.path, second.path);
    assert_eq!(first.contents, second.contents);
}

#[test]
fn test_generate_overwrite_guard_refuses() {
    let attrs = TaskAttrs::new("1", "Two Sum", "two-sum", "class Solution {}");
    let url = "https://example.com/problems/two-sum";
    let result = generate(FileKind::Solution, &attrs, "R", url, false, true);
    assert!(matches!(result, Err(GenerateError::DestinationExists)));
}

#[test]
fn test_generate_writes_when_destination_free() {
    let attrs = TaskAttrs::new("1", "Two Sum", "two-sum", "class Solution {}");
    let url = "https://example.com/problems/two-sum";
    let generated = generate(FileKind::Test, &attrs, "", url, false, false).unwrap();
    assert_eq!(generated.path, "src/test/java/_0001_two_sum/SolutionTest.java");
    assert!(generated.contents.contains("package _0001_two_sum;"));
}
