//! Rendering the two output files and deciding the overwrite guard.
//!
//! Each output kind has a fixed template whose placeholder tokens are
//! replaced by literal text, and a destination path derived from the target
//! root and the package name. Writing to disk is the surrounding
//! application's job; the guard decision here is pure.

use vstd::prelude::*;
use vstd::string::StrSliceExecFns;
use vstd::string::StringExecFns;

use crate::attrs::spec_package_name;
use crate::attrs::TaskAttrs;
use crate::text::replace_all;
use crate::text::spec_replace;

verus! {

/// Which of the two output files is generated.
#[derive(Clone, Copy, Debug, PartialEq, Eq, Structural)]
pub enum FileKind {
    Solution,
    Test,
}

/// The template text for `kind`, with its placeholder tokens.
pub open spec fn spec_template(kind: FileKind) -> Seq<char> {
    match kind {
        FileKind::Solution => "package {package_name};

// {question_id}. {title}
// {url}

{snippet}
"@,
        FileKind::Test => "package {package_name};

import org.junit.Test;
import static org.junit.Assert.*;

// Tests for {question_id}. {title}
// {url}

public class SolutionTest {

    @Test
    public void testSolution() {
        Solution solution = new Solution();
        assertNotNull(solution);
    }
}
"@,
    }
}

/// The template text for `kind`.
pub fn template(kind: FileKind) -> (r: String)
    ensures
        r@ == spec_template(kind),
{
    match kind {
        FileKind::Solution => "package {package_name};

// {question_id}. {title}
// {url}

{snippet}
".to_owned(),
        FileKind::Test => "package {package_name};

import org.junit.Test;
import static org.junit.Assert.*;

// Tests for {question_id}. {title}
// {url}

public class SolutionTest {

    @Test
    public void testSolution() {
        Solution solution = new Solution();
        assertNotNull(solution);
    }
}
".to_owned(),
    }
}

/// The template of `kind` with every placeholder replaced: question id,
/// title and package name in both templates, the snippet in the solution
/// template only, and the problem URL last.
pub open spec fn spec_rendered(
    kind: FileKind,
    question_id: Seq<char>,
    title: Seq<char>,
    slug: Seq<char>,
    snippet: Seq<char>,
    url: Seq<char>,
) -> Seq<char> {
    let base = spec_replace(
        spec_replace(
            spec_replace(spec_template(kind), "{question_id}"@, question_id),
            "{title}"@,
            title,
        ),
        "{package_name}"@,
        spec_package_name(question_id, slug),
    );
    match kind {
        FileKind::Solution => spec_replace(
            spec_replace(base, "{snippet}"@, snippet),
            "{url}"@,
            url,
        ),
        FileKind::Test => spec_replace(base, "{url}"@, url),
    }
}

/// Renders the template of `kind` for the given attributes and problem URL.
pub fn render(kind: FileKind, attrs: &TaskAttrs, url: &str) -> (r: String)
    ensures
        r@ == spec_rendered(
            kind,
            attrs.question_id@,
            attrs.title@,
            attrs.slug@,
            attrs.snippet@,
            url@,
        ),
{
    proof {
        reveal_strlit("{question_id}");
        reveal_strlit("{title}");
        reveal_strlit("{package_name}");
        reveal_strlit("{snippet}");
        reveal_strlit("{url}");
    }
    let t = template(kind);
    let t = replace_all(t.as_str(), "{question_id}", attrs.question_id.as_str());
    let t = replace_all(t.as_str(), "{title}", attrs.title.as_str());
    let pkg = attrs.package_name();
    let t = replace_all(t.as_str(), "{package_name}", pkg.as_str());
    match kind {
        FileKind::Solution => {
            let t = replace_all(t.as_str(), "{snippet}", attrs.snippet.as_str());
            replace_all(t.as_str(), "{url}", url)
        },
        FileKind::Test => replace_all(t.as_str(), "{url}", url),
    }
}

/// The directory under the target root that holds files of `kind`.
pub open spec fn spec_sub_dir(kind: FileKind) -> Seq<char> {
    match kind {
        FileKind::Solution => "src/main/java"@,
        FileKind::Test => "src/test/java"@,
    }
}

/// The fixed file name for `kind`.
pub open spec fn spec_file_name(kind: FileKind) -> Seq<char> {
    match kind {
        FileKind::Solution => "Solution.java"@,
        FileKind::Test => "SolutionTest.java"@,
    }
}

/// `base` and `seg` joined by a single path separator; an empty base or one
/// that already ends in a separator adds none.
pub open spec fn spec_joined(base: Seq<char>, seg: Seq<char>) -> Seq<char> {
    if base.len() == 0 {
        seg
    } else if base[base.len() - 1] == '/' {
        base + seg
    } else {
        base + seq!['/'] + seg
    }
}

/// The destination path for `kind`: the root, the kind's directory, the
/// package name as a directory segment, and the fixed file name.
pub open spec fn spec_output_path(kind: FileKind, root: Seq<char>, pkg: Seq<char>) -> Seq<char> {
    spec_joined(spec_joined(spec_joined(root, spec_sub_dir(kind)), pkg), spec_file_name(kind))
}

/// Appends `seg` to the path `base`, inserting a separator unless the base
/// is empty or already ends in one.
fn join_segment(base: String, seg: &str) -> (r: String)
    ensures
        r@ == spec_joined(base@, seg@),
{
    proof {
        reveal_strlit("/");
    }
    let n = base.as_str().unicode_len();
    if n == 0 {
        return seg.to_owned();
    }
    let last = base.as_str().get_char(n - 1);
    let mut b = base;
    if last != '/' {
        b.append("/");
    }
    b.append(seg);
    b
}

/// The destination path of the file of `kind` for the given attributes,
/// under `root`; an empty root stands for the current directory and adds no
/// leading separator.
pub fn output_path(kind: FileKind, attrs: &TaskAttrs, root: &str) -> (r: String)
    ensures
        r@ == spec_output_path(kind, root@, spec_package_name(attrs.question_id@, attrs.slug@)),
{
    let sub = match kind {
        FileKind::Solution => "src/main/java",
        FileKind::Test => "src/test/java",
    };
    let file = match kind {
        FileKind::Solution => "Solution.java",
        FileKind::Test => "SolutionTest.java",
    };
    let p = join_segment(root.to_owned(), sub);
    let pkg = attrs.package_name();
    let p = join_segment(p, pkg.as_str());
    join_segment(p, file)
}

/// The overwrite guard refused: the destination already exists and
/// overwriting was not forced.
#[derive(Clone, Copy, Debug, PartialEq, Eq, Structural)]
pub enum GenerateError {
    DestinationExists,
}

/// One rendered output file: where it goes and what it holds.
#[derive(Debug)]
pub struct GeneratedFile {
    pub path: String,
    pub contents: String,
}

/// What generating of `kind` produces: the destination path and the rendered
/// contents, or the guard's refusal when the destination exists and `force`
/// is not set.
pub open spec fn spec_generate(
    kind: FileKind,
    question_id: Seq<char>,
    title: Seq<char>,
    slug: Seq<char>,
    snippet: Seq<char>,
    url: Seq<char>,
    root: Seq<char>,
    force: bool,
    dest_exists: bool,
) -> Result<(Seq<char>, Seq<char>), GenerateError> {
    if dest_exists && !force {
        Err(GenerateError::DestinationExists)
    } else {
        Ok(
            (
                spec_output_path(kind, root, spec_package_name(question_id, slug)),
                spec_rendered(kind, question_id, title, slug, snippet, url),
            ),
        )
    }
}

/// Computes the file of `kind` for one problem: checks the overwrite guard
/// and, when it allows, returns the destination path and the fully rendered
/// contents. `dest_exists` says whether the destination is already present;
/// the caller checks the filesystem and performs the write.
pub fn generate(
    kind: FileKind,
    attrs: &TaskAttrs,
    root: &str,
    url: &str,
    force: bool,
    dest_exists: bool,
) -> (r: Result<GeneratedFile, GenerateError>)
    ensures
        match r {
            Ok(g) => spec_generate(
                kind,
                attrs.question_id@,
                attrs.title@,
                attrs.slug@,
                attrs.snippet@,
                url@,
                root@,
                force,
                dest_exists,
            ) == Ok::<_, GenerateError>((g.path@, g.contents@)),
            Err(e) => spec_generate(
                kind,
                attrs.question_id@,
                attrs.title@,
                attrs.slug@,
                attrs.snippet@,
                url@,
                root@,
                force,
                dest_exists,
            ) == Err::<(Seq<char>, Seq<char>), _>(e),
        },
        r is Err <==> dest_exists && !force,
{
    if dest_exists && !force {
        return Err(GenerateError::DestinationExists);
    }
    let path = output_path(kind, attrs, root);
    let contents = render(kind, attrs, url);
    Ok(GeneratedFile { path, contents })
}

/// Forced generation is idempotent: with `force` set it succeeds whether or
/// not the destination already exists, and a repeated run produces the same
/// path and the same contents, so the second write fully replaces the first.
pub proof fn lemma_force_overwrite_idempotent(
    kind: FileKind,
    question_id: Seq<char>,
    title: Seq<char>,
    slug: Seq<char>,
    snippet: Seq<char>,
    url: Seq<char>,
    root: Seq<char>,
    first_exists: bool,
    second_exists: bool,
)
    ensures
        spec_generate(kind, question_id, title, slug, snippet, url, root, true, first_exists)
            is Ok,
        spec_generate(kind, question_id, title, slug, snippet, url, root, true, first_exists)
            == spec_generate(
            kind,
            question_id,
            title,
            slug,
            snippet,
            url,
            root,
            true,
            second_exists,
        ),
{
}

/// The unforced guard is safe: when the destination exists and `force` is
/// not set, generation yields no path and no contents at all, so the
/// existing file cannot be touched.
pub proof fn lemma_unforced_guard_refuses(
    kind: FileKind,
    question_id: Seq<char>,
    title: Seq<char>,
    slug: Seq<char>,
    snippet: Seq<char>,
    url: Seq<char>,
    root: Seq<char>,
)
    ensures
        spec_generate(kind, question_id, title, slug, snippet, url, root, false, true) == Err::<
            (Seq<char>, Seq<char>),
            GenerateError,
        >(GenerateError::DestinationExists),
{
}

} // verus!
