//! The problem attributes scraped from a page, and the package name derived
//! from them.

use vstd::prelude::*;
use vstd::string::StrSliceExecFns;
use vstd::string::StringExecFns;

verus! {

/// The four fields that describe one coding-exercise problem.
#[derive(Debug, PartialEq, Eq)]
pub struct TaskAttrs {
    pub question_id: String,
    pub slug: String,
    pub title: String,
    pub snippet: String,
}

/// `slug` with every hyphen turned into an underscore.
pub open spec fn spec_underscored(slug: Seq<char>) -> Seq<char> {
    Seq::new(slug.len(), |i: int| if slug[i] == '-' { '_' } else { slug[i] })
}

/// `id` left-padded with `'0'` to at least four characters; a longer id is
/// kept as it is.
pub open spec fn spec_zero_padded(id: Seq<char>) -> Seq<char> {
    if id.len() >= 4 {
        id
    } else {
        Seq::new((4 - id.len()) as nat, |i: int| '0') + id
    }
}

/// The package directory name: an underscore, the zero-padded question id,
/// an underscore, and the slug with hyphens replaced by underscores.
pub open spec fn spec_package_name(id: Seq<char>, slug: Seq<char>) -> Seq<char> {
    seq!['_'] + spec_zero_padded(id) + seq!['_'] + spec_underscored(slug)
}

/// The derived package name is a sound directory segment: it starts with an
/// underscore, it never holds a hyphen when the question id is made of
/// digits, and its numeric prefix is at least four characters wide, so that
/// lexical order of names follows numeric order of ids.
pub proof fn lemma_package_name_shape(id: Seq<char>, slug: Seq<char>)
    requires
        forall|i: int| 0 <= i < id.len() ==> '0' <= id[i] && id[i] <= '9',
    ensures
        spec_package_name(id, slug)[0] == '_',
        forall|i: int|
            0 <= i < spec_package_name(id, slug).len() ==> #[trigger] spec_package_name(id, slug)[i]
                != '-',
        spec_zero_padded(id).len() == if id.len() >= 4 {
            id.len()
        } else {
            4
        },
{
    let name = spec_package_name(id, slug);
    let padded = spec_zero_padded(id);
    assert forall|i: int| 0 <= i < name.len() implies #[trigger] name[i] != '-' by {
        if i == 0 {
            assert(name[0] == '_');
        } else if i < 1 + padded.len() {
            assert(name[i] == padded[i - 1]);
            assert('0' <= padded[i - 1] && padded[i - 1] <= '9');
        } else if i == 1 + padded.len() {
            assert(name[i] == '_');
        } else {
            assert(name[i] == spec_underscored(slug)[i - 2 - padded.len()]);
        }
    }
}

impl TaskAttrs {
    pub fn new(question_id: &str, title: &str, slug: &str, snippet: &str) -> (r: Self)
        ensures
            r.question_id@ == question_id@,
            r.slug@ == slug@,
            r.title@ == title@,
            r.snippet@ == snippet@,
    {
        Self {
            question_id: question_id.to_owned(),
            slug: slug.to_owned(),
            title: title.to_owned(),
            snippet: snippet.to_owned(),
        }
    }

    /// The package name derived from the question id and the slug; always a
    /// valid identifier when the id is digits and the slug is made of
    /// hyphen-separated words.
    pub fn package_name(&self) -> (r: String)
        ensures
            r@ == spec_package_name(self.question_id@, self.slug@),
    {
        proof {
            reveal_strlit("_");
            reveal_strlit("0");
        }
        let mut out = String::new();
        out.append("_");
        let id = self.question_id.as_str();
        let id_len = id.unicode_len();
        let mut pad: usize = 0;
        let pad_total: usize = if id_len >= 4 { 0 } else { 4 - id_len };
        while pad < pad_total
            invariant
                pad <= pad_total,
                out@ =~= seq!['_'] + Seq::new(pad as nat, |i: int| '0'),
            decreases pad_total - pad,
        {
            out.append("0");
            proof {
                reveal_strlit("0");
                assert(out@ =~= seq!['_'] + Seq::new((pad + 1) as nat, |i: int| '0'));
            }
            pad = pad + 1;
        }
        out.append(id);
        proof {
            assert(out@ =~= seq!['_'] + spec_zero_padded(self.question_id@));
        }
        out.append("_");
        let slug = self.slug.as_str();
        let n = slug.unicode_len();
        let mut i: usize = 0;
        while i < n
            invariant
                i <= n,
                n == slug@.len(),
                slug@ == self.slug@,
                out@ =~= seq!['_'] + spec_zero_padded(self.question_id@) + seq!['_']
                    + spec_underscored(slug@.take(i as int)),
            decreases n - i,
        {
            proof {
                reveal_strlit("_");
            }
            let c = slug.get_char(i);
            if c == '-' {
                out.append("_");
            } else {
                out.append(slug.substring_char(i, i + 1));
                proof {
                    assert(slug@.subrange(i as int, i + 1) =~= seq![slug@[i as int]]);
                }
            }
            proof {
                assert(spec_underscored(slug@.take(i + 1)) =~= spec_underscored(
                    slug@.take(i as int),
                ) + seq![if slug@[i as int] == '-' { '_' } else { slug@[i as int] }]);
            }
            i = i + 1;
        }
        proof {
            assert(slug@.take(n as int) =~= slug@);
        }
        out
    }
}

} // verus!
