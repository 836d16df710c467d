//! Content assembly: the exact text the run places on the clipboard — an
//! optional project-tree section followed by one header-and-content
//! section per readable file.

use crate::error::FatalError;
use vstd::prelude::*;

verus! {

/// One entry of the resolved file set: the configured path string, kept
/// verbatim for the header line, and the file's content when the binary
/// could read it. A missing or unreadable file carries no content and is
/// skipped.
pub struct FileEntry {
    pub path: String,
    pub content: Option<String>,
}

/// A rendered project tree: the expanded project path and the renderer's
/// captured output.
pub struct TreeSection {
    pub path: String,
    pub text: String,
}

/// The section a readable file contributes: a header line naming its
/// configured path, then its full content, then a newline.
pub open spec fn file_section(path: Seq<char>, content: Seq<char>) -> Seq<char> {
    "# NOTE: "@ + path + ":\n"@ + content + "\n"@
}

/// The leading section a rendered tree contributes.
pub open spec fn tree_section(path: Seq<char>, text: Seq<char>) -> Seq<char> {
    "# NOTE: Project Tree: "@ + path + "\n"@ + text + "\n"@
}

/// The tree section of the assembled text; empty when no tree was
/// rendered.
pub open spec fn tree_head(tree: Option<TreeSection>) -> Seq<char> {
    match tree {
        Option::Some(t) => tree_section(t.path@, t.text@),
        Option::None => Seq::empty(),
    }
}

/// The sections of the readable files among `files`, in order.
pub open spec fn file_sections(files: Seq<FileEntry>) -> Seq<char>
    decreases files.len(),
{
    if files.len() == 0 {
        Seq::empty()
    } else {
        let e = files.last();
        file_sections(files.drop_last()) + match e.content {
            Option::Some(c) => file_section(e.path@, c@),
            Option::None => Seq::<char>::empty(),
        }
    }
}

/// The whole assembled text: the tree section when a tree was rendered,
/// then the file sections.
pub open spec fn assembled(tree: Option<TreeSection>, files: Seq<FileEntry>) -> Seq<char> {
    tree_head(tree) + file_sections(files)
}

proof fn lemma_file_sections_empty(files: Seq<FileEntry>)
    ensures
        file_sections(files).len() == 0 <==> (forall|i: int|
            0 <= i < files.len() ==> files[i].content is None),
    decreases files.len(),
{
    reveal_strlit("# NOTE: ");
    if files.len() == 0 {
    } else {
        lemma_file_sections_empty(files.drop_last());
        let e = files.last();
        match e.content {
            Option::Some(c) => {
                assert(files[files.len() - 1].content is Some);
            },
            Option::None => {
                assert forall|i: int| 0 <= i < files.len() && files[i].content is Some implies
                    file_sections(files).len() > 0 by {
                    assert(files.drop_last()[i] == files[i]);
                }
            },
        }
    }
}

/// The assembled text is empty exactly when no tree was rendered and not
/// one file was readable; only then is the run's output fatal.
pub proof fn lemma_assembled_empty(tree: Option<TreeSection>, files: Seq<FileEntry>)
    ensures
        assembled(tree, files).len() == 0 <==> (tree is None && (forall|i: int|
            0 <= i < files.len() ==> files[i].content is None)),
{
    reveal_strlit("# NOTE: Project Tree: ");
    lemma_file_sections_empty(files);
    match tree {
        Option::Some(t) => {
            assert(tree_section(t.path@, t.text@).len() > 0);
        },
        Option::None => {},
    }
}

/// Builds the assembled text for `tree` and `files`.
pub fn assemble(tree: &Option<TreeSection>, files: &Vec<FileEntry>) -> (r: String)
    ensures
        r@ == assembled(*tree, files@),
{
    let mut out = String::new();
    match tree {
        Option::Some(t) => {
            out.append("# NOTE: Project Tree: ");
            out.append(t.path.as_str());
            out.append("\n");
            out.append(t.text.as_str());
            out.append("\n");
        },
        Option::None => {},
    }
    proof {
        assert(out@ =~= tree_head(*tree));
        assert(files@.take(0) =~= Seq::<FileEntry>::empty());
        assert(out@ =~= tree_head(*tree) + file_sections(files@.take(0)));
    }
    let n = files.len();
    let mut i: usize = 0;
    while i < n
        invariant
            i <= n,
            n == files@.len(),
            out@ == tree_head(*tree) + file_sections(files@.take(i as int)),
        decreases n - i,
    {
        let e: &FileEntry = &files[i];
        proof {
            assert(files@.take(i as int + 1).drop_last() =~= files@.take(i as int));
            assert(files@.take(i as int + 1).last() == files@[i as int]);
        }
        match &e.content {
            Option::Some(c) => {
                out.append("# NOTE: ");
                out.append(e.path.as_str());
                out.append(":\n");
                out.append(c.as_str());
                out.append("\n");
                proof {
                    assert(out@ =~= tree_head(*tree) + file_sections(
                        files@.take(i as int + 1),
                    ));
                }
            },
            Option::None => {
                proof {
                    assert(out@ =~= tree_head(*tree) + file_sections(
                        files@.take(i as int + 1),
                    ));
                }
            },
        }
        i += 1;
    }
    proof {
        assert(files@.take(n as int) =~= files@);
    }
    out
}

/// The run's final gate: an empty assembled text — no tree and not one
/// readable file — is fatal.
pub fn require_nonempty(content: String) -> (r: Result<String, FatalError>)
    ensures
        content@.len() == 0 ==> (r matches Result::Err(e) && e is EmptyOutput),
        content@.len() > 0 ==> r is Ok && r->Ok_0@ == content@,
{
    if content.as_str().is_empty() {
        Result::Err(FatalError::EmptyOutput)
    } else {
        Result::Ok(content)
    }
}

} // verus!
