//! Directory collection: the filtering policy of the recursive walk and a
//! frontier-based collector that drives it.
//!
//! The walk itself needs the filesystem, so the binary reads each
//! directory and hands its entries to [`Collector::visit`]; every decision
//! about an entry — skip it, keep it, or descend into it — is made and
//! specified here.

use vstd::prelude::*;

verus! {

/// `p` occurs in `s` starting at index `i`.
pub open spec fn matches_at(s: Seq<char>, p: Seq<char>, i: int) -> bool {
    0 <= i && i + p.len() <= s.len() && s.subrange(i, i + p.len()) == p
}

/// `p` occurs somewhere in `s`.
pub open spec fn contains_seq(s: Seq<char>, p: Seq<char>) -> bool {
    exists|i: int| matches_at(s, p, i)
}

/// Character-wise string equality.
fn str_eq(a: &str, b: &str) -> (r: bool)
    ensures
        r == (a@ == b@),
{
    let na = a.unicode_len();
    let nb = b.unicode_len();
    if na != nb {
        return false;
    }
    let mut i: usize = 0;
    while i < na
        invariant
            i <= na,
            na == a@.len(),
            na == b@.len(),
            forall|j: int| 0 <= j < i ==> a@[j] == b@[j],
        decreases na - i,
    {
        if a.get_char(i) != b.get_char(i) {
            return false;
        }
        i += 1;
    }
    proof {
        assert(a@ =~= b@);
    }
    true
}

/// Whether `p` occurs in `s` at position `i`.
fn match_at(s: &str, p: &str, i: usize) -> (r: bool)
    requires
        i + p@.len() <= s@.len(),
    ensures
        r == matches_at(s@, p@, i as int),
{
    let ns = s.unicode_len();
    let np = p.unicode_len();
    let mut j: usize = 0;
    while j < np
        invariant
            j <= np,
            ns == s@.len(),
            np == p@.len(),
            i + np <= ns,
            forall|k: int| 0 <= k < j ==> s@[i + k] == p@[k],
        decreases np - j,
    {
        if s.get_char(i + j) != p.get_char(j) {
            proof {
                if matches_at(s@, p@, i as int) {
                    assert(s@.subrange(i as int, i as int + p@.len())[j as int] == s@[i + j]);
                }
            }
            return false;
        }
        j += 1;
    }
    proof {
        assert(s@.subrange(i as int, i as int + p@.len()) =~= p@);
    }
    true
}

/// Whether `p` occurs anywhere in `s`.
fn contains_str(s: &str, p: &str) -> (r: bool)
    ensures
        r == contains_seq(s@, p@),
{
    let ns = s.unicode_len();
    let np = p.unicode_len();
    if np > ns {
        proof {
            assert forall|i: int| !matches_at(s@, p@, i) by {}
        }
        return false;
    }
    if np == 0 {
        proof {
            assert(s@.subrange(0, 0) =~= p@);
            assert(matches_at(s@, p@, 0));
        }
        return true;
    }
    let mut i: usize = 0;
    while i <= ns - np
        invariant
            0 < np <= ns,
            ns == s@.len(),
            np == p@.len(),
            i <= ns - np + 1,
            forall|k: int| 0 <= k < i ==> !matches_at(s@, p@, k),
        decreases ns - np + 1 - i,
    {
        if match_at(s, p, i) {
            return true;
        }
        i += 1;
    }
    proof {
        assert forall|k: int| !matches_at(s@, p@, k) by {
            if 0 <= k < i {
                assert(!matches_at(s@, p@, k));
            }
        }
    }
    false
}

/// A file or directory name that the walk skips outright, subtree and
/// all: any name holding one of the fixed marker substrings.
pub open spec fn name_excluded(name: Seq<char>) -> bool {
    ||| contains_seq(name, ".DS_Store"@)
    ||| contains_seq(name, ".git"@)
    ||| contains_seq(name, ".gitignore"@)
    ||| contains_seq(name, "target"@)
}

/// Whether the walk must skip this name entirely.
pub fn is_excluded_name(name: &str) -> (r: bool)
    ensures
        r == name_excluded(name@),
{
    contains_str(name, ".DS_Store") || contains_str(name, ".git") || contains_str(
        name,
        ".gitignore",
    ) || contains_str(name, "target")
}

/// Index of the last `.` in `s`, or `-1` when there is none.
pub open spec fn last_dot(s: Seq<char>) -> int
    decreases s.len(),
{
    if s.len() == 0 {
        -1
    } else if s[s.len() - 1] == '.' {
        s.len() - 1
    } else {
        last_dot(s.drop_last())
    }
}

/// The extension of a file name: the part after the last `.`. A name
/// without a `.`, or whose only `.` leads a hidden file, has none.
pub open spec fn extension_of(s: Seq<char>) -> Option<Seq<char>> {
    if last_dot(s) <= 0 {
        Option::None
    } else {
        Option::Some(s.skip(last_dot(s) + 1))
    }
}

/// The fixed allowlist of source, text and configuration extensions.
pub open spec fn allowed_extension(e: Seq<char>) -> bool {
    ||| e == "rs"@
    ||| e == "toml"@
    ||| e == "json"@
    ||| e == "yaml"@
    ||| e == "yml"@
    ||| e == "md"@
    ||| e == "txt"@
    ||| e == "c"@
    ||| e == "h"@
    ||| e == "cpp"@
    ||| e == "hpp"@
    ||| e == "js"@
    ||| e == "ts"@
    ||| e == "py"@
    ||| e == "go"@
    ||| e == "sh"@
    ||| e == "csv"@
    ||| e == "log"@
}

proof fn lemma_last_dot_step(s: Seq<char>, j: int)
    requires
        0 < j <= s.len(),
        s[j - 1] != '.',
    ensures
        last_dot(s.take(j)) == last_dot(s.take(j - 1)),
{
    assert(s.take(j).len() == j);
    assert(s.take(j)[j - 1] == s[j - 1]);
    assert(s.take(j).drop_last() =~= s.take(j - 1));
}

/// Index of the last `.` of `name`, when it has one.
fn find_last_dot(name: &str) -> (r: Option<usize>)
    ensures
        r is Some ==> last_dot(name@) == r->0 && r->0 < name@.len(),
        r is None ==> last_dot(name@) == -1,
{
    let n = name.unicode_len();
    let mut j: usize = n;
    proof {
        assert(name@.take(n as int) =~= name@);
    }
    while j > 0
        invariant
            j <= n,
            n == name@.len(),
            last_dot(name@) == last_dot(name@.take(j as int)),
        decreases j,
    {
        if name.get_char(j - 1) == '.' {
            proof {
                assert(name@.take(j as int)[j - 1] == name@[j - 1]);
            }
            return Option::Some(j - 1);
        }
        proof {
            lemma_last_dot_step(name@, j as int);
        }
        j -= 1;
    }
    proof {
        assert(name@.take(0) =~= Seq::<char>::empty());
    }
    Option::None
}

/// Whether `e` stands in the extension allowlist.
fn is_allowed_extension(e: &str) -> (r: bool)
    ensures
        r == allowed_extension(e@),
{
    str_eq(e, "rs") || str_eq(e, "toml") || str_eq(e, "json") || str_eq(e, "yaml") || str_eq(
        e,
        "yml",
    ) || str_eq(e, "md") || str_eq(e, "txt") || str_eq(e, "c") || str_eq(e, "h") || str_eq(
        e,
        "cpp",
    ) || str_eq(e, "hpp") || str_eq(e, "js") || str_eq(e, "ts") || str_eq(e, "py") || str_eq(
        e,
        "go",
    ) || str_eq(e, "sh") || str_eq(e, "csv") || str_eq(e, "log")
}

/// What the binary saw an entry to be.
#[derive(Clone, Copy, PartialEq, Eq, Structural, Debug)]
pub enum EntryKind {
    File,
    Directory,
    Other,
}

/// One directory entry as the binary reports it: its full path, its bare
/// file name, and what kind of node it is.
pub struct DirEntryInfo {
    pub path: String,
    pub name: String,
    pub kind: EntryKind,
}

/// The walk's verdict on one entry.
#[derive(Clone, Copy, PartialEq, Eq, Structural, Debug)]
pub enum Disposition {
    /// A file whose extension is allowed: its path joins the result.
    Keep,
    /// A directory to walk into.
    Descend,
    /// A name holding an excluded marker: skipped, subtree and all.
    SkipExcluded,
    /// A file whose extension is not allowed: skipped with a diagnostic.
    SkipUnsupported,
    /// A file without an extension: skipped silently.
    SkipNoExtension,
    /// Neither a file nor a directory: ignored.
    SkipOther,
}

/// The walk's verdict on an entry of kind `kind` named `name`.
pub open spec fn spec_classify(kind: EntryKind, name: Seq<char>) -> Disposition {
    if name_excluded(name) {
        Disposition::SkipExcluded
    } else if kind is File {
        match extension_of(name) {
            Option::Some(e) => if allowed_extension(e) {
                Disposition::Keep
            } else {
                Disposition::SkipUnsupported
            },
            Option::None => Disposition::SkipNoExtension,
        }
    } else if kind is Directory {
        Disposition::Descend
    } else {
        Disposition::SkipOther
    }
}

/// Decides what the walk does with one entry.
pub fn classify(e: &DirEntryInfo) -> (d: Disposition)
    ensures
        d == spec_classify(e.kind, e.name@),
{
    if is_excluded_name(e.name.as_str()) {
        return Disposition::SkipExcluded;
    }
    match e.kind {
        EntryKind::File => {
            let n = e.name.unicode_len();
            match find_last_dot(e.name.as_str()) {
                Option::Some(i) => {
                    if i == 0 {
                        Disposition::SkipNoExtension
                    } else {
                        let ext = e.name.as_str().substring_char(i + 1, n);
                        proof {
                            assert(e.name@.subrange(i as int + 1, n as int) =~= e.name@.skip(
                                i as int + 1));
                        }
                        if is_allowed_extension(ext) {
                            Disposition::Keep
                        } else {
                            Disposition::SkipUnsupported
                        }
                    }
                },
                Option::None => Disposition::SkipNoExtension,
            }
        },
        EntryKind::Directory => Disposition::Descend,
        EntryKind::Other => Disposition::SkipOther,
    }
}

/// The paths of the entries a visit keeps, in entry order.
pub open spec fn kept_files(entries: Seq<DirEntryInfo>) -> Seq<Seq<char>>
    decreases entries.len(),
{
    if entries.len() == 0 {
        Seq::empty()
    } else {
        let rest = kept_files(entries.drop_last());
        let e = entries.last();
        if spec_classify(e.kind, e.name@) is Keep {
            rest.push(e.path@)
        } else {
            rest
        }
    }
}

/// The paths of the subdirectories a visit descends into, in entry order.
pub open spec fn sub_dirs(entries: Seq<DirEntryInfo>) -> Seq<Seq<char>>
    decreases entries.len(),
{
    if entries.len() == 0 {
        Seq::empty()
    } else {
        let rest = sub_dirs(entries.drop_last());
        let e = entries.last();
        if spec_classify(e.kind, e.name@) is Descend {
            rest.push(e.path@)
        } else {
            rest
        }
    }
}

/// The paths of the files a visit skips for an unsupported extension, in
/// entry order; these earn a diagnostic.
pub open spec fn unsupported_files(entries: Seq<DirEntryInfo>) -> Seq<Seq<char>>
    decreases entries.len(),
{
    if entries.len() == 0 {
        Seq::empty()
    } else {
        let rest = unsupported_files(entries.drop_last());
        let e = entries.last();
        if spec_classify(e.kind, e.name@) is SkipUnsupported {
            rest.push(e.path@)
        } else {
            rest
        }
    }
}

/// The frontier of a depth-first directory walk: the directories still to
/// be read and the matching files found so far.
pub struct Collector {
    pending: Vec<String>,
    files: Vec<String>,
}

impl Collector {
    /// The directories still to be read, as path strings.
    pub closed spec fn pending_view(self) -> Seq<Seq<char>> {
        self.pending.deep_view()
    }

    /// The matching file paths found so far.
    pub closed spec fn files_view(self) -> Seq<Seq<char>> {
        self.files.deep_view()
    }

    /// A walk about to read `root` and nothing else.
    pub fn new(root: String) -> (c: Collector)
        ensures
            c.pending_view() == seq![root@],
            c.files_view() == Seq::<Seq<char>>::empty(),
    {
        let mut pending: Vec<String> = Vec::new();
        let ghost root_view = root@;
        pending.push(root);
        let c = Collector { pending, files: Vec::new() };
        proof {
            assert(c.pending_view() =~= seq![root_view]);
            assert(c.files_view() =~= Seq::<Seq<char>>::empty());
        }
        c
    }

    /// Takes one directory off the frontier, or reports the walk done.
    pub fn next_dir(&mut self) -> (r: Option<String>)
        ensures
            old(self).pending_view().len() == 0 ==> r is None && final(self).pending_view()
                == old(self).pending_view() && final(self).files_view() == old(
                self,
            ).files_view(),
            old(self).pending_view().len() > 0 ==> r is Some && r->0@ == old(
                self,
            ).pending_view().last() && final(self).pending_view() == old(
                self,
            ).pending_view().drop_last() && final(self).files_view() == old(self).files_view(),
    {
        let r = self.pending.pop();
        proof {
            if old(self).pending_view().len() > 0 {
                assert(self.pending.deep_view() =~= old(self).pending_view().drop_last());
            }
        }
        r
    }

    /// Whether the frontier is exhausted.
    pub fn done(&self) -> (r: bool)
        ensures
            r == (self.pending_view().len() == 0),
    {
        self.pending.len() == 0
    }

    /// Files the walk has kept, in the order it found them.
    pub fn into_files(self) -> (r: Vec<String>)
        ensures
            r.deep_view() == self.files_view(),
    {
        self.files
    }

    /// Applies the filtering policy to the entries of one directory:
    /// keeps the allowed files, queues the subdirectories, and returns
    /// the paths skipped for an unsupported extension so the caller can
    /// report them.
    pub fn visit(&mut self, entries: &Vec<DirEntryInfo>) -> (skipped: Vec<String>)
        ensures
            final(self).files_view() == old(self).files_view() + kept_files(entries@),
            final(self).pending_view() == old(self).pending_view() + sub_dirs(entries@),
            skipped.deep_view() == unsupported_files(entries@),
    {
        let mut skipped: Vec<String> = Vec::new();
        let n = entries.len();
        let mut i: usize = 0;
        proof {
            assert(entries@.take(0) =~= Seq::<DirEntryInfo>::empty());
            assert(self.files_view() =~= old(self).files_view() + kept_files(entries@.take(0)));
            assert(self.pending_view() =~= old(self).pending_view() + sub_dirs(entries@.take(0)));
            assert(skipped.deep_view() =~= unsupported_files(entries@.take(0)));
        }
        while i < n
            invariant
                i <= n,
                n == entries@.len(),
                self.files_view() == old(self).files_view() + kept_files(entries@.take(i as int)),
                self.pending_view() == old(self).pending_view() + sub_dirs(
                    entries@.take(i as int),
                ),
                skipped.deep_view() == unsupported_files(entries@.take(i as int)),
            decreases n - i,
        {
            let e: &DirEntryInfo = &entries[i];
            let ghost prefix = entries@.take(i as int);
            proof {
                assert(entries@.take(i as int + 1).drop_last() =~= prefix);
                assert(entries@.take(i as int + 1).last() == entries@[i as int]);
            }
            match classify(e) {
                Disposition::Keep => {
                    let ghost before = self.files.deep_view();
                    self.files.push(e.path.clone());
                    proof {
                        assert(self.files.deep_view() =~= before.push(e.path@));
                    }
                },
                Disposition::Descend => {
                    let ghost before = self.pending.deep_view();
                    self.pending.push(e.path.clone());
                    proof {
                        assert(self.pending.deep_view() =~= before.push(e.path@));
                    }
                },
                Disposition::SkipUnsupported => {
                    let ghost before = skipped.deep_view();
                    skipped.push(e.path.clone());
                    proof {
                        assert(skipped.deep_view() =~= before.push(e.path@));
                    }
                },
                Disposition::SkipExcluded => {},
                Disposition::SkipNoExtension => {},
                Disposition::SkipOther => {},
            }
            i += 1;
        }
        proof {
            assert(entries@.take(n as int) =~= entries@);
        }
        skipped
    }
}

} // verus!
