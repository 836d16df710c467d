//! Tilde expansion: substituting the user's home directory for the first
//! `~` in a path string.

use vstd::prelude::*;

verus! {

/// The sequence `s` with the first occurrence of `~` replaced by `home`;
/// `s` itself when it holds no `~`.
pub open spec fn replace_first_tilde(s: Seq<char>, home: Seq<char>) -> Seq<char>
    decreases s.len(),
{
    if s.len() == 0 {
        s
    } else if s[0] == '~' {
        home + s.skip(1)
    } else {
        seq![s[0]] + replace_first_tilde(s.skip(1), home)
    }
}

/// A path that begins with `~` expands to the home directory followed by
/// the rest of the path, unchanged.
pub proof fn lemma_replace_leading_tilde(s: Seq<char>, home: Seq<char>)
    requires
        s.len() > 0,
        s[0] == '~',
    ensures
        replace_first_tilde(s, home) == home + s.skip(1),
{
}

/// A path without any `~` expands to itself.
pub proof fn lemma_replace_no_tilde(s: Seq<char>, home: Seq<char>)
    requires
        forall|j: int| 0 <= j < s.len() ==> s[j] != '~',
    ensures
        replace_first_tilde(s, home) == s,
    decreases s.len(),
{
    if s.len() == 0 {
    } else {
        assert forall|j: int| 0 <= j < s.skip(1).len() implies s.skip(1)[j] != '~' by {
            assert(s.skip(1)[j] == s[j + 1]);
        }
        lemma_replace_no_tilde(s.skip(1), home);
        assert(seq![s[0]] + s.skip(1) =~= s);
    }
}

/// When the first `~` of `s` stands at index `i`, expansion keeps the
/// bytes before it, substitutes `home` for it, and keeps the bytes after
/// it, all unchanged.
pub proof fn lemma_replace_first_tilde_at(s: Seq<char>, home: Seq<char>, i: int)
    requires
        0 <= i < s.len(),
        s[i] == '~',
        forall|j: int| 0 <= j < i ==> s[j] != '~',
    ensures
        replace_first_tilde(s, home) == s.take(i) + home + s.skip(i + 1),
    decreases i,
{
    if i == 0 {
        assert(s.take(0) + home + s.skip(1) =~= home + s.skip(1));
    } else {
        assert(s[0] != '~');
        assert forall|j: int| 0 <= j < i - 1 implies s.skip(1)[j] != '~' by {
            assert(s.skip(1)[j] == s[j + 1]);
        }
        assert(s.skip(1)[i - 1] == s[i]);
        lemma_replace_first_tilde_at(s.skip(1), home, i - 1);
        assert(seq![s[0]] + (s.skip(1).take(i - 1) + home + s.skip(1).skip(i)) =~= s.take(i)
            + home + s.skip(i + 1));
    }
}

/// Replaces the first `~` in `path` with `home` when a home directory is
/// known; returns `path` unchanged otherwise.
pub fn expand_tilde(path: &str, home: Option<&String>) -> (r: String)
    ensures
        home is Some ==> r@ == replace_first_tilde(path@, home->0@),
        home is None ==> r@ == path@,
{
    if home.is_none() {
        return String::from_str(path);
    }
    let h: &String = home.unwrap();
    let n = path.unicode_len();
    let mut i: usize = 0;
    while i < n
        invariant
            i <= n,
            n == path@.len(),
            home is Some,
            home->0@ == h@,
            forall|j: int| 0 <= j < i ==> path@[j] != '~',
        decreases n - i,
    {
        if path.get_char(i) == '~' {
            let mut r = String::from_str(path.substring_char(0, i));
            r.append(h.as_str());
            r.append(path.substring_char(i + 1, n));
            proof {
                lemma_replace_first_tilde_at(path@, h@, i as int);
                assert(path@.subrange(0, i as int) =~= path@.take(i as int));
                assert(path@.subrange(i as int + 1, n as int) =~= path@.skip(i as int + 1));
            }
            return r;
        }
        i += 1;
    }
    proof {
        lemma_replace_no_tilde(path@, h@);
    }
    String::from_str(path)
}

} // verus!
