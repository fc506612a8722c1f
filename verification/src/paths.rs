//! Path text handling for the document loader.
//!
//! A document named without the canonical extension gets it appended, and
//! every included path is resolved against the including document's own
//! directory. The functions here work on the path text alone; reading the
//! file is the caller's business.

use vstd::prelude::*;
use vstd::std_specs::iter::IteratorSpec;

verus! {

broadcast use vstd::string::next_postcondition, vstd::string::axiom_spec_iter;

/// The characters of a string, in order.
pub fn str_chars(s: &str) -> (r: Vec<char>)
    ensures
        r@ == s@,
{
    let mut it = s.chars();
    let mut r: Vec<char> = Vec::new();
    proof {
        assert(r@ + it.remaining() =~= s@);
    }
    loop
        invariant
            it.obeys_prophetic_iter_laws(),
            it.decrease() is Some,
            s@ == r@ + it.remaining(),
        ensures
            s@ == r@,
        decreases it.decrease()->0,
    {
        let ghost rem_pre = it.remaining();
        match it.next() {
            Some(c) => {
                r.push(c);
                proof {
                    assert(s@ =~= r@ + it.remaining());
                }
            },
            None => {
                proof {
                    assert(s@ =~= r@);
                }
                break;
            },
        }
    }
    proof {
        assert(r@ =~= s@);
    }
    r
}

/// A path with the canonical document extension: the path itself when it
/// already ends in the extension, else the path with the extension
/// appended.
pub open spec fn spec_with_default_extension(p: Seq<char>) -> Seq<char> {
    if p.len() >= 6 && p.subrange(p.len() - 6, p.len() as int) == ".json5"@ {
        p
    } else {
        p + ".json5"@
    }
}

/// Appends the canonical document extension unless the path already ends
/// in it.
pub fn with_default_extension(path: String) -> (r: String)
    ensures
        r@ == spec_with_default_extension(path@),
{
    let cs = str_chars(path.as_str());
    let n = cs.len();
    proof {
        reveal_strlit(".json5");
    }
    if n >= 6 && cs[n - 6] == '.' && cs[n - 5] == 'j' && cs[n - 4] == 's' && cs[n - 3] == 'o'
        && cs[n - 2] == 'n' && cs[n - 1] == '5' {
        proof {
            assert(path@.subrange(path@.len() - 6, path@.len() as int) =~= ".json5"@);
        }
        path
    } else {
        proof {
            if path@.len() >= 6 {
                assert(path@.subrange(path@.len() - 6, path@.len() as int) != ".json5"@) by {
                    let suffix = path@.subrange(path@.len() - 6, path@.len() as int);
                    if suffix == ".json5"@ {
                        assert(cs@[n - 6] == suffix[0]);
                        assert(cs@[n - 5] == suffix[1]);
                        assert(cs@[n - 4] == suffix[2]);
                        assert(cs@[n - 3] == suffix[3]);
                        assert(cs@[n - 2] == suffix[4]);
                        assert(cs@[n - 1] == suffix[5]);
                    }
                }
            }
        }
        let mut p = path;
        p.append(".json5");
        p
    }
}

/// The index of the last path separator, or a negative value when the
/// path has none.
pub open spec fn spec_last_slash(p: Seq<char>) -> int
    decreases p.len(),
{
    if p.len() == 0 {
        -1
    } else if p.last() == '/' {
        p.len() - 1
    } else {
        spec_last_slash(p.drop_last())
    }
}

/// A separator at `j` with none after it is the last one.
pub proof fn lemma_last_slash(p: Seq<char>, j: int)
    requires
        0 <= j < p.len(),
        p[j] == '/',
        forall|i: int| j < i < p.len() ==> p[i] != '/',
    ensures
        spec_last_slash(p) == j,
    decreases p.len(),
{
    if j == p.len() - 1 {
    } else {
        let q = p.drop_last();
        assert(q[j] == p[j]);
        lemma_last_slash(q, j);
    }
}

/// A path without separators has no last separator.
pub proof fn lemma_no_slash(p: Seq<char>)
    requires
        forall|i: int| 0 <= i < p.len() ==> p[i] != '/',
    ensures
        spec_last_slash(p) < 0,
    decreases p.len(),
{
    if p.len() > 0 {
        lemma_no_slash(p.drop_last());
    }
}

/// The directory of a path: everything before the last separator, or
/// nothing when the path has none.
pub open spec fn spec_parent_dir(p: Seq<char>) -> Seq<char> {
    if spec_last_slash(p) >= 0 {
        p.subrange(0, spec_last_slash(p))
    } else {
        Seq::empty()
    }
}

/// The directory of a path.
pub fn parent_dir(path: &String) -> (r: String)
    ensures
        r@ == spec_parent_dir(path@),
{
    let cs = str_chars(path.as_str());
    let mut k: usize = cs.len();
    while k > 0
        invariant
            0 <= k <= cs@.len(),
            cs@ == path@,
            forall|i: int| k <= i < cs@.len() ==> cs@[i] != '/',
        decreases k,
    {
        if cs[k - 1] == '/' {
            proof {
                lemma_last_slash(path@, k - 1);
            }
            let r = path.as_str().substring_char(0, k - 1).to_owned();
            return r;
        }
        k -= 1;
    }
    proof {
        lemma_no_slash(path@);
    }
    String::new()
}

/// A path joined onto a directory: the path itself when it is absolute or
/// the directory is empty, else the directory, a separator, and the path.
pub open spec fn spec_join_relative(dir: Seq<char>, rel: Seq<char>) -> Seq<char> {
    if rel.len() > 0 && rel[0] == '/' {
        rel
    } else if dir.len() == 0 {
        rel
    } else {
        dir + seq!['/'] + rel
    }
}

/// Resolves `rel` against the directory `dir`.
pub fn join_relative(dir: &String, rel: &String) -> (r: String)
    ensures
        r@ == spec_join_relative(dir@, rel@),
{
    proof {
        reveal_strlit("/");
    }
    let rel_chars = str_chars(rel.as_str());
    if rel_chars.len() > 0 && rel_chars[0] == '/' {
        return rel.clone();
    }
    let dir_chars = str_chars(dir.as_str());
    if dir_chars.len() == 0 {
        return rel.clone();
    }
    let mut out = dir.clone();
    out.append("/");
    out.append(rel.as_str());
    proof {
        assert(out@ =~= dir@ + seq!['/'] + rel@);
    }
    out
}

} // verus!
